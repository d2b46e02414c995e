use vstd::prelude::*;

verus! {

/// The first value of every row, in row order: the magnitude of the
/// lowest bin of each spectrum of a history.
pub fn first_of_each<T: Copy>(rows: &Vec<Vec<T>>) -> (firsts: Vec<T>)
    requires
        forall|i: int| 0 <= i < rows@.len() ==> (#[trigger] rows@[i])@.len() > 0,
    ensures
        firsts@ == rows@.map_values(|row: Vec<T>| row@[0]),
{
    let mut firsts: Vec<T> = Vec::with_capacity(rows.len());
    let mut i: usize = 0;
    while i < rows.len()
        invariant
            i <= rows@.len(),
            forall|k: int| 0 <= k < rows@.len() ==> (#[trigger] rows@[k])@.len() > 0,
            firsts@ == rows@.take(i as int).map_values(|row: Vec<T>| row@[0]),
        decreases rows@.len() - i,
    {
        assert(rows@[i as int]@.len() > 0);
        firsts.push(rows[i][0]);
        i = i + 1;
        assert(firsts@ =~= rows@.take(i as int).map_values(|row: Vec<T>| row@[0]));
    }
    assert(rows@.take(rows@.len() as int) =~= rows@);
    firsts
}

} // verus!
