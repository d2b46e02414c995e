use vstd::prelude::*;

verus! {

/// The std `String::push`; the contract claims that it appends `ch` to
/// the end of the string.
pub assume_specification[ String::push ](string: &mut String, ch: char)
    ensures
        final(string)@ == old(string)@.push(ch),
;

/// The character of each byte of a C string, read as Latin-1.
pub open spec fn latin1_chars(data: Seq<i8>) -> Seq<char> {
    data.map_values(|c: i8| (c as u8) as char)
}

/// The text of a log buffer filled by OpenGL: one character per byte.
pub fn make_string(data: Vec<i8>) -> (text: String)
    ensures
        text@ == latin1_chars(data@),
{
    let mut text = String::new();
    let mut i: usize = 0;
    while i < data.len()
        invariant
            i <= data@.len(),
            text@ == latin1_chars(data@.take(i as int)),
        decreases data@.len() - i,
    {
        let c = data[i];
        text.push(c as u8 as char);
        i = i + 1;
        assert(text@ =~= latin1_chars(data@.take(i as int)));
    }
    assert(data@.take(data@.len() as int) =~= data@);
    text
}

} // verus!
