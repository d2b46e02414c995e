use vstd::prelude::*;

use crate::audio_analyzer::spectrogram::copy_vec;

verus! {

/// The points stored for an open line strip: the first point repeated in
/// front and the last repeated at the end, so that every segment has a
/// neighbour on both sides.
pub open spec fn open_strip<P>(points: Seq<P>) -> Seq<P> {
    seq![points[0]] + points + seq![points.last()]
}

/// The points stored for a closed line strip: the last point in front,
/// then the first two after the end, so that the strip wraps around.
pub open spec fn closed_strip<P>(points: Seq<P>) -> Seq<P> {
    seq![points.last()] + points + seq![points[0], points[1]]
}

/// The points to store for an open line strip through `lines_points`.
pub fn line_strip_open<P: Copy>(lines_points: &[P]) -> (points: Vec<P>)
    requires
        lines_points@.len() > 0,
        lines_points@.len() + 2 <= usize::MAX,
    ensures
        points@ == open_strip(lines_points@),
{
    let n = lines_points.len();
    let mut points: Vec<P> = Vec::with_capacity(n + 2);
    points.push(lines_points[0]);
    let mut middle = copy_vec(lines_points);
    points.append(&mut middle);
    points.push(lines_points[n - 1]);
    assert(points@ =~= open_strip(lines_points@));
    points
}

/// The points to store for a closed line strip through `lines_points`.
pub fn line_strip_closed<P: Copy>(lines_points: &[P]) -> (points: Vec<P>)
    requires
        lines_points@.len() > 1,
        lines_points@.len() + 3 <= usize::MAX,
    ensures
        points@ == closed_strip(lines_points@),
{
    let n = lines_points.len();
    let mut points: Vec<P> = Vec::with_capacity(n + 3);
    points.push(lines_points[n - 1]);
    let mut middle = copy_vec(lines_points);
    points.append(&mut middle);
    points.push(lines_points[0]);
    points.push(lines_points[1]);
    assert(points@ =~= closed_strip(lines_points@));
    points
}

/// Vertices drawn for a strip of `stored_points` stored points: one quad
/// of `vertices_per_segment` vertices for every point that has a
/// neighbour on both sides.
pub fn line_strip_vertices(vertices_per_segment: i32, stored_points: i32) -> (count: i32)
    requires
        i32::MIN <= vertices_per_segment * (stored_points - 2) <= i32::MAX,
        stored_points - 2 >= i32::MIN,
    ensures
        count == vertices_per_segment * (stored_points - 2),
{
    vertices_per_segment * (stored_points - 2)
}

/// The stored strip of `n` points holds the points in order after one
/// leading neighbour, and has `n` points with a neighbour on both sides
/// when open, `n + 1` when closed; the open strip repeats its ends, the
/// closed strip leads with its last point and ends with its first.
pub proof fn law_strip_lengths<P>(points: Seq<P>)
    requires
        points.len() > 1,
    ensures
        open_strip(points).len() - 2 == points.len(),
        closed_strip(points).len() - 2 == points.len() + 1,
        open_strip(points)[0] == points[0],
        open_strip(points).last() == points.last(),
        closed_strip(points)[0] == points.last(),
        closed_strip(points)[closed_strip(points).len() - 2] == points[0],
        forall|i: int| 0 <= i < points.len() ==> #[trigger] open_strip(points)[i + 1] == points[i]
            && closed_strip(points)[i + 1] == points[i],
{
}

/// An open strip of `n` points stores `n + 2` points: the first point,
/// the points in order, then the last point again.
pub proof fn law_open_strip_points<P>(points: Seq<P>)
    requires
        points.len() > 0,
    ensures
        open_strip(points).len() == points.len() + 2,
        open_strip(points)[0] == points[0],
        forall|i: int| 0 <= i < points.len() ==> #[trigger] open_strip(points)[i + 1] == points[i],
        open_strip(points)[points.len() + 1int] == points[points.len() - 1],
{
}

/// A closed strip of `n` points stores `n + 3` points: the last point,
/// the points in order, then the first and the second point, so that the
/// segment from the last point back to the first has a neighbour on both
/// sides.
pub proof fn law_closed_strip_points<P>(points: Seq<P>)
    requires
        points.len() > 1,
    ensures
        closed_strip(points).len() == points.len() + 3,
        closed_strip(points)[0] == points[points.len() - 1],
        forall|i: int| 0 <= i < points.len() ==> #[trigger] closed_strip(points)[i + 1] == points[i],
        closed_strip(points)[points.len() + 1int] == points[0],
        closed_strip(points)[points.len() + 2int] == points[1],
{
}

} // verus!
