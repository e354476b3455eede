//! Points, segments and polygons, independent of how a point is written.
use vstd::prelude::*;

pub mod polygon;

verus! {

/// The segments between consecutive points.
pub open spec fn windows_spec<P>(points: Seq<P>) -> Seq<(P, P)> {
    Seq::new(
        if points.len() == 0 { 0 } else { (points.len() - 1) as nat },
        |i: int| (points[i], points[i + 1]),
    )
}

/// The segments between consecutive points, in order: one fewer than the
/// points, or none for no point.
pub fn windows<P: Copy>(points: &Vec<P>) -> (lines: Vec<(P, P)>)
    ensures
        lines@ == windows_spec(points@),
{
    let n = points.len();
    let mut lines: Vec<(P, P)> = Vec::new();
    if n == 0 {
        assert(lines@ =~= windows_spec(points@));
        return lines;
    }
    let mut i: usize = 0;
    while i + 1 < n
        invariant
            n == points@.len(),
            n > 0,
            i < n,
            lines@.len() == i,
            forall|k: int| 0 <= k < i ==> #[trigger] lines@[k] == (points@[k], points@[k + 1]),
        decreases n - i,
    {
        lines.push((points[i], points[i + 1]));
        i = i + 1;
    }
    assert(lines@ =~= windows_spec(points@));
    lines
}

} // verus!
