//! Polygons built point by point, refusing a point whose new segment would
//! cross one already drawn.
//!
//! Whether two segments cross, and whether two points are the same, depend on
//! how points are written; the builder takes those judgements from its caller
//! and decides with them.
use vstd::prelude::*;

use crate::geospatial::{windows, windows_spec};

verus! {

/// A closed ring of points, its first point repeated at its end.
#[derive(Debug)]
pub struct Polygon<P>(Vec<P>);

impl<P> View for Polygon<P> {
    type V = Seq<P>;

    closed spec fn view(&self) -> Seq<P> {
        self.0@
    }
}

impl<P> Polygon<P> {
    /// A polygon has more than three points: at least three corners, the
    /// first repeated at the end.
    #[verifier::type_invariant]
    closed spec fn enough_points(self) -> bool {
        self.0@.len() > 3
    }
}

impl<P: Copy> Polygon<P> {
    /// The segments of the ring, in order: at least three of them.
    pub fn create_lines(&self) -> (lines: Vec<(P, P)>)
        ensures
            lines@ == windows_spec(self@),
            lines@.len() >= 3,
    {
        proof {
            use_type_invariant(self);
        }
        windows(&self.0)
    }

    /// The points of the ring, in order.
    pub fn points(&self) -> (points: &[P])
        ensures
            points@ == self@,
            points@.len() > 3,
    {
        proof {
            use_type_invariant(self);
        }
        self.0.as_slice()
    }
}

/// Points collected so far, none of whose segments crosses another.
#[derive(Debug)]
pub struct PolygonBuilder<P> {
    points: Vec<P>,
}

impl<P> View for PolygonBuilder<P> {
    type V = Seq<P>;

    closed spec fn view(&self) -> Seq<P> {
        self.points@
    }
}

/// The first index at which `flags` holds, if any.
pub open spec fn first_set(flags: Seq<bool>) -> Option<int> {
    if exists|k: int| 0 <= k < flags.len() && flags[k] {
        Some(choose|k: int| 0 <= k < flags.len() && flags[k] && forall|j: int| 0 <= j < k ==> !flags[j])
    } else {
        None
    }
}

proof fn lemma_first_set(flags: Seq<bool>, k: int)
    requires
        0 <= k < flags.len(),
        flags[k],
        forall|j: int| 0 <= j < k ==> !flags[j],
    ensures
        first_set(flags) == Some(k),
{
    let c = choose|c: int| 0 <= c < flags.len() && flags[c] && forall|j: int| 0 <= j < c ==> !flags[j];
    assert(0 <= c < flags.len() && flags[c] && forall|j: int| 0 <= j < c ==> !flags[j]);
    if c < k {
        assert(!flags[c]);
    } else if c > k {
        assert(!flags[k]);
    }
}

impl<P: Copy> PolygonBuilder<P> {
    /// A builder with no point.
    pub fn new() -> (b: Self)
        ensures
            b@ == Seq::<P>::empty(),
    {
        PolygonBuilder { points: Vec::new() }
    }

    /// The points collected so far.
    pub fn points(&self) -> (points: &Vec<P>)
        ensures
            points@ == self@,
    {
        &self.points
    }

    /// The segments between the points collected so far.
    pub fn lines(&self) -> (lines: Vec<(P, P)>)
        ensures
            lines@ == windows_spec(self@),
    {
        windows(&self.points)
    }

    /// Adds `point` unless the segment from the last point to it conflicts
    /// with one already drawn. `conflicts[k]` says whether the `k`-th segment
    /// differs from the new one and crosses it; the first such segment is
    /// returned and the builder left unchanged.
    pub fn add_point(&mut self, point: P, conflicts: &Vec<bool>) -> (res: Result<(), (P, P)>)
        requires
            old(self)@.len() > 0 ==> conflicts@.len() == windows_spec(old(self)@).len(),
        ensures
            old(self)@.len() == 0 ==> res is Ok,
            match res {
                Ok(()) => {
                    &&& old(self)@.len() > 0 ==> first_set(conflicts@) is None
                    &&& final(self)@ == old(self)@.push(point)
                },
                Err(line) => {
                    &&& old(self)@.len() > 0
                    &&& first_set(conflicts@) matches Some(k) && line == windows_spec(old(self)@)[k]
                    &&& final(self)@ == old(self)@
                },
            },
    {
        if self.points.len() > 0 {
            let lines = windows(&self.points);
            let n = conflicts.len();
            let mut k: usize = 0;
            while k < n
                invariant
                    n == conflicts@.len(),
                    n == lines@.len(),
                    lines@ == windows_spec(self.points@),
                    self.points@ == old(self).points@,
                    k <= n,
                    forall|j: int| 0 <= j < k ==> !conflicts@[j],
                decreases n - k,
            {
                if conflicts[k] {
                    proof {
                        lemma_first_set(conflicts@, k as int);
                    }
                    return Err(lines[k]);
                }
                k = k + 1;
            }
        }
        self.points.push(point);
        Ok(())
    }

    /// `add_point` on an owned builder: the builder with the point, or the
    /// conflicting segment together with the unchanged builder.
    pub fn with_point(self, point: P, conflicts: &Vec<bool>) -> (res: Result<Self, ((P, P), Self)>)
        requires
            self@.len() > 0 ==> conflicts@.len() == windows_spec(self@).len(),
        ensures
            self@.len() == 0 ==> res is Ok,
            match res {
                Ok(b) => {
                    &&& self@.len() > 0 ==> first_set(conflicts@) is None
                    &&& b@ == self@.push(point)
                },
                Err((line, b)) => {
                    &&& self@.len() > 0
                    &&& first_set(conflicts@) matches Some(k) && line == windows_spec(self@)[k]
                    &&& b@ == self@
                },
            },
    {
        let mut builder = self;
        match builder.add_point(point, conflicts) {
            Err(line) => Err((line, builder)),
            Ok(()) => Ok(builder),
        }
    }

    /// The polygon, where the builder holds more than three points and
    /// `ends_equal`, which says whether its first point equals its last, holds;
    /// the builder otherwise.
    pub fn try_build(self, ends_equal: bool) -> (res: Result<Polygon<P>, Self>)
        ensures
            match res {
                Ok(p) => self@.len() > 3 && ends_equal && p@ == self@,
                Err(b) => !(self@.len() > 3 && ends_equal) && b@ == self@,
            },
    {
        if self.points.len() > 3 && ends_equal {
            Ok(Polygon(self.points))
        } else {
            Err(self)
        }
    }
}

} // verus!
