use crate::intersection::UVT;
use crate::scalar::{is_negligible, less, lt, EPSILON, ONE, ZERO};
use crate::tuple::Tuple;
use vstd::prelude::*;

verus! {

/// How a triangle is shaded: with the one normal of its face, or with normals
/// of its own at the three corners, between which the normal of a point is
/// interpolated.
#[derive(Clone, Copy, Debug, PartialEq, Eq, Structural)]
pub enum TriangleKind {
    Flat,
    Smooth { n1: Tuple, n2: Tuple, n3: Tuple },
}

/// A triangle, given by its three corners.
#[derive(Clone, Copy, Debug, PartialEq, Eq, Structural)]
pub struct Triangle {
    pub p1: Tuple,
    pub p2: Tuple,
    pub p3: Tuple,
    pub kind: TriangleKind,
}

/// What a ray gives for the test against a triangle: the determinant, the
/// two barycentric weights of the point where the ray meets the plane of the
/// triangle, their sum, and the distance of that point.
#[derive(Clone, Copy, Debug, PartialEq, Eq, Structural)]
pub struct TriangleProbe {
    pub det: i64,
    pub u: i64,
    pub v: i64,
    pub sum: i64,
    pub t: i64,
}

impl Triangle {
    /// Whether the ray meets the triangle: it does not run along the plane
    /// of the triangle, and the point where it meets that plane has weights
    /// that are not negative and a sum of weights that is not above one.
    pub open spec fn is_hit(probe: TriangleProbe) -> bool {
        &&& !(-EPSILON < probe.det < EPSILON)
        &&& !less(probe.u, ZERO)
        &&& !less(ONE, probe.u)
        &&& !less(probe.v, ZERO)
        &&& !less(ONE, probe.sum)
    }

    /// The crossing of a ray with the triangle, where it meets it, with its
    /// weights.
    pub open spec fn crossings(probe: TriangleProbe) -> Seq<UVT> {
        if Self::is_hit(probe) {
            seq![UVT { t: probe.t, u: probe.u, v: probe.v }]
        } else {
            Seq::empty()
        }
    }

    /// A triangle with the one normal of its face.
    pub fn new(p1: Tuple, p2: Tuple, p3: Tuple) -> (triangle: Self)
        ensures
            triangle == (Triangle { p1, p2, p3, kind: TriangleKind::Flat }),
    {
        Self { p1, p2, p3, kind: TriangleKind::Flat }
    }

    /// A triangle with a normal at each corner.
    pub fn smooth(p1: Tuple, p2: Tuple, p3: Tuple, n1: Tuple, n2: Tuple, n3: Tuple) -> (triangle: Self)
        ensures
            triangle == (Triangle { p1, p2, p3, kind: TriangleKind::Smooth { n1, n2, n3 } }),
    {
        Self { p1, p2, p3, kind: TriangleKind::Smooth { n1, n2, n3 } }
    }

    /// Finds the crossing of a ray with the triangle.
    pub fn local_intersect(probe: &TriangleProbe) -> (xs: Vec<UVT>)
        ensures
            xs@ == Self::crossings(*probe),
    {
        let mut xs: Vec<UVT> = Vec::new();
        if is_negligible(probe.det) {
            assert(xs@ =~= Self::crossings(*probe));
            return xs;
        }
        if lt(probe.u, ZERO) || lt(ONE, probe.u) {
            assert(xs@ =~= Self::crossings(*probe));
            return xs;
        }
        if lt(probe.v, ZERO) || lt(ONE, probe.sum) {
            assert(xs@ =~= Self::crossings(*probe));
            return xs;
        }
        xs.push(UVT { t: probe.t, u: probe.u, v: probe.v });
        assert(xs@ =~= Self::crossings(*probe));
        xs
    }
}

/// A ray along the plane of the triangle has no crossing with it, and
/// neither has one that meets that plane beside the triangle: beyond one of
/// its three edges. No ray has more than one.
pub proof fn lemma_triangle_crossings(probe: TriangleProbe)
    ensures
        -EPSILON < probe.det < EPSILON ==> Triangle::crossings(probe).len() == 0,
        less(probe.u, ZERO) || less(probe.v, ZERO) || less(ONE, probe.sum) ==> Triangle::crossings(probe).len()
            == 0,
        Triangle::crossings(probe).len() <= 1,
        Triangle::crossings(probe).len() == 1 ==> Triangle::crossings(probe)[0].t == probe.t,
{
}

} // verus!
