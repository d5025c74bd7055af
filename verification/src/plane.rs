use crate::scalar::{is_negligible, EPSILON, ONE, ZERO};
use crate::tuple::Tuple;
use vstd::prelude::*;

verus! {

/// The plane through the origin that is spanned by the first and the third
/// axis.
#[derive(Clone, Copy, Debug, PartialEq, Eq, Structural)]
pub struct Plane {}

impl Plane {
    /// The crossing of a ray with the plane, given the second coordinate of
    /// its direction and the distance at which its height is zero: none
    /// where the ray runs along the plane, be it inside the plane or beside
    /// it.
    pub open spec fn crossings(direction_y: i64, t: i64) -> Seq<i64> {
        if -EPSILON < direction_y < EPSILON {
            Seq::empty()
        } else {
            seq![t]
        }
    }

    /// Finds the crossing of a ray with the plane.
    pub fn local_intersect(direction_y: i64, t: i64) -> (xs: Vec<i64>)
        ensures
            xs@ == Self::crossings(direction_y, t),
    {
        let mut xs: Vec<i64> = Vec::new();
        if !is_negligible(direction_y) {
            xs.push(t);
        }
        assert(xs@ =~= Self::crossings(direction_y, t));
        xs
    }

    /// The normal of the plane, which is the same at every point: the unit
    /// vector of the second axis.
    pub fn local_normal_at(_local_point: Tuple) -> (normal: Tuple)
        ensures
            normal == (Tuple { x: ZERO, y: ONE, z: ZERO, w: ZERO }),
    {
        Tuple::vector(ZERO, ONE, ZERO)
    }
}

/// A ray along the plane has no crossing with it; every other ray has one.
pub proof fn lemma_plane_crossings(direction_y: i64, t: i64)
    ensures
        -EPSILON < direction_y < EPSILON ==> Plane::crossings(direction_y, t).len() == 0,
        !(-EPSILON < direction_y < EPSILON) ==> Plane::crossings(direction_y, t) == seq![t],
{
}

} // verus!
