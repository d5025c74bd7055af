use crate::scalar::{less, lt, ZERO};
use vstd::prelude::*;

verus! {

/// The sphere of radius one round the origin.
#[derive(Clone, Copy, Debug, PartialEq, Eq, Structural)]
pub struct Sphere {}

impl Sphere {
    /// The crossings of a ray with the sphere, given the discriminant of its
    /// quadratic and the two roots, the smaller first: none where the
    /// discriminant is negative, else both roots, which are one distance
    /// twice where the ray touches the sphere.
    pub open spec fn crossings(discriminant: i64, t1: i64, t2: i64) -> Seq<i64> {
        if less(discriminant, ZERO) {
            Seq::empty()
        } else {
            seq![t1, t2]
        }
    }

    /// Finds the crossings of a ray with the sphere.
    pub fn local_intersect(discriminant: i64, t1: i64, t2: i64) -> (xs: Vec<i64>)
        ensures
            xs@ == Self::crossings(discriminant, t1, t2),
    {
        let mut xs: Vec<i64> = Vec::new();
        if !lt(discriminant, ZERO) {
            xs.push(t1);
            xs.push(t2);
        }
        assert(xs@ =~= Self::crossings(discriminant, t1, t2));
        xs
    }
}

/// A ray that passes the sphere by, its discriminant being negative, has no
/// crossing with it; every other ray has two, which may be one and the same.
pub proof fn lemma_sphere_crossings(discriminant: i64, t1: i64, t2: i64)
    ensures
        less(discriminant, ZERO) ==> Sphere::crossings(discriminant, t1, t2).len() == 0,
        !less(discriminant, ZERO) ==> Sphere::crossings(discriminant, t1, t2) == seq![t1, t2],
{
}

} // verus!
