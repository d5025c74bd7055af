use crate::scalar::{at_most, is_negligible, le, less, lt, EPSILON, INFINITY, MINUS_ONE, NEG_INFINITY, ONE, ZERO};
use crate::tuple::Tuple;
use vstd::prelude::*;

verus! {

/// A cylinder of radius one round the second axis, cut off below `minimum`
/// and above `maximum`, with or without caps. The two bounds are kept as
/// ordered keys.
#[derive(Clone, Copy, Debug, PartialEq, Eq, Structural)]
pub struct Cylinder {
    pub minimum: i64,
    pub maximum: i64,
    pub closed: bool,
}

/// A crossing of a ray with the wall that has no ends: its distance, and the
/// height at which it lies.
#[derive(Clone, Copy, Debug, PartialEq, Eq, Structural)]
pub struct Root {
    pub t: i64,
    pub y: i64,
}

/// A crossing of a ray with the plane of a cap: its distance, and the square
/// of its distance from the axis.
#[derive(Clone, Copy, Debug, PartialEq, Eq, Structural)]
pub struct Cap {
    pub t: i64,
    pub radius: i64,
}

/// What a ray gives for the test against a cylinder: the leading coefficient
/// and the discriminant of the quadratic of the wall, its two roots, the
/// second coordinate of the direction, and the crossings with the planes of
/// the lower and of the upper cap.
#[derive(Clone, Copy, Debug, PartialEq, Eq, Structural)]
pub struct Probe {
    pub a: i64,
    pub disc: i64,
    pub first: Root,
    pub second: Root,
    pub direction_y: i64,
    pub lower: Cap,
    pub upper: Cap,
}

/// The one distance, where `keep` holds, or nothing.
pub open spec fn only_if(keep: bool, t: i64) -> Seq<i64> {
    if keep {
        seq![t]
    } else {
        Seq::empty()
    }
}

impl Cylinder {
    /// Whether a crossing with the wall at the height `y` counts: the height
    /// lies strictly between the two bounds.
    pub open spec fn holds(self, y: i64) -> bool {
        less(self.minimum, y) && less(y, self.maximum)
    }

    /// Whether a ray with the direction's second coordinate `direction_y` can
    /// cross a cap: there are caps, and the ray does not run along them.
    pub open spec fn capped_for(self, direction_y: i64) -> bool {
        self.closed && !(-EPSILON < direction_y < EPSILON)
    }

    /// Whether a crossing with the plane of a cap lies on the cap: within the
    /// unit circle, its rim included.
    pub open spec fn on_cap(cap: Cap) -> bool {
        at_most(cap.radius, ONE)
    }

    /// The crossings with the two caps, the lower first.
    pub open spec fn cap_crossings(self, probe: Probe) -> Seq<i64> {
        if self.capped_for(probe.direction_y) {
            only_if(Self::on_cap(probe.lower), probe.lower.t) + only_if(Self::on_cap(probe.upper), probe.upper.t)
        } else {
            Seq::empty()
        }
    }

    /// The crossings with the wall between the bounds, the first root first.
    pub open spec fn wall_crossings(self, probe: Probe) -> Seq<i64> {
        only_if(self.holds(probe.first.y), probe.first.t) + only_if(self.holds(probe.second.y), probe.second.t)
    }

    /// The crossings of a ray with the cylinder. A ray along the axis can
    /// cross the caps only; a ray that passes the wall by, its discriminant
    /// being negative, crosses nothing; any other crosses the wall where its
    /// roots lie between the bounds, and then the caps.
    pub open spec fn crossings(self, probe: Probe) -> Seq<i64> {
        if -EPSILON < probe.a < EPSILON {
            self.cap_crossings(probe)
        } else if less(probe.disc, ZERO) {
            Seq::empty()
        } else {
            self.wall_crossings(probe) + self.cap_crossings(probe)
        }
    }

    /// An open cylinder that is not cut off.
    pub fn new() -> (cylinder: Self)
        ensures
            cylinder == (Cylinder { minimum: NEG_INFINITY, maximum: INFINITY, closed: false }),
    {
        Self { minimum: NEG_INFINITY, maximum: INFINITY, closed: false }
    }

    /// Tells whether a crossing with the wall at the height `y` counts.
    pub fn within(&self, y: i64) -> (inside: bool)
        ensures
            inside == self.holds(y),
    {
        lt(self.minimum, y) && lt(y, self.maximum)
    }

    /// Finds the crossings of a ray with the caps.
    pub fn intersect_caps(&self, probe: &Probe) -> (xs: Vec<i64>)
        ensures
            xs@ == self.cap_crossings(*probe),
    {
        let mut xs: Vec<i64> = Vec::new();
        if !self.closed || is_negligible(probe.direction_y) {
            assert(xs@ =~= self.cap_crossings(*probe));
            return xs;
        }
        if le(probe.lower.radius, ONE) {
            xs.push(probe.lower.t);
        }
        if le(probe.upper.radius, ONE) {
            xs.push(probe.upper.t);
        }
        assert(xs@ =~= self.cap_crossings(*probe));
        xs
    }

    /// Finds the crossings of a ray with the cylinder.
    pub fn local_intersect(&self, probe: &Probe) -> (xs: Vec<i64>)
        ensures
            xs@ == self.crossings(*probe),
    {
        if is_negligible(probe.a) {
            return self.intersect_caps(probe);
        }
        let mut xs: Vec<i64> = Vec::new();
        if lt(probe.disc, ZERO) {
            assert(xs@ =~= self.crossings(*probe));
            return xs;
        }
        if self.within(probe.first.y) {
            xs.push(probe.first.t);
        }
        if self.within(probe.second.y) {
            xs.push(probe.second.t);
        }
        assert(xs@ =~= self.wall_crossings(*probe));
        let mut caps = self.intersect_caps(probe);
        xs.append(&mut caps);
        xs
    }

    /// The normal at a point of the surface: up on the upper cap, down on the
    /// lower one, and away from the axis on the wall.
    ///
    /// `dist` is the square of the point's distance from the axis, `top` the
    /// upper bound less the tolerance and `bottom` the lower bound plus it: a
    /// point is on a cap when it is within the unit circle and not below
    /// `top`, or not above `bottom`.
    pub open spec fn normal_of(local_point: Tuple, dist: i64, top: i64, bottom: i64) -> Tuple {
        if less(dist, ONE) && at_most(top, local_point.y) {
            Tuple { x: ZERO, y: ONE, z: ZERO, w: ZERO }
        } else if less(dist, ONE) && at_most(local_point.y, bottom) {
            Tuple { x: ZERO, y: MINUS_ONE, z: ZERO, w: ZERO }
        } else {
            Tuple { x: local_point.x, y: ZERO, z: local_point.z, w: ZERO }
        }
    }

    /// Finds the normal at a point of the surface.
    pub fn local_normal_at(local_point: Tuple, dist: i64, top: i64, bottom: i64) -> (normal: Tuple)
        ensures
            normal == Self::normal_of(local_point, dist, top, bottom),
    {
        if lt(dist, ONE) && le(top, local_point.y) {
            Tuple::vector(ZERO, ONE, ZERO)
        } else if lt(dist, ONE) && le(local_point.y, bottom) {
            Tuple::vector(ZERO, MINUS_ONE, ZERO)
        } else {
            Tuple::vector(local_point.x, ZERO, local_point.z)
        }
    }
}

/// A ray that passes the wall by and is not along the axis crosses nothing,
/// caps or no caps; an open cylinder is crossed at the wall only; and no ray
/// has more than four crossings.
pub proof fn lemma_cylinder_crossings(cylinder: Cylinder, probe: Probe)
    ensures
        !(-EPSILON < probe.a < EPSILON) && less(probe.disc, ZERO) ==> cylinder.crossings(probe).len() == 0,
        !cylinder.closed ==> cylinder.cap_crossings(probe).len() == 0,
        !cylinder.closed && -EPSILON < probe.a < EPSILON ==> cylinder.crossings(probe).len() == 0,
        cylinder.crossings(probe).len() <= 4,
{
}

/// A crossing at the height of a bound does not count for the wall.
pub proof fn lemma_bounds_are_excluded(cylinder: Cylinder)
    ensures
        !cylinder.holds(cylinder.minimum),
        !cylinder.holds(cylinder.maximum),
{
}

} // verus!
