use crate::cylinder::{only_if, Root};
use crate::scalar::{
    at_most, is_negligible, le, less, lt, neg, negated, EPSILON, INFINITY, MINUS_ONE, NEG_INFINITY, ONE, ZERO,
};
use crate::tuple::Tuple;
use vstd::prelude::*;

verus! {

/// A double cone round the second axis with its apex at the origin, cut off
/// below `minimum` and above `maximum`, with or without caps. The two bounds
/// are kept as ordered keys.
#[derive(Clone, Copy, Debug, PartialEq, Eq, Structural)]
pub struct Cone {
    pub minimum: i64,
    pub maximum: i64,
    pub closed: bool,
}

/// A crossing of a ray with the plane of a cap: its distance, the square of
/// its distance from the axis, and the square of its height, which is the
/// square of the radius of the cone there.
#[derive(Clone, Copy, Debug, PartialEq, Eq, Structural)]
pub struct ConeCap {
    pub t: i64,
    pub radius: i64,
    pub height: i64,
}

/// What a ray gives for the test against a cone: the two leading
/// coefficients and the discriminant of the quadratic of the wall, the root
/// of its linear part, its two roots, the second coordinate of the direction,
/// and the crossings with the planes of the lower and of the upper cap.
#[derive(Clone, Copy, Debug, PartialEq, Eq, Structural)]
pub struct ConeProbe {
    pub a: i64,
    pub b: i64,
    pub disc: i64,
    pub linear: i64,
    pub first: Root,
    pub second: Root,
    pub direction_y: i64,
    pub lower: ConeCap,
    pub upper: ConeCap,
}

impl Cone {
    /// Whether a crossing with the wall at the height `y` counts: the height
    /// lies strictly between the two bounds.
    pub open spec fn holds(self, y: i64) -> bool {
        less(self.minimum, y) && less(y, self.maximum)
    }

    /// Whether a ray with the direction's second coordinate `direction_y` can
    /// cross a cap: there are caps, and the ray does not run along them.
    pub open spec fn capped_for(self, direction_y: i64) -> bool {
        self.closed && !(-EPSILON < direction_y < EPSILON)
    }

    /// Whether a crossing with the plane of a cap lies on the cap: no farther
    /// from the axis than the cap is high.
    pub open spec fn on_cap(cap: ConeCap) -> bool {
        at_most(cap.radius, cap.height)
    }

    /// The crossings with the two caps, the lower first.
    pub open spec fn cap_crossings(self, probe: ConeProbe) -> Seq<i64> {
        if self.capped_for(probe.direction_y) {
            only_if(Self::on_cap(probe.lower), probe.lower.t) + only_if(Self::on_cap(probe.upper), probe.upper.t)
        } else {
            Seq::empty()
        }
    }

    /// The crossing of a ray that runs along one of the two halves: the root
    /// of the linear part, where the quadratic has no square term.
    pub open spec fn linear_crossing(probe: ConeProbe) -> Seq<i64> {
        only_if(-EPSILON < probe.a < EPSILON, probe.linear)
    }

    /// The crossings with the wall between the bounds, the first root first.
    pub open spec fn wall_crossings(self, probe: ConeProbe) -> Seq<i64> {
        only_if(self.holds(probe.first.y), probe.first.t) + only_if(self.holds(probe.second.y), probe.second.t)
    }

    /// The crossings of a ray with the cone.
    ///
    /// A ray whose quadratic has neither a square nor a linear term crosses
    /// nothing. A ray whose quadratic has no square term runs along one of
    /// the two halves: it crosses the wall at the root of the linear part,
    /// and besides where the roots of the quadratic lie between the bounds,
    /// if the discriminant is not negative; then it crosses the caps. Any
    /// other ray passes the cone by where the discriminant is negative, and
    /// else crosses the wall where the roots of the quadratic lie between
    /// the bounds, and then the caps.
    pub open spec fn crossings(self, probe: ConeProbe) -> Seq<i64> {
        if -EPSILON < probe.a < EPSILON && -EPSILON < probe.b < EPSILON {
            Seq::empty()
        } else if -EPSILON < probe.a < EPSILON {
            if less(probe.disc, ZERO) {
                Self::linear_crossing(probe) + self.cap_crossings(probe)
            } else {
                Self::linear_crossing(probe) + self.wall_crossings(probe) + self.cap_crossings(probe)
            }
        } else if less(probe.disc, ZERO) {
            Seq::empty()
        } else {
            self.wall_crossings(probe) + self.cap_crossings(probe)
        }
    }

    /// An open double cone that is not cut off.
    pub fn new() -> (cone: Self)
        ensures
            cone == (Cone { minimum: NEG_INFINITY, maximum: INFINITY, closed: false }),
    {
        Self { minimum: NEG_INFINITY, maximum: INFINITY, closed: false }
    }

    /// Tells whether a crossing with the wall at the height `y` counts.
    pub fn within(&self, y: i64) -> (inside: bool)
        ensures
            inside == self.holds(y),
    {
        lt(self.minimum, y) && lt(y, self.maximum)
    }

    /// Finds the crossings of a ray with the caps.
    pub fn intersect_caps(&self, probe: &ConeProbe) -> (xs: Vec<i64>)
        ensures
            xs@ == self.cap_crossings(*probe),
    {
        let mut xs: Vec<i64> = Vec::new();
        if !self.closed || is_negligible(probe.direction_y) {
            assert(xs@ =~= self.cap_crossings(*probe));
            return xs;
        }
        if le(probe.lower.radius, probe.lower.height) {
            xs.push(probe.lower.t);
        }
        if le(probe.upper.radius, probe.upper.height) {
            xs.push(probe.upper.t);
        }
        assert(xs@ =~= self.cap_crossings(*probe));
        xs
    }

    /// Finds the crossings of a ray with the cone.
    pub fn local_intersect(&self, probe: &ConeProbe) -> (xs: Vec<i64>)
        ensures
            xs@ == self.crossings(*probe),
    {
        let mut xs: Vec<i64> = Vec::new();
        let linear = is_negligible(probe.a);
        if linear && is_negligible(probe.b) {
            assert(xs@ =~= self.crossings(*probe));
            return xs;
        }
        if linear {
            xs.push(probe.linear);
        }
        assert(xs@ =~= only_if(-EPSILON < probe.a < EPSILON, probe.linear));
        if lt(probe.disc, ZERO) {
            if !linear {
                return xs;
            }
        } else {
            if self.within(probe.first.y) {
                xs.push(probe.first.t);
            }
            if self.within(probe.second.y) {
                xs.push(probe.second.t);
            }
            assert(xs@ =~= only_if(-EPSILON < probe.a < EPSILON, probe.linear) + self.wall_crossings(*probe));
        }
        let mut caps = self.intersect_caps(probe);
        xs.append(&mut caps);
        assert(xs@ =~= self.crossings(*probe));
        xs
    }

    /// The normal at a point of the surface: up on the upper cap, down on the
    /// lower one, and on the wall away from the axis and towards the plane of
    /// the apex. It is not of unit length.
    ///
    /// `dist` is the square of the point's distance from the axis, `slope`
    /// that distance itself, `height` the square of the point's height, `top`
    /// the upper bound less the tolerance and `bottom` the lower bound plus
    /// it: a point is on a cap when it is nearer to the axis than it is high
    /// and not below `top`, or not above `bottom`.
    pub open spec fn normal_of(
        local_point: Tuple,
        dist: i64,
        slope: i64,
        height: i64,
        top: i64,
        bottom: i64,
    ) -> Tuple {
        if less(dist, height) && at_most(top, local_point.y) {
            Tuple { x: ZERO, y: ONE, z: ZERO, w: ZERO }
        } else if less(dist, height) && at_most(local_point.y, bottom) {
            Tuple { x: ZERO, y: MINUS_ONE, z: ZERO, w: ZERO }
        } else {
            Tuple {
                x: local_point.x,
                y: if less(ZERO, local_point.y) {
                    negated(slope)
                } else {
                    slope
                },
                z: local_point.z,
                w: ZERO,
            }
        }
    }

    /// Finds the normal at a point of the surface.
    pub fn local_normal_at(
        local_point: Tuple,
        dist: i64,
        slope: i64,
        height: i64,
        top: i64,
        bottom: i64,
    ) -> (normal: Tuple)
        ensures
            normal == Self::normal_of(local_point, dist, slope, height, top, bottom),
    {
        if lt(dist, height) && le(top, local_point.y) {
            Tuple::vector(ZERO, ONE, ZERO)
        } else if lt(dist, height) && le(local_point.y, bottom) {
            Tuple::vector(ZERO, MINUS_ONE, ZERO)
        } else {
            let y = if lt(ZERO, local_point.y) {
                neg(slope)
            } else {
                slope
            };
            Tuple::vector(local_point.x, y, local_point.z)
        }
    }
}

/// A ray whose quadratic has neither a square nor a linear term crosses
/// nothing, and so does a ray with a square term whose discriminant is
/// negative, caps or no caps. A ray without a square term but with a linear
/// one has the root of the linear part as its first crossing, whatever the
/// discriminant. A ray with a square term has no linear crossing; an open
/// cone has no crossings with caps; and no ray has more than five
/// crossings.
pub proof fn lemma_cone_crossings(cone: Cone, probe: ConeProbe)
    ensures
        -EPSILON < probe.a < EPSILON && -EPSILON < probe.b < EPSILON ==> cone.crossings(probe).len() == 0,
        !(-EPSILON < probe.a < EPSILON) && less(probe.disc, ZERO) ==> cone.crossings(probe).len() == 0,
        -EPSILON < probe.a < EPSILON && !(-EPSILON < probe.b < EPSILON) ==> cone.crossings(probe).len() >= 1
            && cone.crossings(probe)[0] == probe.linear,
        !(-EPSILON < probe.a < EPSILON) ==> Cone::linear_crossing(probe).len() == 0,
        !cone.closed ==> cone.cap_crossings(probe).len() == 0,
        cone.crossings(probe).len() <= 5,
{
}

} // verus!
