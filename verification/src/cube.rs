use crate::scalar::{
    abs, at_most, greater, is_nan, le, less, lesser, lt, magnitude, EPSILON, MINUS_ONE, ONE, ZERO,
};
use crate::tuple::Tuple;
use vstd::prelude::*;

verus! {

/// The axis-aligned cube that reaches from -1 to 1 on every axis.
#[derive(Clone, Copy, Debug, PartialEq, Eq, Structural)]
pub struct Cube;

/// The distances at which a ray enters and leaves the slab between two
/// parallel planes.
#[derive(Clone, Copy, Debug, PartialEq, Eq, Structural)]
pub struct Slab {
    pub t_min: i64,
    pub t_max: i64,
}

/// The slab of a ray that crosses the two planes at the distances `a` and
/// `b`: it enters at the smaller and leaves at the larger.
pub open spec fn slab_of(a: i64, b: i64) -> Slab {
    if less(b, a) {
        Slab { t_min: b, t_max: a }
    } else {
        Slab { t_min: a, t_max: b }
    }
}

/// The slab of a ray on one axis. `direction` is the coordinate of the ray's
/// direction on that axis; `divided` holds the distances of the two planes
/// for a ray that moves along the axis, `scaled` those for a ray that does
/// not, which lie at infinity on the side of each plane.
pub open spec fn axis_slab(direction: i64, divided: (i64, i64), scaled: (i64, i64)) -> Slab {
    if at_most(EPSILON, magnitude(direction)) {
        slab_of(divided.0, divided.1)
    } else {
        slab_of(scaled.0, scaled.1)
    }
}

/// Where a ray is inside all three slabs: from the last entry to the first
/// exit.
pub open spec fn overlap(x: Slab, y: Slab, z: Slab) -> Slab {
    Slab {
        t_min: greater(greater(x.t_min, y.t_min), z.t_min),
        t_max: lesser(lesser(x.t_max, y.t_max), z.t_max),
    }
}

/// The crossings of a ray with the box that the three slabs bound: none where
/// the ray leaves one slab before it has entered another, else the distance of
/// the last entry and that of the first exit.
pub open spec fn box_crossings(x: Slab, y: Slab, z: Slab) -> Seq<i64> {
    let both = overlap(x, y, z);
    if both.t_min > both.t_max {
        Seq::empty()
    } else {
        seq![both.t_min, both.t_max]
    }
}

/// One or minus one, by the side of zero that the coordinate lies on; zero
/// itself counts for the side of one.
pub open spec fn unit_towards(coordinate: i64) -> i64 {
    if coordinate < 0 {
        MINUS_ONE
    } else {
        ONE
    }
}

/// The outward normal of the cube at a point of its surface: the unit vector
/// along the axis whose coordinate is largest in absolute value, the first
/// such axis where two are as large, towards the side of that coordinate.
pub open spec fn normal_of(p: Tuple) -> Tuple {
    if magnitude(p.x) >= magnitude(p.y) && magnitude(p.x) >= magnitude(p.z) {
        Tuple { x: unit_towards(p.x), y: ZERO, z: ZERO, w: ZERO }
    } else if magnitude(p.y) >= magnitude(p.z) {
        Tuple { x: ZERO, y: unit_towards(p.y), z: ZERO, w: ZERO }
    } else {
        Tuple { x: ZERO, y: ZERO, z: unit_towards(p.z), w: ZERO }
    }
}

/// Finds the slab of a ray on one axis: it picks the distances of the two
/// planes by whether the ray moves along the axis, and puts them in order.
pub fn check_axis(direction: i64, divided: (i64, i64), scaled: (i64, i64)) -> (slab: Slab)
    ensures
        slab == axis_slab(direction, divided, scaled),
{
    let (a, b) = if le(EPSILON, abs(direction)) {
        divided
    } else {
        scaled
    };
    if lt(b, a) {
        Slab { t_min: b, t_max: a }
    } else {
        Slab { t_min: a, t_max: b }
    }
}

/// Combines the slabs of the three axes into the crossings of a ray with a
/// box.
pub fn local_intersect(x: Slab, y: Slab, z: Slab) -> (crossings: Vec<i64>)
    ensures
        crossings@ == box_crossings(x, y, z),
{
    let mut t_min = x.t_min;
    if y.t_min > t_min {
        t_min = y.t_min;
    }
    if z.t_min > t_min {
        t_min = z.t_min;
    }
    let mut t_max = x.t_max;
    if y.t_max < t_max {
        t_max = y.t_max;
    }
    if z.t_max < t_max {
        t_max = z.t_max;
    }
    let mut crossings: Vec<i64> = Vec::new();
    if t_min <= t_max {
        crossings.push(t_min);
        crossings.push(t_max);
    }
    assert(crossings@ =~= box_crossings(x, y, z));
    crossings
}

impl Cube {
    /// The outward normal of the cube at a point of its surface.
    pub fn local_normal_at(local_point: Tuple) -> (normal: Tuple)
        ensures
            normal == normal_of(local_point),
    {
        let x = abs(local_point.x);
        let y = abs(local_point.y);
        let z = abs(local_point.z);
        if x >= y && x >= z {
            Tuple::vector(unit(local_point.x), ZERO, ZERO)
        } else if y >= z {
            Tuple::vector(ZERO, unit(local_point.y), ZERO)
        } else {
            Tuple::vector(ZERO, ZERO, unit(local_point.z))
        }
    }
}

fn unit(coordinate: i64) -> (towards: i64)
    ensures
        towards == unit_towards(coordinate),
{
    if coordinate < 0 {
        MINUS_ONE
    } else {
        ONE
    }
}

/// The normal of the cube is a unit vector along one axis: one of its
/// coordinates is one or minus one and the others are zero. It points along
/// an axis on which no other coordinate of the point is larger in absolute
/// value, and to the side of the point on that axis.
pub proof fn lemma_normal_is_unit_axis(p: Tuple)
    ensures
        normal_of(p).w == ZERO,
        (normal_of(p).x == ONE || normal_of(p).x == MINUS_ONE) && normal_of(p).y == ZERO && normal_of(p).z == ZERO
            || normal_of(p).x == ZERO && (normal_of(p).y == ONE || normal_of(p).y == MINUS_ONE) && normal_of(p).z
            == ZERO || normal_of(p).x == ZERO && normal_of(p).y == ZERO && (normal_of(p).z == ONE || normal_of(
            p,
        ).z == MINUS_ONE),
        normal_of(p).x != ZERO ==> magnitude(p.x) >= magnitude(p.y) && magnitude(p.x) >= magnitude(p.z) && (
        normal_of(p).x < 0 <==> p.x < 0),
        normal_of(p).y != ZERO ==> magnitude(p.y) > magnitude(p.x) && magnitude(p.y) >= magnitude(p.z) && (
        normal_of(p).y < 0 <==> p.y < 0),
        normal_of(p).z != ZERO ==> magnitude(p.z) > magnitude(p.x) && magnitude(p.z) > magnitude(p.y) && (
        normal_of(p).z < 0 <==> p.z < 0),
{
}

/// The slab of distances that are numbers is entered before it is left.
pub proof fn lemma_slab_is_ordered(a: i64, b: i64)
    requires
        !is_nan(a),
        !is_nan(b),
    ensures
        slab_of(a, b).t_min == lesser(a, b),
        slab_of(a, b).t_max == greater(a, b),
        slab_of(a, b).t_min <= slab_of(a, b).t_max,
{
}

/// A ray is inside the box at a distance exactly when it is inside each of
/// the three slabs there; so a ray that has left one slab before it enters
/// another has no crossing with the box, and one that has a crossing has
/// two, the nearer first.
pub proof fn lemma_box_crossings(x: Slab, y: Slab, z: Slab, t: i64)
    ensures
        overlap(x, y, z).t_min <= t <= overlap(x, y, z).t_max <==> (x.t_min <= t <= x.t_max && y.t_min <= t
            <= y.t_max && z.t_min <= t <= z.t_max),
        (x.t_max < y.t_min || x.t_max < z.t_min || y.t_max < x.t_min || y.t_max < z.t_min || z.t_max
            < x.t_min || z.t_max < y.t_min) ==> box_crossings(x, y, z).len() == 0,
        box_crossings(x, y, z).len() == 0 || (box_crossings(x, y, z).len() == 2 && box_crossings(x, y, z)[0]
            <= box_crossings(x, y, z)[1]),
{
}

} // verus!
