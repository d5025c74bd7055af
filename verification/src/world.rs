use crate::intersection::{is_nearest, sort_by_distance, sorted_by_distance, Intersection};
use crate::light::Light;
use crate::material::Material;
use crate::scalar::{less, lt, ONE, ZERO};
use crate::shape::{Object, SimpleObject};
use vstd::prelude::*;

verus! {

/// The recursion budget of a primary ray.
pub const DEFAULT_ALLOWED_DEPTH: i32 = 8;

/// What the shading recursion needs to know of the surface that was hit, each
/// number kept as its ordered key.
#[derive(Clone, Copy, Debug, PartialEq, Eq, Structural)]
pub struct Surface {
    /// The reflective coefficient of the material.
    pub reflective: i64,
    /// The transparency of the material.
    pub transparency: i64,
    /// The squared sine of the refraction angle. Above one the refracted ray
    /// cannot leave the surface: all light is reflected inside.
    pub sin2_t: i64,
}

impl Surface {
    /// The surface of a material for a ray whose refraction angle has the
    /// squared sine `sin2_t`.
    pub fn new(material: &Material, sin2_t: i64) -> (surface: Self)
        ensures
            surface == (Surface {
                reflective: material.reflective,
                transparency: material.transparency,
                sin2_t,
            }),
    {
        Self { reflective: material.reflective, transparency: material.transparency, sin2_t }
    }

    /// The material reflects.
    pub open spec fn reflects(self) -> bool {
        less(ZERO, self.reflective)
    }

    /// The material lets no light through.
    pub open spec fn opaque(self) -> bool {
        self.transparency == ZERO
    }

    /// All light is reflected inside.
    pub open spec fn total_internal_reflection(self) -> bool {
        less(ONE, self.sin2_t)
    }
}

/// How the reflected and the refracted colour are combined with the surface
/// colour.
#[derive(Clone, Copy, Debug, PartialEq, Eq, Structural)]
pub enum Blend {
    /// Surface, reflected and refracted colour are added.
    Sum,
    /// Reflected and refracted colour are weighted by the Fresnel reflectance
    /// and its complement.
    Fresnel,
}

/// The secondary rays to cast for one hit, each with the budget it is cast
/// with, and the way their colours are combined.
#[derive(Clone, Copy, Debug, PartialEq, Eq, Structural)]
pub struct ShadingPlan {
    pub reflection: Option<i32>,
    pub refraction: Option<i32>,
    pub blend: Blend,
}

/// The budget of the reflected ray, or `None` where the reflected colour is
/// black without a ray being cast.
pub open spec fn reflection_budget(surface: Surface, remaining_depth: i32) -> Option<i32> {
    if remaining_depth > 0 && surface.reflects() {
        Some((remaining_depth - 1) as i32)
    } else {
        None
    }
}

/// The budget of the refracted ray, or `None` where the refracted colour is
/// black without a ray being cast.
pub open spec fn refraction_budget(surface: Surface, remaining_depth: i32) -> Option<i32> {
    if remaining_depth > 0 && !surface.opaque() && !surface.total_internal_reflection() {
        Some((remaining_depth - 1) as i32)
    } else {
        None
    }
}

/// The way the colours of one hit are combined.
pub open spec fn blend_of(surface: Surface) -> Blend {
    if surface.reflects() && less(ZERO, surface.transparency) {
        Blend::Fresnel
    } else {
        Blend::Sum
    }
}

/// The plan for one hit.
pub open spec fn plan_of(surface: Surface, remaining_depth: i32) -> ShadingPlan {
    ShadingPlan {
        reflection: reflection_budget(surface, remaining_depth),
        refraction: refraction_budget(surface, remaining_depth),
        blend: blend_of(surface),
    }
}

/// Decides whether a reflected ray is cast, and with which budget.
pub fn reflected_color(surface: Surface, remaining_depth: i32) -> (budget: Option<i32>)
    ensures
        budget == reflection_budget(surface, remaining_depth),
{
    if remaining_depth <= 0 {
        return None;
    }
    if lt(ZERO, surface.reflective) {
        Some(remaining_depth - 1)
    } else {
        None
    }
}

/// Decides whether a refracted ray is cast, and with which budget.
pub fn refracted_color(surface: Surface, remaining_depth: i32) -> (budget: Option<i32>)
    ensures
        budget == refraction_budget(surface, remaining_depth),
{
    if remaining_depth <= 0 || surface.transparency == ZERO || lt(ONE, surface.sin2_t) {
        None
    } else {
        Some(remaining_depth - 1)
    }
}

/// Plans the shading of one hit: which secondary rays are cast, with which
/// budget, and how their colours are combined with the surface colour.
pub fn shade_hit(surface: Surface, remaining_depth: i32) -> (plan: ShadingPlan)
    ensures
        plan == plan_of(surface, remaining_depth),
{
    let reflection = reflected_color(surface, remaining_depth);
    let refraction = refracted_color(surface, remaining_depth);
    let blend = if lt(ZERO, surface.reflective) && lt(ZERO, surface.transparency) {
        Blend::Fresnel
    } else {
        Blend::Sum
    };
    ShadingPlan { reflection, refraction, blend }
}

/// Decides whether a point lies in the shadow of a light.
///
/// `intersections` holds the crossings along the ray from the point towards
/// the light, `distance` the distance of the light. The point is in
/// shadow exactly when the nearest crossing in front of it is strictly nearer
/// than the light.
pub fn is_shadowed(intersections: &Vec<Intersection>, distance: i64) -> (shadowed: bool)
    ensures
        shadowed <==> exists|i: int| is_nearest(intersections@, i) && less(intersections@[i].t, distance),
{
    match Intersection::hit_index(intersections) {
        Some(i) => {
            proof {
                assert forall|j: int| is_nearest(intersections@, j) implies j == i by {}
            }
            lt(intersections[i].t, distance)
        },
        None => false,
    }
}

/// With an exhausted budget no secondary ray is cast, whatever the material:
/// the colour of the hit is its surface colour alone.
pub proof fn lemma_exhausted_budget_never_recurses(surface: Surface, remaining_depth: i32)
    requires
        remaining_depth <= 0,
    ensures
        plan_of(surface, remaining_depth).reflection.is_none(),
        plan_of(surface, remaining_depth).refraction.is_none(),
{
}

/// Every secondary ray is cast with a budget that is not negative and is one
/// less than the budget of the ray that caused it, so a chain of secondary
/// rays is no longer than the budget of the first.
pub proof fn lemma_budget_decreases(surface: Surface, remaining_depth: i32)
    ensures
        plan_of(surface, remaining_depth).reflection matches Some(d) ==> 0 <= d == remaining_depth - 1,
        plan_of(surface, remaining_depth).refraction matches Some(d) ==> 0 <= d == remaining_depth - 1,
{
}

/// An opaque surface that does not reflect never casts a secondary ray.
pub proof fn lemma_matte_never_recurses(surface: Surface, remaining_depth: i32)
    requires
        !surface.reflects(),
        surface.opaque(),
    ensures
        plan_of(surface, remaining_depth).reflection.is_none(),
        plan_of(surface, remaining_depth).refraction.is_none(),
        plan_of(surface, remaining_depth).blend == Blend::Sum,
{
}

/// The scene: its top-level objects and its lights, both in the order in
/// which they were added.
#[derive(Debug)]
pub struct World {
    pub objects: Vec<Object>,
    pub lights: Vec<Light>,
}

/// The crossings of the first `n` parts, one part after the other.
pub open spec fn concatenated(parts: Seq<Vec<Intersection>>, n: int) -> Seq<Intersection>
    decreases n,
{
    if n <= 0 {
        Seq::empty()
    } else {
        concatenated(parts, n - 1) + parts[n - 1]@
    }
}

impl World {
    /// A scene without objects and without lights.
    pub fn new() -> (world: Self)
        ensures
            world.objects@.len() == 0,
            world.lights@.len() == 0,
    {
        Self { objects: Vec::new(), lights: Vec::new() }
    }

    /// Adds a light behind those that are there.
    pub fn add_light(&mut self, light: Light)
        ensures
            final(self).lights@ == old(self).lights@.push(light),
            final(self).objects == old(self).objects,
    {
        self.lights.push(light)
    }

    /// Adds a tree behind the objects that are there.
    pub fn add_group(&mut self, object: Object)
        ensures
            final(self).objects@ == old(self).objects@.push(object),
            final(self).lights == old(self).lights,
    {
        self.objects.push(object)
    }

    /// Adds a leaf behind the objects that are there.
    pub fn add_object(&mut self, object: SimpleObject)
        ensures
            final(self).objects@.len() == old(self).objects@.len() + 1,
            final(self).objects@.drop_last() == old(self).objects@,
            final(self).objects@.last()@ == object.node(),
            final(self).lights == old(self).lights,
    {
        self.objects.push(Object::from_simple(object));
        assert(self.objects@.drop_last() =~= old(self).objects@);
    }

    /// Gathers the crossings of a ray with every top-level object,
    /// `per_object[i]` being those with object `i`, and sorts them by
    /// ascending distance; crossings at one distance keep the order of their
    /// objects.
    pub fn intersect(per_object: &Vec<Vec<Intersection>>) -> (intersections: Vec<Intersection>)
        ensures
            intersections@ == sorted_by_distance(concatenated(per_object@, per_object@.len() as int)),
    {
        let mut all: Vec<Intersection> = Vec::new();
        let mut i: usize = 0;
        while i < per_object.len()
            invariant
                0 <= i <= per_object@.len(),
                all@ == concatenated(per_object@, i as int),
            decreases per_object@.len() - i,
        {
            let part = &per_object[i];
            let mut j: usize = 0;
            while j < part.len()
                invariant
                    0 <= j <= part@.len(),
                    0 <= i < per_object@.len(),
                    part == &per_object@[i as int],
                    all@ == concatenated(per_object@, i as int) + part@.take(j as int),
                decreases part@.len() - j,
            {
                all.push(part[j]);
                assert(part@.take(j + 1) =~= part@.take(j as int).push(part@[j as int]));
                j = j + 1;
            }
            assert(part@.take(part@.len() as int) =~= part@);
            i = i + 1;
        }
        sort_by_distance(&all)
    }
}

} // verus!
