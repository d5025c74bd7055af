use ray_tracer::intersection::{Intersection, TorUVT};
use ray_tracer::scalar::ordered_key;
use ray_tracer::color::Color;
use ray_tracer::light::Light;
use ray_tracer::material::Material;
use ray_tracer::shape::{Object, Shape, SimpleObject};
use ray_tracer::tuple::Tuple;
use ray_tracer::world::{
    is_shadowed, reflected_color, refracted_color, shade_hit, Blend, ShadingPlan, Surface, World,
    DEFAULT_ALLOWED_DEPTH,
};

fn key(t: f64) -> i64 {
    ordered_key(t.to_bits())
}

fn just(t: f64, object: SimpleObject) -> Intersection {
    Intersection::new(&TorUVT::JustT { t: key(t) }, object)
}

fn surface(reflective: f64, transparency: f64, sin2_t: f64) -> Surface {
    Surface { reflective: key(reflective), transparency: key(transparency), sin2_t: key(sin2_t) }
}

fn lamp(x: f64) -> Light {
    Light::point_light(Tuple::point(key(x), key(10.), key(-10.)), Color::white())
}

fn matte() -> Surface {
    surface(0., 0., 0.)
}

fn mirror() -> Surface {
    surface(0.5, 0., 0.)
}

fn glass() -> Surface {
    surface(0., 1., 0.25)
}

#[test]
fn creating_a_world() {
    let w = World::new();

    assert!(w.objects.is_empty());
    assert!(w.lights.is_empty());
}

#[test]
fn the_default_world() {
    let light = lamp(-10.);
    let mut material = Material::new();
    material.color = Color::new(key(0.8), key(1.0), key(0.6));
    material.diffuse = key(0.7);
    material.specular = key(0.2);
    let s1 = SimpleObject { material, transform: 0, shape: Shape::Sphere };
    let s2 = SimpleObject { material: Material::new(), transform: 1, shape: Shape::Sphere };

    let mut w = World::new();
    w.add_object(s1);
    w.add_object(s2);
    w.add_light(light);

    assert_eq!(w.lights, vec![light]);
    assert_eq!(w.objects.len(), 2);
    assert!(SimpleObject::from_object(&w.objects[0]).unwrap() == s1);
    assert!(SimpleObject::from_object(&w.objects[1]).unwrap() == s2);
}

#[test]
fn adding_a_tree_keeps_what_is_there() {
    let mut w = World::new();
    w.add_group(Object::group(vec![Object::sphere(), Object::cube()]));
    w.add_light(lamp(4.));
    w.add_group(Object::plane());
    w.add_light(lamp(2.));

    assert_eq!(w.lights, vec![lamp(4.), lamp(2.)]);
    assert_eq!(w.objects.len(), 2);
    assert_eq!(SimpleObject::from_object(&w.objects[0]), None);
    assert_eq!(
        SimpleObject::from_object(&w.objects[1]),
        SimpleObject::from_object(&Object::plane())
    );
}

#[test]
fn intersect_a_world_with_a_ray() {
    let s1 = SimpleObject { material: Material::new(), transform: 0, shape: Shape::Sphere };
    let s2 = SimpleObject { material: Material::new(), transform: 1, shape: Shape::Sphere };
    let per_object = vec![vec![just(4., s1), just(6., s1)], vec![just(4.5, s2), just(5.5, s2)]];
    let xs = World::intersect(&per_object);

    assert_eq!(xs.len(), 4);
    assert_eq!(xs[0].t, key(4.));
    assert_eq!(xs[1].t, key(4.5));
    assert_eq!(xs[2].t, key(5.5));
    assert_eq!(xs[3].t, key(6.));
    assert_eq!(xs[1].object, s2);
    assert_eq!(xs[3].object, s1);
}

#[test]
fn intersecting_a_world_without_objects_or_hits() {
    assert_eq!(World::intersect(&vec![]), vec![]);
    assert_eq!(World::intersect(&vec![vec![], vec![]]), vec![]);
}

#[test]
fn there_is_no_shadow_when_nothing_is_collinear_with_point_and_light() {
    assert!(!is_shadowed(&vec![], key(17.3205)));
}

#[test]
fn the_shadow_when_an_object_is_between_the_point_and_the_light() {
    let s = SimpleObject::from_object(&Object::sphere()).unwrap();
    let xs = vec![just(16.3205, s), just(18.3205, s)];

    assert!(is_shadowed(&xs, key(34.641)));
}

#[test]
fn there_is_no_shadow_when_an_object_is_behind_the_light() {
    let s = SimpleObject::from_object(&Object::sphere()).unwrap();
    let xs = vec![just(33.641, s), just(35.641, s)];

    assert!(!is_shadowed(&xs, key(17.3205)));
}

#[test]
fn there_is_no_shadow_when_an_object_is_behind_the_point() {
    let s = SimpleObject::from_object(&Object::sphere()).unwrap();
    let xs = vec![just(-4.4641, s), just(-2.4641, s)];

    assert!(!is_shadowed(&xs, key(13.8564)));
}

#[test]
fn a_hit_at_the_distance_of_the_light_casts_no_shadow() {
    let s = SimpleObject::from_object(&Object::sphere()).unwrap();

    assert!(!is_shadowed(&vec![just(5., s)], key(5.)));
    assert!(is_shadowed(&vec![just(5., s)], key(5.000001)));
    assert!(is_shadowed(&vec![just(7., s), just(-1., s), just(4.5, s)], key(5.)));
}

#[test]
fn no_reflected_ray_for_a_nonreflective_material() {
    assert_eq!(reflected_color(matte(), 5), None);
    assert_eq!(reflected_color(glass(), 5), None);
}

#[test]
fn a_reflected_ray_for_a_reflective_material() {
    assert_eq!(reflected_color(mirror(), 5), Some(4));
}

#[test]
fn the_plan_for_a_reflective_material() {
    assert_eq!(
        shade_hit(mirror(), 5),
        ShadingPlan { reflection: Some(4), refraction: None, blend: Blend::Sum }
    );
}

#[test]
fn rays_between_mutually_reflective_surfaces_end_with_the_budget() {
    let mut depth = DEFAULT_ALLOWED_DEPTH;
    let mut rays = 1;
    while let Some(next) = shade_hit(mirror(), depth).reflection {
        assert_eq!(next, depth - 1);
        depth = next;
        rays += 1;
    }

    assert_eq!(depth, 0);
    assert_eq!(rays, 9);
}

#[test]
fn no_reflected_ray_at_the_maximum_recursive_depth() {
    assert_eq!(reflected_color(mirror(), 0), None);
}

#[test]
fn no_refracted_ray_with_an_opaque_surface() {
    assert_eq!(refracted_color(matte(), 5), None);
    assert_eq!(refracted_color(mirror(), 5), None);
}

#[test]
fn no_refracted_ray_at_the_maximum_recursive_depth() {
    assert_eq!(refracted_color(glass(), 0), None);
}

#[test]
fn no_refracted_ray_under_total_internal_reflection() {
    // a ray inside glass of the index 1.5 that meets the surface at 45 degrees
    let sin2_t = (1.5_f64).powi(2) * (1. - 0.5);
    let surface = surface(0., 1., sin2_t);

    assert!(sin2_t > 1.);
    assert_eq!(refracted_color(surface, 5), None);
    assert_eq!(refracted_color(Surface { sin2_t: key(1.), ..surface }, 5), Some(4));
}

#[test]
fn a_refracted_ray_for_a_transparent_material() {
    assert_eq!(refracted_color(glass(), 5), Some(4));
}

#[test]
fn the_plan_for_a_transparent_material() {
    assert_eq!(
        shade_hit(glass(), 5),
        ShadingPlan { reflection: None, refraction: Some(4), blend: Blend::Sum }
    );
}

#[test]
fn the_plan_for_a_reflective_transparent_material() {
    let surface = surface(0.5, 0.5, 0.25);

    assert_eq!(
        shade_hit(surface, 5),
        ShadingPlan { reflection: Some(4), refraction: Some(4), blend: Blend::Fresnel }
    );
}

#[test]
fn an_exhausted_budget_casts_no_ray_whatever_the_material() {
    for reflective in [0., 0.3, 1.] {
        for transparency in [0., 0.3, 1.] {
            for sin2_t in [0., 0.9, 1.1] {
                let surface = surface(reflective, transparency, sin2_t);
                for depth in [0, -1, i32::MIN] {
                    let plan = shade_hit(surface, depth);
                    assert_eq!(plan.reflection, None);
                    assert_eq!(plan.refraction, None);
                }
            }
        }
    }
}

#[test]
fn total_internal_reflection_still_blends_by_reflectance() {
    let surface = surface(1., 1., 1.125);

    assert_eq!(
        shade_hit(surface, 1),
        ShadingPlan { reflection: Some(0), refraction: None, blend: Blend::Fresnel }
    );
    assert_eq!(shade_hit(surface, i32::MAX).reflection, Some(i32::MAX - 1));
}

#[test]
fn the_surface_of_a_material() {
    let mut material = Material::new();
    material.reflective = key(0.5);
    material.transparency = key(0.25);

    assert_eq!(Surface::new(&material, key(0.75)), surface(0.5, 0.25, 0.75));
    assert_eq!(shade_hit(Surface::new(&Material::new(), key(0.)), 5), shade_hit(matte(), 5));
}
