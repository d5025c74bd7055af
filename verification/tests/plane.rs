use ray_tracer::intersection::TorUVT;
use ray_tracer::plane::Plane;
use ray_tracer::probe::Probed;
use ray_tracer::scalar::{key_bits, ordered_key};
use ray_tracer::shape::{Object, SimpleObject};
use ray_tracer::tuple::Tuple;

fn key(t: f64) -> i64 {
    ordered_key(t.to_bits())
}

fn number(key: i64) -> f64 {
    f64::from_bits(key_bits(key).unwrap())
}

fn local_intersect(o: [f64; 3], d: [f64; 3]) -> Vec<f64> {
    Plane::local_intersect(key(d[1]), key(-o[1] / d[1])).into_iter().map(number).collect()
}

/// The crossings of a ray with a plane that stands in a tree as a leaf.
fn intersect(o: [f64; 3], d: [f64; 3]) -> (SimpleObject, Vec<ray_tracer::intersection::Intersection>) {
    let plane = Object::plane();
    let ts = Plane::local_intersect(key(d[1]), key(-o[1] / d[1]));
    let probed = Probed::Leaf(ts.into_iter().map(|t| TorUVT::JustT { t }).collect());
    (SimpleObject::from_object(&plane).unwrap(), plane.intersect(&probed))
}

fn point(x: f64, y: f64, z: f64) -> Tuple {
    Tuple::point(key(x), key(y), key(z))
}

#[test]
fn the_normal_of_a_plane_is_constant_everywhere() {
    let n1 = Plane::local_normal_at(point(0., 0., 0.));
    let n2 = Plane::local_normal_at(point(10., 0., -10.));
    let n3 = Plane::local_normal_at(point(-5., 0., 150.));

    assert_eq!(n1, Tuple::vector(key(0.), key(1.), key(0.)));
    assert_eq!(n2, Tuple::vector(key(0.), key(1.), key(0.)));
    assert_eq!(n3, Tuple::vector(key(0.), key(1.), key(0.)));
}

#[test]
fn intersect_with_a_ray_parallel_to_the_plane() {
    let xs = local_intersect([0., 10., 0.], [0., 0., 1.]);

    assert!(xs.is_empty());
}

#[test]
fn intersect_with_a_coplanar_ray() {
    let xs = local_intersect([0., 0., 0.], [0., 0., 1.]);

    assert!(xs.is_empty());
}

#[test]
fn a_ray_intersecting_a_plane_from_above() {
    let (p, xs) = intersect([0., 1., 0.], [0., -1., 0.]);

    assert_eq!(xs.len(), 1);
    assert_eq!(number(xs[0].t), 1.);
    assert_eq!(xs[0].object, p);
}

#[test]
fn a_ray_intersecting_a_plane_from_below() {
    let (p, xs) = intersect([0., -1., 0.], [0., 1., 0.]);

    assert_eq!(xs.len(), 1);
    assert_eq!(number(xs[0].t), 1.);
    assert_eq!(xs[0].object, p);
}

#[test]
fn a_ray_that_hardly_rises_is_parallel_to_the_plane() {
    assert!(local_intersect([0., 1., 0.], [1., 9e-9, 0.]).is_empty());
    assert!(local_intersect([0., 1., 0.], [1., -9e-9, 0.]).is_empty());
    assert_eq!(local_intersect([0., 1., 0.], [1., -1e-8, 0.]), vec![1e8]);
    assert_eq!(local_intersect([0., -3., 0.], [0., 0.5, 1.]), vec![6.]);
}
