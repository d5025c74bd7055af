use ray_tracer::scalar::{key_bits, ordered_key};
use ray_tracer::sphere::Sphere;

fn key(t: f64) -> i64 {
    ordered_key(t.to_bits())
}

fn number(key: i64) -> f64 {
    f64::from_bits(key_bits(key).unwrap())
}

fn approx_equal(a: f64, b: f64) -> bool {
    (a - b).abs() < 1e-5
}

fn dot(a: [f64; 3], b: [f64; 3]) -> f64 {
    a[0] * b[0] + a[1] * b[1] + a[2] * b[2]
}

fn local_intersect(o: [f64; 3], d: [f64; 3]) -> Vec<f64> {
    let a = dot(d, d);
    let b = 2. * dot(d, o);
    let c = dot(o, o) - 1.;
    let discriminant = b.powi(2) - 4. * a * c;
    let t1 = (-b - discriminant.sqrt()) / (2. * a);
    let t2 = (-b + discriminant.sqrt()) / (2. * a);

    Sphere::local_intersect(key(discriminant), key(t1), key(t2)).into_iter().map(number).collect()
}

#[test]
fn a_ray_intersects_a_sphere_at_two_points() {
    let xs = local_intersect([0., 0., -5.], [0., 0., 1.]);

    assert_eq!(xs.len(), 2);
    assert!(approx_equal(xs[0], 4.));
    assert!(approx_equal(xs[1], 6.));
}

#[test]
fn a_ray_intersects_a_sphere_at_a_tangent() {
    let xs = local_intersect([0., 1., -5.], [0., 0., 1.]);

    assert_eq!(xs.len(), 2);
    assert!(approx_equal(xs[0], 5.));
    assert!(approx_equal(xs[1], 5.));
}

#[test]
fn a_ray_misses_a_sphere() {
    let xs = local_intersect([0., 2., -5.], [0., 0., 1.]);

    assert_eq!(xs.len(), 0);
}

#[test]
fn a_ray_originates_inside_a_sphere() {
    let xs = local_intersect([0., 0., 0.], [0., 0., 1.]);

    assert_eq!(xs.len(), 2);
    assert!(approx_equal(xs[0], -1.0));
    assert!(approx_equal(xs[1], 1.0));
}

#[test]
fn a_sphere_is_behind_a_ray() {
    let xs = local_intersect([0., 0., 5.], [0., 0., 1.]);

    assert_eq!(xs.len(), 2);
    assert!(approx_equal(xs[0], -6.0));
    assert!(approx_equal(xs[1], -4.0));
}

#[test]
fn a_discriminant_of_zero_gives_the_root_twice() {
    assert_eq!(Sphere::local_intersect(key(0.), key(5.), key(5.)), vec![key(5.), key(5.)]);
    assert_eq!(Sphere::local_intersect(key(-0.), key(5.), key(5.)), vec![key(5.), key(5.)]);
    assert_eq!(Sphere::local_intersect(key(-1e-300), key(5.), key(5.)), vec![]);
}
