use ray_tracer::intersection::UVT;
use ray_tracer::scalar::{key_bits, ordered_key};
use ray_tracer::shape::{Object, Shape, SimpleObject};
use ray_tracer::triangle::{Triangle, TriangleKind, TriangleProbe};
use ray_tracer::tuple::Tuple;

type V = [f64; 3];

fn key(t: f64) -> i64 {
    ordered_key(t.to_bits())
}

fn number(key: i64) -> f64 {
    f64::from_bits(key_bits(key).unwrap())
}

fn approx_equal(a: f64, b: f64) -> bool {
    (a - b).abs() < 1e-5
}

fn point(p: V) -> Tuple {
    Tuple::point(key(p[0]), key(p[1]), key(p[2]))
}

fn vector(p: V) -> Tuple {
    Tuple::vector(key(p[0]), key(p[1]), key(p[2]))
}

fn coordinates(t: Tuple) -> V {
    [number(t.x), number(t.y), number(t.z)]
}

fn sub(a: V, b: V) -> V {
    [a[0] - b[0], a[1] - b[1], a[2] - b[2]]
}

fn dot(a: V, b: V) -> f64 {
    a[0] * b[0] + a[1] * b[1] + a[2] * b[2]
}

fn cross(a: V, b: V) -> V {
    [a[1] * b[2] - a[2] * b[1], a[2] * b[0] - a[0] * b[2], a[0] * b[1] - a[1] * b[0]]
}

fn test_tri() -> Triangle {
    Triangle::new(point([0., 1., 0.]), point([-1., 0., 0.]), point([1., 0., 0.]))
}

/// What the ray from `o` along `d` gives for the test against `tri`.
fn probe(tri: &Triangle, o: V, d: V) -> TriangleProbe {
    let p1 = coordinates(tri.p1);
    let edge1 = sub(coordinates(tri.p2), p1);
    let edge2 = sub(coordinates(tri.p3), p1);
    let dir_cross_edge2 = cross(d, edge2);
    let det = dot(edge1, dir_cross_edge2);
    let f = 1.0 / det;
    let p1_to_origin = sub(o, p1);
    let u = f * dot(p1_to_origin, dir_cross_edge2);
    let origin_cross_e1 = cross(p1_to_origin, edge1);
    let v = f * dot(d, origin_cross_e1);
    let t = f * dot(edge2, origin_cross_e1);

    TriangleProbe { det: key(det), u: key(u), v: key(v), sum: key(u + v), t: key(t) }
}

fn local_intersect(tri: &Triangle, o: V, d: V) -> Vec<UVT> {
    Triangle::local_intersect(&probe(tri, o, d))
}

#[test]
fn triangle_constructing_a_triangle() {
    let p1 = point([0., 1., 0.]);
    let p2 = point([-1., 0., 0.]);
    let p3 = point([1., 0., 0.]);
    let t = Triangle::new(p1, p2, p3);

    assert_eq!(t.p1, p1);
    assert_eq!(t.p2, p2);
    assert_eq!(t.p3, p3);
    assert_eq!(t.kind, TriangleKind::Flat);
    let edge1 = sub(coordinates(t.p2), coordinates(t.p1));
    let edge2 = sub(coordinates(t.p3), coordinates(t.p1));
    let normal = cross(edge2, edge1);
    let length = dot(normal, normal).sqrt();
    assert_eq!(edge1, [-1., -1., 0.]);
    assert_eq!(edge2, [1., -1., 0.]);
    assert_eq!([normal[0] / length, normal[1] / length, normal[2] / length], [0., 0., -1.]);
}

#[test]
fn a_smooth_triangle_keeps_the_normals_of_its_corners() {
    let n1 = vector([0., 1., 0.]);
    let n2 = vector([-1., 0., 0.]);
    let n3 = vector([1., 0., 0.]);
    let t = Triangle::smooth(point([0., 1., 0.]), point([-1., 0., 0.]), point([1., 0., 0.]), n1, n2, n3);

    assert_eq!(t.p2, point([-1., 0., 0.]));
    assert_eq!(t.kind, TriangleKind::Smooth { n1, n2, n3 });
    let leaf = SimpleObject::from_object(&Object::new(Shape::Triangle(t))).unwrap();
    assert_eq!(leaf.shape, Shape::Triangle(t));
}

#[test]
fn triangle_intersecting_a_ray_parallel_to_the_triangle() {
    let xs = local_intersect(&test_tri(), [0., -1., -2.], [0., 1., 0.]);

    assert!(xs.is_empty());
}

#[test]
fn triangle_a_ray_misses_the_p1p3_edge() {
    let xs = local_intersect(&test_tri(), [1., 1., -2.], [0., 0., 1.]);

    assert!(xs.is_empty());
}

#[test]
fn triangle_a_ray_misses_the_p1p2_edge() {
    let xs = local_intersect(&test_tri(), [-1., 1., -2.], [0., 0., 1.]);

    assert!(xs.is_empty());
}

#[test]
fn triangle_a_ray_misses_the_p2p3_edge() {
    let xs = local_intersect(&test_tri(), [0., -1., -2.], [0., 0., 1.]);

    assert!(xs.is_empty());
}

#[test]
fn triangle_a_ray_strikes_a_triangle() {
    let xs = local_intersect(&test_tri(), [0., 0.5, -2.], [0., 0., 1.]);

    assert_eq!(xs.len(), 1);
    assert!(approx_equal(number(xs[0].t), 2.));
    assert!(approx_equal(number(xs[0].u), 0.25));
    assert!(approx_equal(number(xs[0].v), 0.25));
}

#[test]
fn the_edges_and_the_corners_belong_to_a_triangle() {
    let hit = TriangleProbe { det: key(2.), u: key(0.25), v: key(0.5), sum: key(0.75), t: key(3.) };
    let uvt = UVT { t: key(3.), u: key(0.25), v: key(0.5) };

    assert_eq!(Triangle::local_intersect(&hit), vec![uvt]);
    let corner = TriangleProbe { u: key(0.), v: key(1.), sum: key(1.), ..hit };
    assert_eq!(Triangle::local_intersect(&corner).len(), 1);
    let origin = TriangleProbe { u: key(0.), v: key(0.), sum: key(0.), ..hit };
    assert_eq!(Triangle::local_intersect(&origin).len(), 1);
    for miss in [
        TriangleProbe { det: key(9e-9), ..hit },
        TriangleProbe { det: key(-9e-9), ..hit },
        TriangleProbe { u: key(-1e-9), ..hit },
        TriangleProbe { u: key(1.000001), ..hit },
        TriangleProbe { v: key(-1e-9), ..hit },
        TriangleProbe { sum: key(1.000001), ..hit },
    ] {
        assert_eq!(Triangle::local_intersect(&miss), vec![]);
    }
    let behind = TriangleProbe { det: key(-2.), t: key(-3.), ..hit };
    assert_eq!(Triangle::local_intersect(&behind), vec![UVT { t: key(-3.), ..uvt }]);
}
