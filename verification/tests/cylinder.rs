use ray_tracer::cylinder::{Cap, Cylinder, Probe, Root};
use ray_tracer::scalar::{key_bits, ordered_key, INFINITY, NEG_INFINITY};
use ray_tracer::tuple::Tuple;

const EPSILON: f64 = 1e-8;

fn key(t: f64) -> i64 {
    ordered_key(t.to_bits())
}

fn number(key: i64) -> f64 {
    f64::from_bits(key_bits(key).unwrap())
}

fn approx_equal(a: f64, b: f64) -> bool {
    (a - b).abs() < 1e-5
}

fn normalize(v: [f64; 3]) -> [f64; 3] {
    let m = (v[0] * v[0] + v[1] * v[1] + v[2] * v[2]).sqrt();
    [v[0] / m, v[1] / m, v[2] / m]
}

fn cylinder(minimum: f64, maximum: f64, closed: bool) -> Cylinder {
    Cylinder { minimum: key(minimum), maximum: key(maximum), closed }
}

/// What the ray from `o` along `d` gives for the test against `cyl`.
fn probe(cyl: &Cylinder, o: [f64; 3], d: [f64; 3]) -> Probe {
    let a = d[0].powi(2) + d[2].powi(2);
    let b = 2. * o[0] * d[0] + 2. * o[2] * d[2];
    let c = o[0].powi(2) + o[2].powi(2) - 1.;
    let disc = b.powi(2) - 4. * a * c;
    let root = |t: f64| Root { t: key(t), y: key(o[1] + t * d[1]) };
    let cap = |bound: i64| {
        let t = (number(bound) - o[1]) / d[1];
        let x = o[0] + t * d[0];
        let z = o[2] + t * d[2];
        Cap { t: key(t), radius: key(x.powi(2) + z.powi(2)) }
    };
    Probe {
        a: key(a),
        disc: key(disc),
        first: root((-b - disc.sqrt()) / (2. * a)),
        second: root((-b + disc.sqrt()) / (2. * a)),
        direction_y: key(d[1]),
        lower: cap(cyl.minimum),
        upper: cap(cyl.maximum),
    }
}

fn local_intersect(cyl: &Cylinder, o: [f64; 3], d: [f64; 3]) -> Vec<f64> {
    cyl.local_intersect(&probe(cyl, o, d)).into_iter().map(number).collect()
}

fn local_normal_at(cyl: &Cylinder, p: [f64; 3]) -> Tuple {
    let dist = p[0].powi(2) + p[2].powi(2);
    Cylinder::local_normal_at(
        Tuple::point(key(p[0]), key(p[1]), key(p[2])),
        key(dist),
        key(number(cyl.maximum) - EPSILON),
        key(number(cyl.minimum) + EPSILON),
    )
}

fn vector(x: f64, y: f64, z: f64) -> Tuple {
    Tuple::vector(key(x), key(y), key(z))
}

#[test]
fn a_ray_misses_a_cylinder() {
    let examples = vec![
        ([1., 0., 0.], [0., 1., 0.]),
        ([0., 0., 0.], [0., 1., 0.]),
        ([0., 0., -5.], [1., 1., 1.]),
    ];
    let cyl = Cylinder::new();

    for (origin, direction) in examples {
        let direction = normalize(direction);
        let xs = local_intersect(&cyl, origin, direction);

        assert!(xs.is_empty());
    }
}

#[test]
fn a_ray_strikes_a_cylinder() {
    let examples = vec![
        ([1., 0., -5.], [0., 0., 1.], 5., 5.),
        ([0., 0., -5.], [0., 0., 1.], 4., 6.),
        ([0.5, 0., -5.], [0.1, 1., 1.], 6.80798, 7.08872),
    ];

    let cyl = Cylinder::new();
    for (origin, direction, t0, t1) in examples {
        let direction = normalize(direction);
        let xs = local_intersect(&cyl, origin, direction);

        assert_eq!(xs.len(), 2);
        assert!(approx_equal(xs[0], t0));
        assert!(approx_equal(xs[1], t1));
    }
}

#[test]
fn cylinder_the_normal_on_the_surface_of_a_cube() {
    let examples = vec![
        ([1., 0., 0.], vector(1., 0., 0.)),
        ([0., 5., -1.], vector(0., 0., -1.)),
        ([0., -2., 1.], vector(0., 0., 1.)),
        ([-1., 1., 0.], vector(-1., 0., 0.)),
    ];

    let cyl = Cylinder::new();
    for (point, expected_normal) in examples {
        let normal = local_normal_at(&cyl, point);

        assert_eq!(normal, expected_normal);
    }
}

#[test]
fn the_default_minimum_and_maximum_for_a_cylinder() {
    let cyl = Cylinder::new();

    assert_eq!(cyl.minimum, NEG_INFINITY);
    assert_eq!(cyl.maximum, INFINITY);
    assert_eq!(number(cyl.minimum), f64::NEG_INFINITY);
    assert_eq!(number(cyl.maximum), f64::INFINITY);
}

#[test]
fn intersecting_a_constrained_cylinder() {
    let examples = vec![
        ([0., 1.5, 0.], [0.1, 1., 0.], 0),
        ([0., 3., -5.], [0., 0., 1.], 0),
        ([0., 0., -5.], [0., 0., 1.], 0),
        ([0., 2., -5.], [0., 0., 1.], 0),
        ([0., 1., -5.], [0., 0., 1.], 0),
        ([0., 1.5, -2.], [0., 0., 1.], 2),
    ];

    let cyl = cylinder(1., 2., false);
    for (point, direction, count) in examples {
        let direction = normalize(direction);
        let xs = local_intersect(&cyl, point, direction);

        assert_eq!(xs.len(), count)
    }
}

#[test]
fn the_default_closed_value_for_a_cylinder() {
    let cyl = Cylinder::new();

    assert!(!cyl.closed);
}

#[test]
fn intersecting_the_caps_of_a_closed_cylinder() {
    let cyl = cylinder(1., 2., true);

    let examples = vec![
        ([0., 3., 0.], [0., -1., 0.], 2),
        ([0., 3., -2.], [0., -1., 2.], 2),
        ([0., 4., -2.], [0., -1., 1.], 2),
        ([0., 0., -2.], [0., 1., 2.], 2),
        ([0., -1., -2.], [0., 1., 1.], 2),
    ];

    for (point, direction, count) in examples {
        let direction = normalize(direction);
        let xs = local_intersect(&cyl, point, direction);

        assert_eq!(xs.len(), count);
    }
}

#[test]
fn the_normal_vector_on_a_cylinders_end_caps() {
    let cyl = cylinder(1., 2., true);

    let examples = vec![
        ([0., 1., 0.], vector(0., -1., 0.)),
        ([0.5, 1., 0.], vector(0., -1., 0.)),
        ([0., 1., 0.5], vector(0., -1., 0.)),
        ([0., 2., 0.], vector(0., 1., 0.)),
        ([0.5, 2., 0.], vector(0., 1., 0.)),
        ([0., 2., 0.5], vector(0., 1., 0.)),
    ];

    for (point, normal) in examples {
        let n = local_normal_at(&cyl, point);

        assert_eq!(n, normal)
    }
}

#[test]
fn a_crossing_at_the_height_of_a_bound_is_not_on_the_wall() {
    let cyl = cylinder(1., 2., false);

    assert!(!cyl.within(key(1.)));
    assert!(!cyl.within(key(2.)));
    assert!(cyl.within(key(1.0000001)));
    assert!(cyl.within(key(1.5)));
    assert!(!cyl.within(key(0.)));
    assert!(!cyl.within(key(f64::NAN)));
    assert!(Cylinder::new().within(key(1e300)));
    assert!(!Cylinder::new().within(key(f64::INFINITY)));
}

#[test]
fn the_crossings_come_wall_first_then_lower_cap_then_upper_cap() {
    let cyl = cylinder(1., 2., true);
    let probe = Probe {
        a: key(1.),
        disc: key(4.),
        first: Root { t: key(7.), y: key(1.5) },
        second: Root { t: key(3.), y: key(1.25) },
        direction_y: key(0.5),
        lower: Cap { t: key(9.), radius: key(1.) },
        upper: Cap { t: key(2.), radius: key(0.25) },
    };

    assert_eq!(cyl.local_intersect(&probe), vec![key(7.), key(3.), key(9.), key(2.)]);
    assert_eq!(cyl.intersect_caps(&probe), vec![key(9.), key(2.)]);
    let beside = Probe { lower: Cap { t: key(9.), radius: key(1.0000001) }, ..probe };
    assert_eq!(cyl.local_intersect(&beside), vec![key(7.), key(3.), key(2.)]);
    let along = Probe { a: key(0.), ..probe };
    assert_eq!(cyl.local_intersect(&along), vec![key(9.), key(2.)]);
    let past = Probe { disc: key(-0.5), ..probe };
    assert_eq!(cyl.local_intersect(&past), vec![]);
    let level = Probe { direction_y: key(1e-9), ..probe };
    assert_eq!(cyl.local_intersect(&level), vec![key(7.), key(3.)]);
    let open = cylinder(1., 2., false);
    assert_eq!(open.local_intersect(&probe), vec![key(7.), key(3.)]);
}
