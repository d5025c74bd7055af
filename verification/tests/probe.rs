use ray_tracer::intersection::{Intersection, TorUVT, UV, UVT};
use ray_tracer::probe::{restamp, Probed, Stamp};
use ray_tracer::scalar::ordered_key;
use ray_tracer::shape::{Object, Shape, SimpleObject};
use ray_tracer::triangle::Triangle;
use ray_tracer::tuple::Tuple;

fn key(t: f64) -> i64 {
    ordered_key(t.to_bits())
}

fn just(ts: &[f64]) -> Probed {
    Probed::Leaf(ts.iter().map(|t| TorUVT::JustT { t: key(*t) }).collect())
}

fn on(t: f64, object: SimpleObject) -> Intersection {
    Intersection::new(&TorUVT::JustT { t: key(t) }, object)
}

fn leaf(transform: u64, shape: Shape) -> (Object, SimpleObject) {
    let mut object = Object::new(shape);
    object.transform = transform;
    let leaf = SimpleObject::from_object(&object).unwrap();
    (object, leaf)
}

#[test]
fn a_ray_that_misses_the_box_of_a_tree_crosses_nothing() {
    let tree = Object::group(vec![Object::sphere(), Object::union(Object::cube(), Object::plane())]);

    assert_eq!(tree.intersect(&Probed::Missed), vec![]);
    assert_eq!(Object::sphere().intersect(&Probed::Missed), vec![]);
}

#[test]
fn the_crossings_of_a_leaf_lie_on_the_leaf() {
    let (sphere, s) = leaf(3, Shape::Sphere);

    assert_eq!(sphere.intersect(&just(&[4., 6.])), vec![on(4., s), on(6., s)]);
    assert_eq!(sphere.intersect(&just(&[])), vec![]);
}

#[test]
fn a_crossing_with_a_triangle_keeps_its_weights() {
    let corner = |x: f64| Tuple::point(key(x), key(1.), key(0.));
    let (object, t) = leaf(0, Shape::Triangle(Triangle::new(corner(0.), corner(1.), corner(2.))));
    let uvt = UVT { t: key(2.), u: key(0.45), v: key(0.25) };
    let xs = object.intersect(&Probed::Leaf(vec![TorUVT::UVT { uvt }]));

    assert_eq!(xs, vec![Intersection { t: key(2.), uv: Some(UV { u: key(0.45), v: key(0.25) }), object: t }]);
}

#[test]
fn intersecting_a_ray_with_a_nonempty_group() {
    // three spheres, the second moved back by three and the third aside by
    // five, which the ray misses
    let (s1, leaf1) = leaf(0, Shape::Sphere);
    let (s2, leaf2) = leaf(1, Shape::Sphere);
    let (s3, _) = leaf(2, Shape::Sphere);
    let group = Object::group(vec![s1, s2, s3]);
    let probed = Probed::Group {
        children: vec![just(&[4., 6.]), just(&[1., 3.]), Probed::Missed],
        stamps: vec![],
    };
    let xs = ray_tracer::intersection::sort_by_distance(&group.intersect(&probed));

    assert_eq!(xs.len(), 4);
    assert_eq!(xs[0].object, leaf2);
    assert_eq!(xs[1].object, leaf2);
    assert_eq!(xs[2].object, leaf1);
    assert_eq!(xs[3].object, leaf1);
}

#[test]
fn a_group_hands_up_the_crossings_of_its_children_in_their_order_and_stamps_them() {
    let (s1, leaf1) = leaf(1, Shape::Sphere);
    let (s2, leaf2) = leaf(2, Shape::Cube);
    let mut group = Object::group(vec![s1, s2]);
    group.transform = 7;
    let probed = Probed::Group {
        children: vec![just(&[4., 6.]), just(&[1., 3.])],
        stamps: vec![Stamp { from: 1, to: 11 }, Stamp { from: 2, to: 12 }, Stamp { from: 1, to: 99 }],
    };
    let far = SimpleObject { transform: 11, ..leaf1 };
    let near = SimpleObject { transform: 12, ..leaf2 };

    assert_eq!(group.intersect(&probed), vec![on(4., far), on(6., far), on(1., near), on(3., near)]);
}

#[test]
fn a_ray_hits_a_csg_object_in_a_tree() {
    let (s1, leaf1) = leaf(0, Shape::Sphere);
    let (s2, leaf2) = leaf(1, Shape::Sphere);
    let c = Object::union(s1, s2);
    let probed = Probed::Csg {
        left: Box::new(just(&[4., 6.])),
        right: Box::new(just(&[4.5, 6.5])),
        stamps: vec![Stamp { from: 0, to: 0 }, Stamp { from: 1, to: 1 }],
    };
    let xs = c.intersect(&probed);

    assert_eq!(xs.len(), 2);
    assert_eq!(xs[0], on(4., leaf1));
    assert_eq!(xs[1], on(6.5, leaf2));
}

#[test]
fn a_combination_filters_before_it_stamps() {
    let (s1, leaf1) = leaf(1, Shape::Sphere);
    let (s2, leaf2) = leaf(2, Shape::Sphere);
    let mut c = Object::difference(s1, s2);
    c.transform = 5;
    let probed = Probed::Csg {
        left: Box::new(just(&[6., 4.])),
        right: Box::new(just(&[4.5, 6.5])),
        stamps: vec![Stamp { from: 1, to: 2 }, Stamp { from: 2, to: 1 }],
    };
    let xs = c.intersect(&probed);

    assert_eq!(xs, vec![on(4., SimpleObject { transform: 2, ..leaf1 }), on(4.5, SimpleObject { transform: 1, ..leaf2 })]);
}

#[test]
fn a_group_inside_an_operand_counts_for_it_where_its_stamp_changes_nothing() {
    let (s1, leaf1) = leaf(1, Shape::Sphere);
    let (s2, leaf2) = leaf(2, Shape::Cube);
    let c = Object::intersection(Object::group(vec![s1]), s2);
    let inner = |to: u64| Probed::Group { children: vec![just(&[1., 3.])], stamps: vec![Stamp { from: 1, to }] };
    let probed = |to: u64| Probed::Csg {
        left: Box::new(inner(to)),
        right: Box::new(just(&[2., 4.])),
        stamps: vec![],
    };

    assert_eq!(c.intersect(&probed(1)), vec![on(2., leaf2), on(3., leaf1)]);
    // with another key the crossings of the group count for the right
    // operand, so the ray is never inside the left one
    assert_eq!(c.intersect(&probed(8)), vec![]);
}

#[test]
fn what_does_not_fit_the_tree_gives_nothing() {
    let group = Object::group(vec![Object::sphere(), Object::cube()]);
    let one = Probed::Group { children: vec![just(&[1.])], stamps: vec![] };

    assert_eq!(group.intersect(&one), vec![]);
    assert_eq!(group.intersect(&just(&[1.])), vec![]);
    assert_eq!(Object::sphere().intersect(&one), vec![]);
    let csg = Probed::Csg { left: Box::new(just(&[1.])), right: Box::new(just(&[2.])), stamps: vec![] };
    assert_eq!(group.intersect(&csg), vec![]);
    assert_eq!(Object::union(Object::sphere(), Object::cube()).intersect(&one), vec![]);
}

#[test]
fn the_first_stamp_for_a_key_counts() {
    let (_, s) = leaf(4, Shape::Plane);
    let xs = vec![on(1., s), on(2., SimpleObject { transform: 5, ..s })];
    let stamps = vec![Stamp { from: 4, to: 6 }, Stamp { from: 6, to: 7 }, Stamp { from: 4, to: 8 }];

    assert_eq!(
        restamp(&xs, &stamps),
        vec![on(1., SimpleObject { transform: 6, ..s }), on(2., SimpleObject { transform: 5, ..s })]
    );
    assert_eq!(restamp(&xs, &vec![]), xs);
}

#[test]
fn intersect_sets_the_object_on_the_intersection() {
    let (sphere, s) = leaf(0, Shape::Sphere);
    let xs = sphere.intersect(&just(&[4., 6.]));

    assert_eq!(xs.len(), 2);
    assert_eq!(xs[0].object, s);
    assert_eq!(xs[1].object, s);
}
