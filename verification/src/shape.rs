use crate::cone::Cone;
use crate::csg::{Csg, CsgOp};
use crate::cylinder::Cylinder;
use crate::material::Material;
use crate::cube::{box_crossings, local_intersect, Slab};
use crate::scalar::{
    abs, is_nan, magnitude, max, maximum, min, minimum, neg, negated, INFINITY, MINUS_ONE, NEG_INFINITY, ONE,
    ONE_AND_EPSILON, ZERO,
};
use crate::tuple::Tuple;
use crate::triangle::Triangle;
use vstd::prelude::*;

verus! {

/// The key of the identity transform.
pub const IDENTITY: u64 = 0;

/// A primitive in its own frame.
#[derive(Clone, Copy, Debug, PartialEq, Eq, Structural)]
pub enum Shape {
    Sphere,
    Plane,
    Cube,
    Cylinder(Cylinder),
    Cone(Cone),
    Triangle(Triangle),
}

/// A leaf taken out of the tree by value: its material, the key of its
/// transform, and its primitive.
#[derive(Clone, Copy, Debug, PartialEq, Eq, Structural)]
pub struct SimpleObject {
    pub material: Material,
    pub transform: u64,
    pub shape: Shape,
}

/// What a node of the tree holds besides its transform.
#[derive(Debug)]
pub enum ShapeOrGroup {
    Shape { material: Material, shape: Shape },
    Group(Vec<Object>),
    Csg(Csg),
}

/// A node of the scene tree: a transform, given by its key, and a leaf, a
/// group of children or a combination of two subtrees.
#[derive(Debug)]
pub struct Object {
    pub transform: u64,
    pub shape: ShapeOrGroup,
}

/// The tree as a mathematical value.
pub ghost enum Node {
    Leaf { transform: u64, material: Material, shape: Shape },
    Group { transform: u64, children: Seq<Node> },
    Csg { transform: u64, op: CsgOp, left: Box<Node>, right: Box<Node> },
}

impl Node {
    /// The leaves of the tree from left to right, each with the transform of
    /// its own node.
    pub open spec fn leaves(self) -> Seq<SimpleObject>
        decreases self,
    {
        match self {
            Node::Leaf { transform, material, shape } => seq![SimpleObject { material, transform, shape }],
            Node::Group { children, .. } => Self::leaves_of(children),
            Node::Csg { left, right, .. } => left.leaves() + right.leaves(),
        }
    }

    /// The leaves of a sequence of trees.
    pub open spec fn leaves_of(nodes: Seq<Node>) -> Seq<SimpleObject>
        decreases nodes,
    {
        if nodes.len() == 0 {
            Seq::empty()
        } else {
            Self::leaves_of(nodes.drop_last()) + nodes.last().leaves()
        }
    }

    /// The same tree with `material` on every leaf.
    pub open spec fn with_material(self, material: Material) -> Node
        decreases self,
    {
        match self {
            Node::Leaf { transform, shape, .. } => Node::Leaf { transform, material, shape },
            Node::Group { transform, children } => Node::Group {
                transform,
                children: Seq::new(
                    children.len(),
                    |i: int|
                        if 0 <= i < children.len() {
                            children[i].with_material(material)
                        } else {
                            arbitrary()
                        },
                ),
            },
            Node::Csg { transform, op, left, right } => Node::Csg {
                transform,
                op,
                left: Box::new(left.with_material(material)),
                right: Box::new(right.with_material(material)),
            },
        }
    }
}

impl Object {
    /// The tree below this node as a mathematical value.
    pub open spec fn view(&self) -> Node
        decreases self,
    {
        match self.shape {
            ShapeOrGroup::Shape { material, shape } => Node::Leaf { transform: self.transform, material, shape },
            ShapeOrGroup::Group(children) => Node::Group {
                transform: self.transform,
                children: Seq::new(
                    children@.len(),
                    |i: int|
                        if 0 <= i < children@.len() {
                            children@[i].view()
                        } else {
                            arbitrary()
                        },
                ),
            },
            ShapeOrGroup::Csg(csg) => Node::Csg {
                transform: self.transform,
                op: csg.op,
                left: Box::new(csg.left.view()),
                right: Box::new(csg.right.view()),
            },
        }
    }

    /// A leaf with the identity transform and the default material.
    pub fn new(shape: Shape) -> (object: Self)
        ensures
            object@ == (Node::Leaf { transform: IDENTITY, material: Material::standard(), shape }),
    {
        Self { transform: IDENTITY, shape: ShapeOrGroup::Shape { material: Material::new(), shape } }
    }

    /// The leaf `leaf` as a node of its own.
    pub fn from_simple(leaf: SimpleObject) -> (object: Self)
        ensures
            object@ == leaf.node(),
    {
        Self { transform: leaf.transform, shape: ShapeOrGroup::Shape { material: leaf.material, shape: leaf.shape } }
    }

    /// A unit sphere.
    pub fn sphere() -> (object: Self)
        ensures
            object@ == (Node::Leaf { transform: IDENTITY, material: Material::standard(), shape: Shape::Sphere }),
    {
        Self::new(Shape::Sphere)
    }

    /// A plane.
    pub fn plane() -> (object: Self)
        ensures
            object@ == (Node::Leaf { transform: IDENTITY, material: Material::standard(), shape: Shape::Plane }),
    {
        Self::new(Shape::Plane)
    }

    /// A unit cube.
    pub fn cube() -> (object: Self)
        ensures
            object@ == (Node::Leaf { transform: IDENTITY, material: Material::standard(), shape: Shape::Cube }),
    {
        Self::new(Shape::Cube)
    }

    /// An open cylinder that is not cut off.
    pub fn cylinder() -> (object: Self)
        ensures
            object@ == (Node::Leaf {
                transform: IDENTITY,
                material: Material::standard(),
                shape: Shape::Cylinder(
                    Cylinder { minimum: NEG_INFINITY, maximum: INFINITY, closed: false },
                ),
            }),
    {
        Self::new(Shape::Cylinder(Cylinder::new()))
    }

    /// An open double cone that is not cut off.
    pub fn cone() -> (object: Self)
        ensures
            object@ == (Node::Leaf {
                transform: IDENTITY,
                material: Material::standard(),
                shape: Shape::Cone(Cone { minimum: NEG_INFINITY, maximum: INFINITY, closed: false }),
            }),
    {
        Self::new(Shape::Cone(Cone::new()))
    }

    /// A group of `objects`, in their order, with the identity transform.
    pub fn group(objects: Vec<Object>) -> (object: Self)
        ensures
            object@ matches Node::Group { transform, children } && transform == IDENTITY && children.len()
                == objects@.len() && forall|i: int|
                0 <= i < objects@.len() ==> children[i] == objects@[i]@,
    {
        Object { transform: IDENTITY, shape: ShapeOrGroup::Group(objects) }
    }

    /// The solid that is covered by `left` or by `right`.
    pub fn union(left: Object, right: Object) -> (object: Self)
        ensures
            object@ == (Node::Csg {
                transform: IDENTITY,
                op: CsgOp::Union,
                left: Box::new(left@),
                right: Box::new(right@),
            }),
    {
        Object { transform: IDENTITY, shape: ShapeOrGroup::Csg(Csg::union(left, right)) }
    }

    /// The solid that is covered by `left` and by `right`.
    pub fn intersection(left: Object, right: Object) -> (object: Self)
        ensures
            object@ == (Node::Csg {
                transform: IDENTITY,
                op: CsgOp::Intersection,
                left: Box::new(left@),
                right: Box::new(right@),
            }),
    {
        Object { transform: IDENTITY, shape: ShapeOrGroup::Csg(Csg::intersection(left, right)) }
    }

    /// The solid that is covered by `left` and not by `right`.
    pub fn difference(left: Object, right: Object) -> (object: Self)
        ensures
            object@ == (Node::Csg {
                transform: IDENTITY,
                op: CsgOp::Difference,
                left: Box::new(left@),
                right: Box::new(right@),
            }),
    {
        Object { transform: IDENTITY, shape: ShapeOrGroup::Csg(Csg::difference(left, right)) }
    }
}

impl SimpleObject {
    /// The leaf as a tree of one node.
    pub open spec fn node(self) -> Node {
        Node::Leaf { transform: self.transform, material: self.material, shape: self.shape }
    }

    /// Takes a leaf out of the tree by value; a group or a combination is no
    /// leaf.
    pub fn from_object(object: &Object) -> (leaf: Option<Self>)
        ensures
            leaf == (match object@ {
                Node::Leaf { transform, material, shape } => Some(SimpleObject { material, transform, shape }),
                _ => None,
            }),
    {
        match &object.shape {
            ShapeOrGroup::Shape { material, shape } => Some(
                Self { transform: object.transform, material: *material, shape: *shape },
            ),
            _ => None,
        }
    }

    /// The key of the leaf's transform.
    pub fn transform(&self) -> (key: u64)
        ensures
            key == self.transform,
    {
        self.transform
    }

    /// The leaf's material.
    pub fn material(&self) -> (material: Material)
        ensures
            material == self.material,
    {
        self.material
    }
}

/// A leaf occurs in a concatenation exactly when it occurs in one of the two
/// parts.
pub proof fn lemma_contains_concat(a: Seq<SimpleObject>, b: Seq<SimpleObject>, object: SimpleObject)
    ensures
        (a + b).contains(object) <==> a.contains(object) || b.contains(object),
{
    if a.contains(object) {
        let i = choose|i: int| 0 <= i < a.len() && a[i] == object;
        assert((a + b)[i] == object);
    }
    if b.contains(object) {
        let i = choose|i: int| 0 <= i < b.len() && b[i] == object;
        assert((a + b)[a.len() + i] == object);
    }
    if (a + b).contains(object) {
        let i = choose|i: int| 0 <= i < (a + b).len() && (a + b)[i] == object;
        if i < a.len() {
            assert(a[i] == object);
        } else {
            assert(b[i - a.len()] == object);
        }
    }
}

/// A leaf occurs among the leaves of a sequence of trees exactly when it
/// occurs among the leaves of one of them.
pub proof fn lemma_leaves_of_contains(nodes: Seq<Node>, object: SimpleObject)
    ensures
        Node::leaves_of(nodes).contains(object) <==> exists|i: int|
            0 <= i < nodes.len() && #[trigger] nodes[i].leaves().contains(object),
    decreases nodes.len(),
{
    if nodes.len() > 0 {
        let front = nodes.drop_last();
        lemma_leaves_of_contains(front, object);
        lemma_contains_concat(Node::leaves_of(front), nodes.last().leaves(), object);
        if Node::leaves_of(nodes).contains(object) {
            if nodes.last().leaves().contains(object) {
                assert(nodes[nodes.len() - 1].leaves().contains(object));
            } else {
                let i = choose|i: int| 0 <= i < front.len() && #[trigger] front[i].leaves().contains(object);
                assert(nodes[i] == front[i]);
            }
        }
        if exists|i: int| 0 <= i < nodes.len() && #[trigger] nodes[i].leaves().contains(object) {
            let i = choose|i: int| 0 <= i < nodes.len() && #[trigger] nodes[i].leaves().contains(object);
            if i < nodes.len() - 1 {
                assert(front[i] == nodes[i]);
            }
        }
    }
}

impl Object {
    /// The containment test: whether `object` is one of the leaves below this
    /// node.
    pub fn includes(&self, object: SimpleObject) -> (found: bool)
        ensures
            found == self@.leaves().contains(object),
        decreases self,
    {
        match &self.shape {
            ShapeOrGroup::Group(group) => {
                let ghost nodes = self@->Group_children;
                let mut i: usize = 0;
                while i < group.len()
                    invariant
                        0 <= i <= group@.len(),
                        nodes.len() == group@.len(),
                        self@.leaves() == Node::leaves_of(nodes),
                        forall|j: int| 0 <= j < group@.len() ==> nodes[j] == group@[j]@,
                        forall|j: int| 0 <= j < i ==> !(#[trigger] nodes[j].leaves().contains(object)),
                        forall|j: int| 0 <= j < group@.len() ==> decreases_to!(self => group@[j]),
                    decreases group@.len() - i,
                {
                    if group[i].includes(object) {
                        proof {
                            assert(nodes[i as int].leaves().contains(object));
                            lemma_leaves_of_contains(nodes, object);
                        }
                        return true;
                    }
                    i = i + 1;
                }
                proof {
                    lemma_leaves_of_contains(nodes, object);
                }
                false
            },
            ShapeOrGroup::Csg(csg) => {
                proof {
                    lemma_contains_concat(csg.left@.leaves(), csg.right@.leaves(), object);
                }
                csg.includes(object)
            },
            ShapeOrGroup::Shape { material, shape } => {
                let o = SimpleObject { material: *material, transform: self.transform, shape: *shape };
                proof {
                    assert(seq![o][0] == o);
                }
                o == object
            },
        }
    }
}

impl Object {
    /// The children of a group; a leaf and a combination have none.
    pub open spec fn children(&self) -> Seq<Object> {
        match self.shape {
            ShapeOrGroup::Group(group) => group@,
            _ => Seq::empty(),
        }
    }

    /// Gives every leaf below this node the material `material`; transforms,
    /// primitives and the shape of the tree stay as they are.
    pub fn set_material(&mut self, material: Material)
        ensures
            final(self)@ == old(self)@.with_material(material),
        decreases *old(self),
    {
        let ghost before = self.children();
        let ghost whole = *self;
        match &mut self.shape {
            ShapeOrGroup::Shape { material: mat, .. } => {
                *mat = material;
            },
            ShapeOrGroup::Group(group) => {
                let mut i: usize = 0;
                while i < group.len()
                    invariant
                        0 <= i <= group@.len(),
                        group@.len() == before.len(),
                        forall|j: int| i <= j < before.len() ==> group@[j] == before[j],
                        forall|j: int| 0 <= j < i ==> group@[j]@ == before[j]@.with_material(material),
                        forall|j: int| 0 <= j < before.len() ==> decreases_to!(whole => before[j]),
                        whole == *old(self),
                    decreases group@.len() - i,
                {
                    group[i].set_material(material);
                    i = i + 1;
                }
            },
            ShapeOrGroup::Csg(csg) => {
                csg.left.set_material(material);
                csg.right.set_material(material);
            },
        }
        proof {
            assert(self.transform == whole.transform);
            match whole.shape {
                ShapeOrGroup::Shape { .. } => {},
                ShapeOrGroup::Group(_) => {
                    assert(self.shape is Group);
                    assert(self.children().len() == before.len());
                    assert(self@->Group_children =~= whole@.with_material(material)->Group_children);
                },
                ShapeOrGroup::Csg(_) => {
                    assert(self.shape is Csg);
                },
            }
            assert(self@ == whole@.with_material(material));
        }
    }
}

impl SimpleObject {
    /// The same leaf with the material `material`.
    pub open spec fn repainted(self, material: Material) -> SimpleObject {
        SimpleObject { material, transform: self.transform, shape: self.shape }
    }
}

/// Giving a tree a material gives it to each of its leaves and changes
/// nothing else of them: neither their number, nor their order, their
/// transforms or their primitives.
pub proof fn lemma_with_material_leaves(node: Node, material: Material)
    ensures
        node.with_material(material).leaves() == node.leaves().map_values(
            |leaf: SimpleObject| leaf.repainted(material),
        ),
    decreases node,
{
    let paint = |leaf: SimpleObject| leaf.repainted(material);
    match node {
        Node::Leaf { .. } => {
            assert(node.with_material(material).leaves() =~= node.leaves().map_values(paint));
        },
        Node::Group { children, .. } => {
            let painted = node.with_material(material)->Group_children;
            lemma_with_material_leaves_of(children, painted, material);
        },
        Node::Csg { left, right, .. } => {
            lemma_with_material_leaves(*left, material);
            lemma_with_material_leaves(*right, material);
            assert(node.with_material(material).leaves() =~= node.leaves().map_values(paint));
        },
    }
}

/// The same for a sequence of trees, `painted` holding the trees of `nodes`
/// with the material.
pub proof fn lemma_with_material_leaves_of(nodes: Seq<Node>, painted: Seq<Node>, material: Material)
    requires
        painted.len() == nodes.len(),
        forall|i: int| 0 <= i < nodes.len() ==> painted[i] == nodes[i].with_material(material),
    ensures
        Node::leaves_of(painted) == Node::leaves_of(nodes).map_values(
            |leaf: SimpleObject| leaf.repainted(material),
        ),
    decreases nodes,
{
    let paint = |leaf: SimpleObject| leaf.repainted(material);
    if nodes.len() == 0 {
        assert(Node::leaves_of(painted) =~= Node::leaves_of(nodes).map_values(paint));
    } else {
        lemma_with_material_leaves_of(nodes.drop_last(), painted.drop_last(), material);
        lemma_with_material_leaves(nodes.last(), material);
        assert(Node::leaves_of(painted) =~= Node::leaves_of(nodes).map_values(paint));
    }
}

/// A box with its sides along the axes, given by the corner of its smallest
/// and the corner of its largest coordinates.
#[derive(Clone, Copy, Debug, PartialEq, Eq, Structural)]
pub struct BoundingBox {
    pub min: Tuple,
    pub max: Tuple,
}

/// The point at the three coordinates.
pub open spec fn point(x: i64, y: i64, z: i64) -> Tuple {
    Tuple { x, y, z, w: ONE }
}

impl BoundingBox {
    /// The box that holds nothing: every point makes it larger.
    pub open spec fn nothing() -> BoundingBox {
        BoundingBox {
            min: point(INFINITY, INFINITY, INFINITY),
            max: point(NEG_INFINITY, NEG_INFINITY, NEG_INFINITY),
        }
    }

    /// The smallest box that holds the first `n` of `points`.
    pub open spec fn enclosing(points: Seq<Tuple>, n: int) -> BoundingBox
        decreases n,
    {
        if n <= 0 {
            Self::nothing()
        } else {
            let rest = Self::enclosing(points, n - 1);
            BoundingBox { min: rest.min.lower(points[n - 1]), max: rest.max.upper(points[n - 1]) }
        }
    }

    /// The smallest box that holds both boxes.
    pub open spec fn joined(self, other: BoundingBox) -> BoundingBox {
        BoundingBox {
            min: point(
                minimum(self.min.x, other.min.x),
                minimum(self.min.y, other.min.y),
                minimum(self.min.z, other.min.z),
            ),
            max: point(
                maximum(self.max.x, other.max.x),
                maximum(self.max.y, other.max.y),
                maximum(self.max.z, other.max.z),
            ),
        }
    }

    /// The eight corners of the box. Corner `i` takes its first coordinate
    /// from the largest corner where `i` is 4 or more, its third where `i`
    /// has a remainder of 2 or 3 by 4, and its second where `i` is odd.
    pub open spec fn corner(self, i: int) -> Tuple {
        point(
            if i / 4 % 2 == 1 {
                self.max.x
            } else {
                self.min.x
            },
            if i % 2 == 1 {
                self.max.y
            } else {
                self.min.y
            },
            if i / 2 % 2 == 1 {
                self.max.z
            } else {
                self.min.z
            },
        )
    }

    /// Finds the smallest box that holds all of `points`.
    pub fn from_points(points: &[Tuple]) -> (bounds: BoundingBox)
        ensures
            bounds == Self::enclosing(points@, points@.len() as int),
    {
        let mut min_point = Tuple::point(INFINITY, INFINITY, INFINITY);
        let mut max_point = Tuple::point(NEG_INFINITY, NEG_INFINITY, NEG_INFINITY);
        let mut i: usize = 0;
        while i < points.len()
            invariant
                0 <= i <= points@.len(),
                (BoundingBox { min: min_point, max: max_point }) == Self::enclosing(points@, i as int),
            decreases points@.len() - i,
        {
            min_point = min_point.min(&points[i]);
            max_point = max_point.max(&points[i]);
            i = i + 1;
        }
        BoundingBox { min: min_point, max: max_point }
    }

    /// Lists the eight corners of the box.
    pub fn points(&self) -> (corners: [Tuple; 8])
        ensures
            forall|i: int| 0 <= i < 8 ==> corners[i] == self.corner(i),
    {
        let Tuple { x: x_min, y: y_min, z: z_min, .. } = self.min;
        let Tuple { x: x_max, y: y_max, z: z_max, .. } = self.max;
        [
            Tuple::point(x_min, y_min, z_min),
            Tuple::point(x_min, y_max, z_min),
            Tuple::point(x_min, y_min, z_max),
            Tuple::point(x_min, y_max, z_max),
            Tuple::point(x_max, y_min, z_min),
            Tuple::point(x_max, y_max, z_min),
            Tuple::point(x_max, y_min, z_max),
            Tuple::point(x_max, y_max, z_max),
        ]
    }

    /// The smallest box that holds the first `n` of the boxes: the box that
    /// holds nothing, made larger by one box after the other.
    pub open spec fn joined_all(boxes: Seq<BoundingBox>, n: int) -> BoundingBox
        decreases n,
    {
        if n <= 0 {
            Self::nothing()
        } else {
            Self::joined_all(boxes, n - 1).joined(boxes[n - 1])
        }
    }

    /// Finds the smallest box that holds all the boxes. Of no boxes it is
    /// the box that holds nothing.
    pub fn union_all(boxes: &Vec<BoundingBox>) -> (bounds: BoundingBox)
        ensures
            bounds == Self::joined_all(boxes@, boxes@.len() as int),
    {
        let mut bounds = BoundingBox {
            min: Tuple::point(INFINITY, INFINITY, INFINITY),
            max: Tuple::point(NEG_INFINITY, NEG_INFINITY, NEG_INFINITY),
        };
        let mut i: usize = 0;
        while i < boxes.len()
            invariant
                0 <= i <= boxes@.len(),
                bounds == Self::joined_all(boxes@, i as int),
            decreases boxes@.len() - i,
        {
            bounds = bounds.union(&boxes[i]);
            i = i + 1;
        }
        bounds
    }

    /// Finds the smallest box that holds both boxes.
    pub fn union(&self, other: &BoundingBox) -> (bounds: BoundingBox)
        ensures
            bounds == self.joined(*other),
    {
        BoundingBox {
            min: Tuple::point(
                min(self.min.x, other.min.x),
                min(self.min.y, other.min.y),
                min(self.min.z, other.min.z),
            ),
            max: Tuple::point(
                max(self.max.x, other.max.x),
                max(self.max.y, other.max.y),
                max(self.max.z, other.max.z),
            ),
        }
    }

    /// Tells whether a ray meets the box, given its slabs on the three axes.
    pub fn intersect(x: Slab, y: Slab, z: Slab) -> (meets: bool)
        ensures
            meets <==> box_crossings(x, y, z).len() > 0,
    {
        local_intersect(x, y, z).len() > 0
    }
}

impl Shape {
    /// The box of the primitive in its own frame.
    pub open spec fn bounds(self) -> BoundingBox {
        match self {
            Shape::Sphere => BoundingBox {
                min: point(negated(ONE_AND_EPSILON), negated(ONE_AND_EPSILON), negated(ONE_AND_EPSILON)),
                max: point(ONE_AND_EPSILON, ONE_AND_EPSILON, ONE_AND_EPSILON),
            },
            Shape::Cube => BoundingBox { min: point(MINUS_ONE, MINUS_ONE, MINUS_ONE), max: point(ONE, ONE, ONE) },
            Shape::Plane => BoundingBox {
                min: point(NEG_INFINITY, ZERO, NEG_INFINITY),
                max: point(INFINITY, ZERO, INFINITY),
            },
            Shape::Cylinder(cylinder) => BoundingBox {
                min: point(MINUS_ONE, cylinder.minimum, MINUS_ONE),
                max: point(ONE, cylinder.maximum, ONE),
            },
            Shape::Cone(cone) => {
                let reach = maximum(magnitude(cone.minimum), magnitude(cone.maximum));
                BoundingBox {
                    min: point(negated(reach), cone.minimum, negated(reach)),
                    max: point(reach, cone.maximum, reach),
                }
            },
            Shape::Triangle(triangle) => BoundingBox::enclosing(seq![triangle.p1, triangle.p2, triangle.p3], 3),
        }
    }

    /// Finds the box of the primitive in its own frame: the sphere and the
    /// cube reach to one on every axis, the sphere with the tolerance added;
    /// the plane has no height and no end; the cylinder reaches from its
    /// lower to its upper bound, and so does the cone, which is as wide as
    /// its farther bound is far from the apex; the triangle has the box of
    /// its corners.
    pub fn bounding_box(&self) -> (bounds: BoundingBox)
        ensures
            bounds == self.bounds(),
    {
        match self {
            Shape::Sphere => BoundingBox {
                min: Tuple::point(neg(ONE_AND_EPSILON), neg(ONE_AND_EPSILON), neg(ONE_AND_EPSILON)),
                max: Tuple::point(ONE_AND_EPSILON, ONE_AND_EPSILON, ONE_AND_EPSILON),
            },
            Shape::Cube => BoundingBox {
                min: Tuple::point(MINUS_ONE, MINUS_ONE, MINUS_ONE),
                max: Tuple::point(ONE, ONE, ONE),
            },
            Shape::Plane => BoundingBox {
                min: Tuple::point(NEG_INFINITY, ZERO, NEG_INFINITY),
                max: Tuple::point(INFINITY, ZERO, INFINITY),
            },
            Shape::Cylinder(cylinder) => BoundingBox {
                min: Tuple::point(MINUS_ONE, cylinder.minimum, MINUS_ONE),
                max: Tuple::point(ONE, cylinder.maximum, ONE),
            },
            Shape::Cone(cone) => {
                let max_x = max(abs(cone.minimum), abs(cone.maximum));
                let max_z = max_x;
                BoundingBox {
                    min: Tuple::point(neg(max_x), cone.minimum, neg(max_z)),
                    max: Tuple::point(max_x, cone.maximum, max_z),
                }
            },
            Shape::Triangle(triangle) => {
                let corners = [triangle.p1, triangle.p2, triangle.p3];
                let bounds = BoundingBox::from_points(&corners);
                proof {
                    reveal_with_fuel(BoundingBox::enclosing, 4);
                    assert(corners@ =~= seq![triangle.p1, triangle.p2, triangle.p3]);
                }
                bounds
            },
        }
    }
}

/// The smallest box of some points holds each of them, as far as its
/// coordinates are numbers, and its own bounds are numbers or, where no
/// point has a number on an axis, the infinities it started from.
pub proof fn lemma_enclosing_holds(points: Seq<Tuple>, n: int, i: int)
    requires
        0 <= i < n <= points.len(),
    ensures
        !is_nan(points[i].x) ==> BoundingBox::enclosing(points, n).min.x <= points[i].x
            <= BoundingBox::enclosing(points, n).max.x,
        !is_nan(points[i].y) ==> BoundingBox::enclosing(points, n).min.y <= points[i].y
            <= BoundingBox::enclosing(points, n).max.y,
        !is_nan(points[i].z) ==> BoundingBox::enclosing(points, n).min.z <= points[i].z
            <= BoundingBox::enclosing(points, n).max.z,
    decreases n,
{
    lemma_enclosing_is_number(points, n);
    lemma_enclosing_is_number(points, n - 1);
    if i < n - 1 {
        lemma_enclosing_holds(points, n - 1, i);
    }
}

/// The bounds of the smallest box of some points are numbers.
pub proof fn lemma_enclosing_is_number(points: Seq<Tuple>, n: int)
    requires
        n <= points.len(),
    ensures
        !is_nan(BoundingBox::enclosing(points, n).min.x) && !is_nan(BoundingBox::enclosing(points, n).max.x),
        !is_nan(BoundingBox::enclosing(points, n).min.y) && !is_nan(BoundingBox::enclosing(points, n).max.y),
        !is_nan(BoundingBox::enclosing(points, n).min.z) && !is_nan(BoundingBox::enclosing(points, n).max.z),
    decreases n,
{
    if n > 0 {
        lemma_enclosing_is_number(points, n - 1);
    }
}

/// The box that holds two boxes reaches as far as each of them on every
/// axis, as far as their bounds are numbers.
pub proof fn lemma_joined_holds(a: BoundingBox, b: BoundingBox)
    ensures
        !is_nan(a.min.x) && !is_nan(b.min.x) ==> a.joined(b).min.x <= a.min.x && a.joined(b).min.x <= b.min.x,
        !is_nan(a.min.y) && !is_nan(b.min.y) ==> a.joined(b).min.y <= a.min.y && a.joined(b).min.y <= b.min.y,
        !is_nan(a.min.z) && !is_nan(b.min.z) ==> a.joined(b).min.z <= a.min.z && a.joined(b).min.z <= b.min.z,
        !is_nan(a.max.x) && !is_nan(b.max.x) ==> a.joined(b).max.x >= a.max.x && a.joined(b).max.x >= b.max.x,
        !is_nan(a.max.y) && !is_nan(b.max.y) ==> a.joined(b).max.y >= a.max.y && a.joined(b).max.y >= b.max.y,
        !is_nan(a.max.z) && !is_nan(b.max.z) ==> a.joined(b).max.z >= a.max.z && a.joined(b).max.z >= b.max.z,
{
}

impl Object {
    /// Makes a tree that is the same as this one.
    pub fn duplicate(&self) -> (twin: Object)
        ensures
            twin@ == self@,
        decreases self,
    {
        match &self.shape {
            ShapeOrGroup::Shape { material, shape } => Object {
                transform: self.transform,
                shape: ShapeOrGroup::Shape { material: *material, shape: *shape },
            },
            ShapeOrGroup::Group(group) => {
                let mut children: Vec<Object> = Vec::new();
                let mut i: usize = 0;
                while i < group.len()
                    invariant
                        0 <= i <= group@.len(),
                        children@.len() == i,
                        forall|k: int| 0 <= k < i ==> (#[trigger] children@[k])@ == group@[k]@,
                        forall|k: int| 0 <= k < group@.len() ==> decreases_to!(self => group@[k]),
                    decreases group@.len() - i,
                {
                    children.push(group[i].duplicate());
                    i = i + 1;
                }
                let twin = Object { transform: self.transform, shape: ShapeOrGroup::Group(children) };
                proof {
                    assert(twin@->Group_children =~= self@->Group_children);
                }
                twin
            },
            ShapeOrGroup::Csg(csg) => Object {
                transform: self.transform,
                shape: ShapeOrGroup::Csg(Csg::new(csg.op, csg.left.duplicate(), csg.right.duplicate())),
            },
        }
    }
}

/// The box of some boxes reaches as far as each of them on every axis, as
/// far as its bounds are numbers; the box of one box whose bounds are
/// numbers is that box, and the box of no boxes holds nothing.
pub proof fn lemma_joined_all_holds(boxes: Seq<BoundingBox>, n: int, i: int)
    requires
        0 <= i < n <= boxes.len(),
    ensures
        !is_nan(boxes[i].min.x) ==> BoundingBox::joined_all(boxes, n).min.x <= boxes[i].min.x,
        !is_nan(boxes[i].min.y) ==> BoundingBox::joined_all(boxes, n).min.y <= boxes[i].min.y,
        !is_nan(boxes[i].min.z) ==> BoundingBox::joined_all(boxes, n).min.z <= boxes[i].min.z,
        !is_nan(boxes[i].max.x) ==> BoundingBox::joined_all(boxes, n).max.x >= boxes[i].max.x,
        !is_nan(boxes[i].max.y) ==> BoundingBox::joined_all(boxes, n).max.y >= boxes[i].max.y,
        !is_nan(boxes[i].max.z) ==> BoundingBox::joined_all(boxes, n).max.z >= boxes[i].max.z,
        BoundingBox::joined_all(boxes, 0) == BoundingBox::nothing(),
    decreases n,
{
    lemma_joined_all_is_number(boxes, n);
    lemma_joined_all_is_number(boxes, n - 1);
    if i < n - 1 {
        lemma_joined_all_holds(boxes, n - 1, i);
    }
}

/// The bounds of the box of some boxes are numbers.
pub proof fn lemma_joined_all_is_number(boxes: Seq<BoundingBox>, n: int)
    requires
        n <= boxes.len(),
    ensures
        !is_nan(BoundingBox::joined_all(boxes, n).min.x) && !is_nan(BoundingBox::joined_all(boxes, n).max.x),
        !is_nan(BoundingBox::joined_all(boxes, n).min.y) && !is_nan(BoundingBox::joined_all(boxes, n).max.y),
        !is_nan(BoundingBox::joined_all(boxes, n).min.z) && !is_nan(BoundingBox::joined_all(boxes, n).max.z),
    decreases n,
{
    if n > 0 {
        lemma_joined_all_is_number(boxes, n - 1);
    }
}

} // verus!
