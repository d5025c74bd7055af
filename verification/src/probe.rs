use crate::csg::filtered_by;
use crate::intersection::{sorted_by_distance, Intersection, TorUVT, UV};
use crate::shape::{Node, Object, ShapeOrGroup, SimpleObject};
use vstd::prelude::*;

verus! {

/// The key that a transform gets when the transform of a node is put before
/// it: `to` is the key of the product of the node's transform with the
/// transform that has the key `from`.
#[derive(Clone, Copy, Debug, PartialEq, Eq, Structural)]
pub struct Stamp {
    pub from: u64,
    pub to: u64,
}

/// What a ray gives at the nodes of a tree, node by node.
#[derive(Debug)]
pub enum Probed {
    /// The ray misses the box of the node: nothing below it was looked at.
    Missed,
    /// The crossings of the ray with the primitive of a leaf.
    Leaf(Vec<TorUVT>),
    /// What the ray gives at the children of a group, and the stamps of the
    /// group.
    Group { children: Vec<Probed>, stamps: Vec<Stamp> },
    /// What the ray gives at the two operands of a combination, and the
    /// stamps of the combination.
    Csg { left: Box<Probed>, right: Box<Probed>, stamps: Vec<Stamp> },
}

/// What a ray gives at the nodes of a tree, as a mathematical value.
pub ghost enum Trace {
    Missed,
    Leaf(Seq<TorUVT>),
    Group { children: Seq<Trace>, stamps: Seq<Stamp> },
    Csg { left: Box<Trace>, right: Box<Trace>, stamps: Seq<Stamp> },
}

/// The crossing that a primitive reports, on the leaf `object`.
pub open spec fn crossing_of(t_or_uvt: TorUVT, object: SimpleObject) -> Intersection {
    match t_or_uvt {
        TorUVT::JustT { t } => Intersection { t, uv: None, object },
        TorUVT::UVT { uvt } => Intersection { t: uvt.t, uv: Some(UV { u: uvt.u, v: uvt.v }), object },
    }
}

/// The key that the stamps give the transform with the key `key`: that of
/// the first stamp for it, and the key itself where there is none.
pub open spec fn stamped_key(stamps: Seq<Stamp>, key: u64) -> u64
    decreases stamps.len(),
{
    if stamps.len() == 0 {
        key
    } else if stamps[0].from == key {
        stamps[0].to
    } else {
        stamped_key(stamps.drop_first(), key)
    }
}

/// The crossing with the transform of its leaf stamped.
pub open spec fn stamped(stamps: Seq<Stamp>, x: Intersection) -> Intersection {
    Intersection {
        t: x.t,
        uv: x.uv,
        object: SimpleObject {
            material: x.object.material,
            transform: stamped_key(stamps, x.object.transform),
            shape: x.object.shape,
        },
    }
}

/// The crossings, each with the transform of its leaf stamped.
pub open spec fn stamped_all(stamps: Seq<Stamp>, xs: Seq<Intersection>) -> Seq<Intersection> {
    Seq::new(xs.len(), |k: int| stamped(stamps, xs[k]))
}

impl Probed {
    /// What the ray gives, as a mathematical value.
    pub open spec fn view(&self) -> Trace
        decreases self,
    {
        match self {
            Probed::Missed => Trace::Missed,
            Probed::Leaf(ts) => Trace::Leaf(ts@),
            Probed::Group { children, stamps } => Trace::Group {
                children: Seq::new(
                    children@.len(),
                    |i: int|
                        if 0 <= i < children@.len() {
                            children@[i].view()
                        } else {
                            arbitrary()
                        },
                ),
                stamps: stamps@,
            },
            Probed::Csg { left, right, stamps } => Trace::Csg {
                left: Box::new(left.view()),
                right: Box::new(right.view()),
                stamps: stamps@,
            },
        }
    }
}

/// The crossings of a ray with a tree, put together from what the ray gives
/// at its nodes.
///
/// A node whose box the ray misses has none. A leaf has those with its
/// primitive, each on the leaf as it stands in the tree. A group has those
/// of its children, child by child. A combination has those of its two
/// operands, sorted by distance and filtered by its operator. What a group
/// or a combination hands up is stamped with its transform. Where what the
/// ray gives does not fit the tree, there are none.
pub open spec fn assembled(node: Node, trace: Trace) -> Seq<Intersection>
    decreases node,
{
    match (node, trace) {
        (Node::Leaf { transform, material, shape }, Trace::Leaf(ts)) => Seq::new(
            ts.len(),
            |k: int| crossing_of(ts[k], SimpleObject { material, transform, shape }),
        ),
        (Node::Group { children, .. }, Trace::Group { children: traces, stamps }) => {
            if children.len() == traces.len() {
                stamped_all(stamps, assembled_children(children, traces, children.len() as int))
            } else {
                Seq::empty()
            }
        },
        (Node::Csg { op, left, right, .. }, Trace::Csg { left: first, right: second, stamps }) => stamped_all(
            stamps,
            filtered_by(op, *left, sorted_by_distance(assembled(*left, *first) + assembled(*right, *second))),
        ),
        _ => Seq::empty(),
    }
}

/// The crossings of a ray with the first `n` children of a group, child by
/// child.
pub open spec fn assembled_children(children: Seq<Node>, traces: Seq<Trace>, n: int) -> Seq<Intersection>
    decreases children, n,
{
    if n <= 0 || n > children.len() {
        Seq::empty()
    } else {
        assembled_children(children, traces, n - 1) + assembled(children[n - 1], traces[n - 1])
    }
}

fn stamp_key(stamps: &Vec<Stamp>, key: u64) -> (to: u64)
    ensures
        to == stamped_key(stamps@, key),
{
    let mut i: usize = 0;
    assert(stamps@.skip(0) =~= stamps@);
    while i < stamps.len()
        invariant
            0 <= i <= stamps@.len(),
            stamped_key(stamps@.skip(i as int), key) == stamped_key(stamps@, key),
        decreases stamps@.len() - i,
    {
        assert(stamps@.skip(i as int)[0] == stamps@[i as int]);
        assert(stamps@.skip(i as int).drop_first() =~= stamps@.skip(i + 1));
        if stamps[i].from == key {
            return stamps[i].to;
        }
        i = i + 1;
    }
    key
}

/// Stamps the transform of the leaf of each crossing.
pub fn restamp(xs: &Vec<Intersection>, stamps: &Vec<Stamp>) -> (result: Vec<Intersection>)
    ensures
        result@ == stamped_all(stamps@, xs@),
{
    let mut result: Vec<Intersection> = Vec::new();
    let mut i: usize = 0;
    while i < xs.len()
        invariant
            0 <= i <= xs@.len(),
            result@.len() == i,
            forall|k: int| 0 <= k < i ==> result@[k] == stamped(stamps@, xs@[k]),
        decreases xs@.len() - i,
    {
        let x = xs[i];
        let object = SimpleObject {
            material: x.object.material,
            transform: stamp_key(stamps, x.object.transform),
            shape: x.object.shape,
        };
        result.push(Intersection { t: x.t, uv: x.uv, object });
        i = i + 1;
    }
    assert(result@ =~= stamped_all(stamps@, xs@));
    result
}

impl Object {
    /// Puts the crossings of a ray with the tree below this node together
    /// from what the ray gives at its nodes.
    pub fn intersect(&self, probed: &Probed) -> (xs: Vec<Intersection>)
        ensures
            xs@ == assembled(self@, probed@),
        decreases self,
    {
        match (&self.shape, probed) {
            (ShapeOrGroup::Shape { material, shape }, Probed::Leaf(ts)) => {
                let leaf = SimpleObject { material: *material, transform: self.transform, shape: *shape };
                let mut xs: Vec<Intersection> = Vec::new();
                let mut i: usize = 0;
                while i < ts.len()
                    invariant
                        0 <= i <= ts@.len(),
                        xs@.len() == i,
                        forall|k: int| 0 <= k < i ==> xs@[k] == crossing_of(ts@[k], leaf),
                    decreases ts@.len() - i,
                {
                    xs.push(Intersection::new(&ts[i], leaf));
                    i = i + 1;
                }
                assert(xs@ =~= assembled(self@, probed@));
                xs
            },
            (ShapeOrGroup::Group(group), Probed::Group { children, stamps }) => {
                let ghost nodes = self@->Group_children;
                let ghost traces = probed@->Group_children;
                let mut all: Vec<Intersection> = Vec::new();
                if group.len() != children.len() {
                    assert(all@ =~= assembled(self@, probed@));
                    return all;
                }
                let mut i: usize = 0;
                while i < group.len()
                    invariant
                        0 <= i <= group@.len(),
                        group@.len() == children@.len(),
                        nodes.len() == group@.len(),
                        traces.len() == children@.len(),
                        forall|k: int| 0 <= k < group@.len() ==> nodes[k] == group@[k]@,
                        forall|k: int| 0 <= k < children@.len() ==> traces[k] == children@[k]@,
                        forall|k: int| 0 <= k < group@.len() ==> decreases_to!(self => group@[k]),
                        all@ == assembled_children(nodes, traces, i as int),
                    decreases group@.len() - i,
                {
                    let mut part = group[i].intersect(&children[i]);
                    all.append(&mut part);
                    i = i + 1;
                }
                restamp(&all, stamps)
            },
            (ShapeOrGroup::Csg(csg), Probed::Csg { left, right, stamps }) => {
                let first = csg.left.intersect(left);
                let second = csg.right.intersect(right);
                let kept = csg.local_intersect(first, second);
                restamp(&kept, stamps)
            },
            _ => {
                let none: Vec<Intersection> = Vec::new();
                assert(none@ =~= assembled(self@, probed@));
                none
            },
        }
    }
}

/// A node whose box the ray misses has no crossings, whatever is below it.
pub proof fn lemma_missed_gives_nothing(node: Node)
    ensures
        assembled(node, Trace::Missed).len() == 0,
{
}

/// A leaf has one crossing for each that its primitive reports, in their
/// order and all on the leaf as it stands in the tree.
pub proof fn lemma_leaf_crossings(leaf: SimpleObject, ts: Seq<TorUVT>)
    ensures
        assembled(leaf.node(), Trace::Leaf(ts)).len() == ts.len(),
        forall|k: int|
            0 <= k < ts.len() ==> #[trigger] assembled(leaf.node(), Trace::Leaf(ts))[k] == crossing_of(
                ts[k],
                leaf,
            ),
{
}

/// Stamping changes neither the number of the crossings nor their order,
/// distances, materials and primitives.
pub proof fn lemma_stamped(stamps: Seq<Stamp>, xs: Seq<Intersection>)
    ensures
        stamped_all(stamps, xs).len() == xs.len(),
        forall|k: int|
            0 <= k < xs.len() ==> {
                &&& (#[trigger] stamped_all(stamps, xs)[k]).t == xs[k].t
                &&& stamped_all(stamps, xs)[k].uv == xs[k].uv
                &&& stamped_all(stamps, xs)[k].object.material == xs[k].object.material
                &&& stamped_all(stamps, xs)[k].object.shape == xs[k].object.shape
            },
{
}

} // verus!
