use crate::intersection::{sort_by_distance, sorted_by_distance, Intersection};
use crate::shape::{Node, Object, SimpleObject};
use vstd::prelude::*;

verus! {

/// A combination of two subtrees by a Boolean operator.
#[derive(Debug)]
pub struct Csg {
    pub op: CsgOp,
    pub left: Box<Object>,
    pub right: Box<Object>,
}

/// The Boolean operator of a constructive-solid-geometry node.
#[derive(Clone, Copy, Debug, PartialEq, Eq, Structural)]
pub enum CsgOp {
    Union,
    Intersection,
    Difference,
}

/// Whether a surface crossing bounds the combined solid.
///
/// `left_hit` says that the crossing lies on the left operand; `inl` and `inr`
/// say that the ray is, just before the crossing, inside the left and the right
/// operand.
pub open spec fn allowed(op: CsgOp, left_hit: bool, inl: bool, inr: bool) -> bool {
    match op {
        CsgOp::Union => (left_hit && !inr) || (!left_hit && !inl),
        CsgOp::Intersection => (left_hit && inr) || (!left_hit && inl),
        CsgOp::Difference => (left_hit && !inr) || (!left_hit && inl),
    }
}

/// Whether the ray is inside the left operand after the first `n` crossings:
/// every crossing of the left operand toggles it.
pub open spec fn inside_left(left_hits: Seq<bool>, n: int) -> bool
    decreases n,
{
    if n <= 0 {
        false
    } else if left_hits[n - 1] {
        !inside_left(left_hits, n - 1)
    } else {
        inside_left(left_hits, n - 1)
    }
}

/// Whether the ray is inside the right operand after the first `n` crossings.
pub open spec fn inside_right(left_hits: Seq<bool>, n: int) -> bool
    decreases n,
{
    if n <= 0 {
        false
    } else if left_hits[n - 1] {
        inside_right(left_hits, n - 1)
    } else {
        !inside_right(left_hits, n - 1)
    }
}

/// Whether crossing `i` of a sequence sorted by distance is kept.
pub open spec fn keeps(op: CsgOp, left_hits: Seq<bool>, i: int) -> bool {
    allowed(op, left_hits[i], inside_left(left_hits, i), inside_right(left_hits, i))
}

/// The crossings among the first `n` of `xs` that are kept, in their order;
/// `left_hits[i]` says whether crossing `i` lies on the left operand.
pub open spec fn filtered(op: CsgOp, left_hits: Seq<bool>, xs: Seq<Intersection>, n: int) -> Seq<Intersection>
    decreases n,
{
    if n <= 0 {
        Seq::empty()
    } else if keeps(op, left_hits, n - 1) {
        filtered(op, left_hits, xs, n - 1).push(xs[n - 1])
    } else {
        filtered(op, left_hits, xs, n - 1)
    }
}

/// For each crossing, whether the leaf it lies on is a leaf of `left`.
pub open spec fn left_hits(left: Node, xs: Seq<Intersection>) -> Seq<bool> {
    Seq::new(xs.len(), |i: int| left.leaves().contains(xs[i].object))
}

/// What a combination with the left operand `left` lets through of the
/// crossings `xs`, which are in ascending distance.
pub open spec fn filtered_by(op: CsgOp, left: Node, xs: Seq<Intersection>) -> Seq<Intersection> {
    filtered(op, left_hits(left, xs), xs, xs.len() as int)
}

/// Whether a point is inside the combined solid, given whether it is inside
/// the left and inside the right operand.
pub open spec fn solid(op: CsgOp, inl: bool, inr: bool) -> bool {
    match op {
        CsgOp::Union => inl || inr,
        CsgOp::Intersection => inl && inr,
        CsgOp::Difference => inl && !inr,
    }
}

/// A crossing is kept exactly when the ray enters or leaves the combined
/// solid at it.
pub proof fn lemma_allowed_iff_boundary(op: CsgOp, left_hit: bool, inl: bool, inr: bool)
    ensures
        allowed(op, left_hit, inl, inr) <==> solid(
            op,
            if left_hit {
                !inl
            } else {
                inl
            },
            if left_hit {
                inr
            } else {
                !inr
            },
        ) != solid(op, inl, inr),
{
}

/// The kept crossings are crossings that were given, no more than those, and
/// their number is odd exactly when the ray ends inside the combined solid:
/// along the ray they alternate between entering and leaving it.
pub proof fn lemma_filtered_alternates(op: CsgOp, left_hits: Seq<bool>, xs: Seq<Intersection>, n: int)
    requires
        0 <= n <= xs.len(),
    ensures
        filtered(op, left_hits, xs, n).len() <= n,
        forall|k: int|
            0 <= k < filtered(op, left_hits, xs, n).len() ==> xs.take(n).contains(
                #[trigger] filtered(op, left_hits, xs, n)[k],
            ),
        filtered(op, left_hits, xs, n).len() % 2 == 1 <==> solid(
            op,
            inside_left(left_hits, n),
            inside_right(left_hits, n),
        ),
    decreases n,
{
    if n > 0 {
        lemma_filtered_alternates(op, left_hits, xs, n - 1);
        lemma_allowed_iff_boundary(
            op,
            left_hits[n - 1],
            inside_left(left_hits, n - 1),
            inside_right(left_hits, n - 1),
        );
        let before = filtered(op, left_hits, xs, n - 1);
        let after = filtered(op, left_hits, xs, n);
        assert forall|k: int| 0 <= k < after.len() implies xs.take(n).contains(#[trigger] after[k]) by {
            if k < before.len() {
                assert(after[k] == before[k]);
                let front = xs.take(n - 1);
                assert(front.contains(before[k]));
                let i = choose|i: int| 0 <= i < front.len() && front[i] == before[k];
                assert(xs.take(n)[i] == before[k]);
            } else {
                assert(xs.take(n)[n - 1] == after[k]);
            }
        }
    }
}

impl Csg {
    /// Combines two subtrees by `op`.
    pub fn new(op: CsgOp, left: Object, right: Object) -> (csg: Self)
        ensures
            csg.op == op,
            *csg.left == left,
            *csg.right == right,
    {
        Self { op, left: Box::new(left), right: Box::new(right) }
    }

    /// The solid that is covered by `left` or by `right`.
    pub fn union(left: Object, right: Object) -> (csg: Self)
        ensures
            csg.op == CsgOp::Union,
            *csg.left == left,
            *csg.right == right,
    {
        Self::new(CsgOp::Union, left, right)
    }

    /// The solid that is covered by `left` and by `right`.
    pub fn intersection(left: Object, right: Object) -> (csg: Self)
        ensures
            csg.op == CsgOp::Intersection,
            *csg.left == left,
            *csg.right == right,
    {
        Self::new(CsgOp::Intersection, left, right)
    }

    /// The solid that is covered by `left` and not by `right`.
    pub fn difference(left: Object, right: Object) -> (csg: Self)
        ensures
            csg.op == CsgOp::Difference,
            *csg.left == left,
            *csg.right == right,
    {
        Self::new(CsgOp::Difference, left, right)
    }

    /// Filters the crossings of both operands, which are in ascending
    /// distance: the result holds, in their order, the crossings that bound
    /// the combined solid.
    ///
    /// The walk keeps two flags, inside the left operand and inside the right
    /// one, both unset at the start. A crossing counts for the left operand
    /// when its leaf is a leaf of that operand, and for the right one
    /// otherwise; it is kept when the operator allows it under the two flags,
    /// and then toggles the flag of its operand.
    pub fn filter_intersections(&self, intersections: Vec<Intersection>) -> (result: Vec<Intersection>)
        ensures
            result@ == filtered_by(self.op, self.left@, intersections@),
    {
        let ghost hits = left_hits(self.left@, intersections@);
        let mut inl = false;
        let mut inr = false;
        let mut result: Vec<Intersection> = Vec::new();
        let mut i: usize = 0;
        while i < intersections.len()
            invariant
                0 <= i <= intersections@.len(),
                hits == left_hits(self.left@, intersections@),
                inl == inside_left(hits, i as int),
                inr == inside_right(hits, i as int),
                result@ == filtered(self.op, hits, intersections@, i as int),
            decreases intersections@.len() - i,
        {
            let x = intersections[i];
            let left_hit = self.left.includes(x.object);
            if self.op.intersection_allowed(left_hit, inl, inr) {
                result.push(x);
            }
            if left_hit {
                inl = !inl;
            } else {
                inr = !inr;
            }
            i = i + 1;
        }
        result
    }

    /// Combines the crossings of a ray with the two operands: the crossings of
    /// both, sorted by ascending distance and then filtered.
    pub fn local_intersect(
        &self,
        left_intersections: Vec<Intersection>,
        right_intersections: Vec<Intersection>,
    ) -> (result: Vec<Intersection>)
        ensures
            result@ == filtered_by(
                self.op,
                self.left@,
                sorted_by_distance(left_intersections@ + right_intersections@),
            ),
    {
        let mut xs = left_intersections;
        let mut rest = right_intersections;
        xs.append(&mut rest);
        let sorted = sort_by_distance(&xs);
        self.filter_intersections(sorted)
    }

    /// Whether `object` is a leaf of one of the two operands.
    pub fn includes(&self, object: SimpleObject) -> (found: bool)
        ensures
            found == (self.left@.leaves().contains(object) || self.right@.leaves().contains(object)),
        decreases self,
    {
        self.left.includes(object) || self.right.includes(object)
    }
}

impl CsgOp {
    /// Decides whether one crossing survives the operator.
    pub fn intersection_allowed(&self, left_hit: bool, inl: bool, inr: bool) -> (keep: bool)
        ensures
            keep == allowed(*self, left_hit, inl, inr),
    {
        match self {
            CsgOp::Union => (left_hit && !inr) || (!left_hit && !inl),
            CsgOp::Intersection => (left_hit && inr) || (!left_hit && inl),
            CsgOp::Difference => (left_hit && !inr) || (!left_hit && inl),
        }
    }
}

} // verus!
