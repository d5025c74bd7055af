use crate::scalar::{at_most, le, less, lt, ONE, ZERO};
use crate::shape::SimpleObject;
use crate::tuple::Tuple;
use vstd::prelude::*;

verus! {

/// The place of a crossing on a triangle: its distance along the ray and its
/// two barycentric weights.
#[derive(Clone, Copy, Debug, PartialEq, Eq, Structural)]
pub struct UVT {
    pub t: i64,
    pub u: i64,
    pub v: i64,
}

/// The two barycentric weights of a crossing with a triangle.
#[derive(Clone, Copy, Debug, PartialEq, Eq, Structural)]
pub struct UV {
    pub u: i64,
    pub v: i64,
}

/// What a primitive reports of one crossing: a distance alone, or the place on
/// a triangle.
#[derive(Clone, Copy, Debug, PartialEq, Eq, Structural)]
pub enum TorUVT {
    JustT { t: i64 },
    UVT { uvt: UVT },
}

/// One crossing of a ray with the surface of a leaf.
///
/// A distance is kept as an ordered key: an integer that sorts as the distance
/// it stands for and is negative exactly when the distance is. The barycentric
/// weights of a crossing with a triangle are carried along in the same form.
/// A distance that is no number is in front of nothing and behind nothing; in
/// sorting it stands beyond the infinities.
#[derive(Clone, Copy, Debug, PartialEq, Eq, Structural)]
pub struct Intersection {
    pub t: i64,
    pub uv: Option<UV>,
    pub object: SimpleObject,
}

/// Whether the crossing lies in front of the ray's origin or at it: its
/// distance is a number that is not negative.
pub open spec fn in_front(x: Intersection) -> bool {
    at_most(ZERO, x.t)
}

/// Whether position `i` holds the nearest crossing in front of the ray's
/// origin: it lies in front, no crossing in front is nearer, and none that is
/// as near stands before it.
pub open spec fn is_nearest(xs: Seq<Intersection>, i: int) -> bool {
    &&& 0 <= i < xs.len()
    &&& in_front(xs[i])
    &&& forall|j: int| 0 <= j < xs.len() && in_front(xs[j]) ==> xs[i].t <= xs[j].t
    &&& forall|j: int| 0 <= j < i && in_front(xs[j]) ==> xs[i].t < xs[j].t
}

/// The first position of `leaf` in `s`, or the length of `s` when it is absent.
pub open spec fn position(s: Seq<SimpleObject>, leaf: SimpleObject) -> int
    decreases s.len(),
{
    if s.len() == 0 {
        0
    } else if s[0] == leaf {
        0
    } else {
        1 + position(s.drop_first(), leaf)
    }
}

/// Crossing the surface of `leaf`: the ray leaves the leaf when it is among
/// the entered ones, and enters it otherwise.
pub open spec fn toggle(entered: Seq<SimpleObject>, leaf: SimpleObject) -> Seq<SimpleObject> {
    if position(entered, leaf) < entered.len() {
        entered.remove(position(entered, leaf))
    } else {
        entered.push(leaf)
    }
}

/// The leaves the ray is inside after the first `n` crossings, in the order in
/// which it entered them.
pub open spec fn containers(xs: Seq<Intersection>, n: int) -> Seq<SimpleObject>
    decreases n,
{
    if n <= 0 {
        Seq::empty()
    } else {
        toggle(containers(xs, n - 1), xs[n - 1].object)
    }
}

/// The leaf entered last, if the ray is inside any.
pub open spec fn innermost(entered: Seq<SimpleObject>) -> Option<SimpleObject> {
    if entered.len() == 0 {
        None
    } else {
        Some(entered.last())
    }
}

/// The first position of a crossing equal to `x` in `xs`, or the length of
/// `xs` when there is none.
pub open spec fn first_equal(xs: Seq<Intersection>, x: Intersection) -> int
    decreases xs.len(),
{
    if xs.len() == 0 {
        0
    } else if xs[0] == x {
        0
    } else {
        1 + first_equal(xs.drop_first(), x)
    }
}

/// The media on both sides of crossing `hit`: the innermost leaf just before
/// it and just after it. `None` stands for empty space.
pub open spec fn media_at(xs: Seq<Intersection>, hit: int) -> (Option<SimpleObject>, Option<SimpleObject>) {
    if 0 <= hit < xs.len() {
        (innermost(containers(xs, hit)), innermost(containers(xs, hit + 1)))
    } else {
        (None, None)
    }
}

/// The refractive index of a medium: that of the material of the leaf, and
/// one for empty space.
pub open spec fn index_of(medium: Option<SimpleObject>) -> i64 {
    match medium {
        Some(leaf) => leaf.material.refractive_index,
        None => ONE,
    }
}

/// The refractive indices on both sides of crossing `hit`: that of the
/// medium the ray comes from, and that of the medium it goes into.
pub open spec fn indices_at(xs: Seq<Intersection>, hit: int) -> (i64, i64) {
    (index_of(media_at(xs, hit).0), index_of(media_at(xs, hit).1))
}

/// `position` is the least position that holds the leaf.
pub proof fn lemma_position_bounds(s: Seq<SimpleObject>, leaf: SimpleObject)
    ensures
        0 <= position(s, leaf) <= s.len(),
        position(s, leaf) < s.len() ==> s[position(s, leaf)] == leaf,
        forall|j: int| 0 <= j < position(s, leaf) ==> s[j] != leaf,
    decreases s.len(),
{
    if s.len() != 0 && s[0] != leaf {
        lemma_position_bounds(s.drop_first(), leaf);
        let p = position(s.drop_first(), leaf);
        assert forall|j: int| 0 <= j < 1 + p implies s[j] != leaf by {
            if j > 0 {
                assert(s.drop_first()[j - 1] == s[j]);
            }
        }
    }
}

/// `first_equal` is the least position that holds the crossing.
pub proof fn lemma_first_equal_bounds(xs: Seq<Intersection>, x: Intersection)
    ensures
        0 <= first_equal(xs, x) <= xs.len(),
        first_equal(xs, x) < xs.len() ==> xs[first_equal(xs, x)] == x,
        forall|j: int| 0 <= j < first_equal(xs, x) ==> xs[j] != x,
    decreases xs.len(),
{
    if xs.len() != 0 && xs[0] != x {
        lemma_first_equal_bounds(xs.drop_first(), x);
        let p = first_equal(xs.drop_first(), x);
        assert forall|j: int| 0 <= j < 1 + p implies xs[j] != x by {
            if j > 0 {
                assert(xs.drop_first()[j - 1] == xs[j]);
            }
        }
    }
}

/// At most one position holds the nearest crossing.
pub proof fn lemma_nearest_unique(xs: Seq<Intersection>, i: int, j: int)
    requires
        is_nearest(xs, i),
        is_nearest(xs, j),
    ensures
        i == j,
{
}

fn find(entered: &Vec<SimpleObject>, leaf: SimpleObject) -> (index: usize)
    ensures
        index == position(entered@, leaf),
{
    let mut i: usize = 0;
    while i < entered.len()
        invariant
            0 <= i <= entered@.len(),
            forall|j: int| 0 <= j < i ==> entered@[j] != leaf,
        decreases entered@.len() - i,
    {
        if entered[i] == leaf {
            proof {
                lemma_position_bounds(entered@, leaf);
            }
            return i;
        }
        i = i + 1;
    }
    proof {
        lemma_position_bounds(entered@, leaf);
    }
    i
}

fn last_of(entered: &Vec<SimpleObject>) -> (index: i64)
    ensures
        index == index_of(innermost(entered@)),
{
    if entered.len() == 0 {
        ONE
    } else {
        entered[entered.len() - 1].material.refractive_index
    }
}

fn step(entered: &mut Vec<SimpleObject>, leaf: SimpleObject)
    ensures
        final(entered)@ == toggle(old(entered)@, leaf),
{
    let index = find(entered, leaf);
    if index < entered.len() {
        entered.remove(index);
    } else {
        entered.push(leaf);
    }
}

impl Intersection {
    /// Joins what a primitive reports of a crossing with the leaf it lies on.
    pub fn new(t_or_uvt: &TorUVT, object: SimpleObject) -> (x: Self)
        ensures
            x == (match *t_or_uvt {
                TorUVT::JustT { t } => Intersection { t, uv: None, object },
                TorUVT::UVT { uvt } => Intersection { t: uvt.t, uv: Some(UV { u: uvt.u, v: uvt.v }), object },
            }),
    {
        match t_or_uvt {
            TorUVT::JustT { t } => Self { t: *t, uv: None, object },
            TorUVT::UVT { uvt } => Self { t: uvt.t, uv: Some(UV { u: uvt.u, v: uvt.v }), object },
        }
    }

    /// Selects the visible crossing among `intersections`, which may be in any
    /// order: the one with the smallest distance that is not negative, the
    /// first such one on a tie, or `None` when every crossing lies behind the
    /// origin or there is none.
    pub fn hit(intersections: &Vec<Intersection>) -> (nearest: Option<&Intersection>)
        ensures
            nearest.is_none() <==> (forall|j: int|
                0 <= j < intersections@.len() ==> !in_front(intersections@[j])),
            nearest matches Some(x) ==> exists|i: int| is_nearest(intersections@, i) && intersections@[i] == *x,
    {
        match Self::hit_index(intersections) {
            Some(i) => Some(&intersections[i]),
            None => None,
        }
    }

    /// The position of the visible crossing among `intersections`.
    pub fn hit_index(intersections: &Vec<Intersection>) -> (nearest: Option<usize>)
        ensures
            nearest.is_none() <==> (forall|j: int|
                0 <= j < intersections@.len() ==> !in_front(intersections@[j])),
            nearest matches Some(i) ==> is_nearest(intersections@, i as int),
    {
        let mut nearest: Option<usize> = None;
        let mut k: usize = 0;
        while k < intersections.len()
            invariant
                0 <= k <= intersections@.len(),
                nearest.is_none() <==> (forall|j: int| 0 <= j < k ==> !in_front(intersections@[j])),
                nearest matches Some(i) ==> {
                    &&& 0 <= i < k
                    &&& in_front(intersections@[i as int])
                    &&& forall|j: int|
                        0 <= j < k && in_front(intersections@[j]) ==> intersections@[i as int].t
                            <= intersections@[j].t
                    &&& forall|j: int|
                        0 <= j < i && in_front(intersections@[j]) ==> intersections@[i as int].t
                            < intersections@[j].t
                },
            decreases intersections@.len() - k,
        {
            let t = intersections[k].t;
            if le(ZERO, t) {
                match nearest {
                    None => {
                        nearest = Some(k);
                    },
                    Some(i) => {
                        if t < intersections[i].t {
                            nearest = Some(k);
                        }
                    },
                }
            }
            k = k + 1;
        }
        nearest
    }

    /// Finds the refractive indices on both sides of this crossing.
    ///
    /// `all_intersections` holds the crossings of the ray in ascending
    /// distance. The walk goes up to the first crossing that equals this one
    /// and keeps the leaves entered so far: a crossing of a leaf already
    /// entered leaves it, any other enters it. The result gives the index of
    /// the innermost leaf before and after this crossing; that of empty space
    /// is one, also where this crossing is not among `all_intersections`.
    pub fn compute_refractive_indices(&self, all_intersections: &Vec<Intersection>) -> (indices: (i64, i64))
        ensures
            indices == indices_at(all_intersections@, first_equal(all_intersections@, *self)),
    {
        let mut entered: Vec<SimpleObject> = Vec::new();
        let mut i: usize = 0;
        while i < all_intersections.len()
            invariant
                0 <= i <= all_intersections@.len(),
                entered@ == containers(all_intersections@, i as int),
                forall|j: int| 0 <= j < i ==> all_intersections@[j] != *self,
            decreases all_intersections@.len() - i,
        {
            let x = all_intersections[i];
            if x == *self {
                proof {
                    lemma_first_equal_bounds(all_intersections@, *self);
                }
                let before = last_of(&entered);
                step(&mut entered, x.object);
                let after = last_of(&entered);
                return (before, after);
            }
            step(&mut entered, x.object);
            i = i + 1;
        }
        proof {
            lemma_first_equal_bounds(all_intersections@, *self);
        }
        (ONE, ONE)
    }

    /// The place of the crossing on a triangle, where it lies on one.
    pub fn uvt(&self) -> (place: Option<UVT>)
        ensures
            place == (match self.uv {
                Some(uv) => Some(UVT { t: self.t, u: uv.u, v: uv.v }),
                None => None,
            }),
    {
        match self.uv {
            Some(uv) => Some(UVT { t: self.t, u: uv.u, v: uv.v }),
            None => None,
        }
    }
}

/// Where a crossing at distance `t` is put into `sorted`: behind every
/// crossing that is not farther, so before the first one that is.
pub open spec fn insertion_point(sorted: Seq<Intersection>, t: i64) -> int
    decreases sorted.len(),
{
    if sorted.len() == 0 {
        0
    } else if sorted[0].t > t {
        0
    } else {
        1 + insertion_point(sorted.drop_first(), t)
    }
}

/// The crossings in ascending distance, crossings at one distance in the order
/// in which they were given.
pub open spec fn sorted_by_distance(xs: Seq<Intersection>) -> Seq<Intersection>
    decreases xs.len(),
{
    if xs.len() == 0 {
        Seq::empty()
    } else {
        let front = sorted_by_distance(xs.drop_last());
        front.insert(insertion_point(front, xs.last().t), xs.last())
    }
}

/// Whether the distances do not descend.
pub open spec fn ascending(xs: Seq<Intersection>) -> bool {
    forall|i: int, j: int| 0 <= i <= j < xs.len() ==> xs[i].t <= xs[j].t
}

/// The insertion point lies within the sequence, nothing before it is
/// farther than `t`, and where it is not the end, the crossing at it is.
pub proof fn lemma_insertion_point(sorted: Seq<Intersection>, t: i64)
    ensures
        0 <= insertion_point(sorted, t) <= sorted.len(),
        forall|j: int| 0 <= j < insertion_point(sorted, t) ==> sorted[j].t <= t,
        insertion_point(sorted, t) < sorted.len() ==> sorted[insertion_point(sorted, t)].t > t,
    decreases sorted.len(),
{
    if sorted.len() != 0 && sorted[0].t <= t {
        lemma_insertion_point(sorted.drop_first(), t);
        let p = insertion_point(sorted.drop_first(), t);
        assert forall|j: int| 0 <= j < 1 + p implies sorted[j].t <= t by {
            if j > 0 {
                assert(sorted.drop_first()[j - 1] == sorted[j]);
            }
        }
        if 1 + p < sorted.len() {
            assert(sorted.drop_first()[p] == sorted[1 + p]);
        }
    }
}

/// Sorts crossings by ascending distance. Crossings at one distance keep their
/// order.
pub fn sort_by_distance(xs: &Vec<Intersection>) -> (sorted: Vec<Intersection>)
    ensures
        sorted@ == sorted_by_distance(xs@),
{
    let mut sorted: Vec<Intersection> = Vec::new();
    let mut i: usize = 0;
    assert(xs@.take(0) =~= Seq::empty());
    while i < xs.len()
        invariant
            0 <= i <= xs@.len(),
            sorted@ == sorted_by_distance(xs@.take(i as int)),
            sorted@.len() == i,
        decreases xs@.len() - i,
    {
        let x = xs[i];
        let mut p: usize = 0;
        while p < sorted.len() && sorted[p].t <= x.t
            invariant
                0 <= p <= sorted@.len(),
                forall|j: int| 0 <= j < p ==> sorted@[j].t <= x.t,
            decreases sorted@.len() - p,
        {
            p = p + 1;
        }
        proof {
            lemma_insertion_point(sorted@, x.t);
            assert(xs@.take(i + 1).drop_last() =~= xs@.take(i as int));
            assert(xs@.take(i + 1).last() == x);
        }
        sorted.insert(p, x);
        i = i + 1;
    }
    assert(xs@.take(xs@.len() as int) =~= xs@);
    sorted
}

/// What shading needs to know of a hit, as far as it is found without
/// arithmetic: the crossing, the direction to the eye, on which side of the
/// surface the eye is, the normal on that side, and the refractive indices on
/// both sides.
#[derive(Clone, Copy, Debug, PartialEq, Eq, Structural)]
pub struct ComputedIntersection {
    pub t: i64,
    pub object: SimpleObject,
    /// The direction from the hit to the eye: that of the ray, turned round.
    pub eye_vector: Tuple,
    /// The normal of the surface at the hit, on the side of the eye.
    pub normal_vector: Tuple,
    /// The eye is inside the leaf: the surface normal had to be turned round
    /// to face it.
    pub inside: bool,
    /// The refractive index of the medium that the ray comes from.
    pub n1: i64,
    /// The refractive index of the medium that the ray goes into.
    pub n2: i64,
}

/// The shading context of the crossing `hit` among `all`, for a ray with the
/// direction `direction`. `normal` is the outward normal of the surface at
/// the hit and `normal_dot_eye` its product with the direction to the eye.
/// Where that product is negative, the normal points away from the eye: the
/// eye is inside, and the normal is turned round.
pub open spec fn prepared(
    hit: Intersection,
    direction: Tuple,
    normal: Tuple,
    normal_dot_eye: i64,
    all: Seq<Intersection>,
) -> ComputedIntersection {
    let indices = indices_at(all, first_equal(all, hit));
    let inside = less(normal_dot_eye, ZERO);
    ComputedIntersection {
        t: hit.t,
        object: hit.object,
        eye_vector: direction.reversed(),
        normal_vector: if inside {
            normal.reversed()
        } else {
            normal
        },
        inside,
        n1: indices.0,
        n2: indices.1,
    }
}

impl Intersection {
    /// Prepares the shading of this crossing. The eye looks against the
    /// ray. It is inside the leaf exactly when the product of the outward
    /// normal with the direction to the eye is negative, and the normal is
    /// then turned round to face it. The refractive indices on both sides
    /// come from the walk over `all_intersections`.
    pub fn prepare_computations(
        &self,
        direction: Tuple,
        normal: Tuple,
        normal_dot_eye: i64,
        all_intersections: &Vec<Intersection>,
    ) -> (comps: ComputedIntersection)
        ensures
            comps == prepared(*self, direction, normal, normal_dot_eye, all_intersections@),
    {
        let (n1, n2) = self.compute_refractive_indices(all_intersections);
        let inside = lt(normal_dot_eye, ZERO);
        let normal_vector = if inside {
            normal.neg()
        } else {
            normal
        };
        ComputedIntersection {
            t: self.t,
            object: self.object,
            eye_vector: direction.neg(),
            normal_vector,
            inside,
            n1,
            n2,
        }
    }
}

/// Preparing the same crossing of the same ray among the same crossings
/// again gives the same context: the context is a function of the crossing,
/// the direction of the ray, the normal, its product with the direction to
/// the eye and the crossings of the ray, and of nothing else.
pub proof fn lemma_prepare_computations_repeatable(
    first: ComputedIntersection,
    second: ComputedIntersection,
    hit: Intersection,
    direction: Tuple,
    normal: Tuple,
    normal_dot_eye: i64,
    all: Seq<Intersection>,
)
    requires
        first == prepared(hit, direction, normal, normal_dot_eye, all),
        second == prepared(hit, direction, normal, normal_dot_eye, all),
    ensures
        first == second,
{
}

/// The eye is inside exactly when the outward normal points away from it,
/// and the normal of the context is the outward normal or its reverse, the
/// reverse exactly when the eye is inside; turning a normal round twice
/// gives it back, as far as its coordinates are keys.
pub proof fn lemma_inside(
    hit: Intersection,
    direction: Tuple,
    normal: Tuple,
    normal_dot_eye: i64,
    all: Seq<Intersection>,
)
    ensures
        prepared(hit, direction, normal, normal_dot_eye, all).inside <==> less(normal_dot_eye, ZERO),
        !less(normal_dot_eye, ZERO) ==> prepared(hit, direction, normal, normal_dot_eye, all).normal_vector
            == normal,
        less(normal_dot_eye, ZERO) ==> prepared(hit, direction, normal, normal_dot_eye, all).normal_vector
            == normal.reversed(),
        normal.x != i64::MIN && normal.y != i64::MIN && normal.z != i64::MIN && normal.w != i64::MIN
            ==> normal.reversed().reversed() == normal,
{
}

/// How often the surface of `leaf` is crossed among the first `n` crossings.
pub open spec fn crossings_of(xs: Seq<Intersection>, n: int, leaf: SimpleObject) -> nat
    decreases n,
{
    if n <= 0 {
        0
    } else if xs[n - 1].object == leaf {
        crossings_of(xs, n - 1, leaf) + 1
    } else {
        crossings_of(xs, n - 1, leaf)
    }
}

/// Crossing a leaf changes whether that leaf is entered and leaves every
/// other leaf as it was, and the entered leaves stay distinct.
pub proof fn lemma_toggle(entered: Seq<SimpleObject>, leaf: SimpleObject, other: SimpleObject)
    requires
        entered.no_duplicates(),
    ensures
        toggle(entered, leaf).no_duplicates(),
        toggle(entered, leaf).contains(leaf) == !entered.contains(leaf),
        other != leaf ==> toggle(entered, leaf).contains(other) == entered.contains(other),
{
    lemma_position_bounds(entered, leaf);
    let p = position(entered, leaf);
    let after = toggle(entered, leaf);
    if p < entered.len() {
        assert(entered.contains(leaf));
        assert forall|i: int, j: int| 0 <= i < after.len() && 0 <= j < after.len() && i != j implies after[i]
            != after[j] by {
            let a = if i < p { i } else { i + 1 };
            let b = if j < p { j } else { j + 1 };
            assert(after[i] == entered[a] && after[j] == entered[b]);
        }
        if after.contains(leaf) {
            let i = choose|i: int| 0 <= i < after.len() && after[i] == leaf;
            let a = if i < p { i } else { i + 1 };
            assert(after[i] == entered[a]);
            assert(false);
        }
        if other != leaf {
            if entered.contains(other) {
                let i = choose|i: int| 0 <= i < entered.len() && entered[i] == other;
                let a = if i < p { i } else { i - 1 };
                assert(after[a] == other);
            }
            if after.contains(other) {
                let i = choose|i: int| 0 <= i < after.len() && after[i] == other;
                let a = if i < p { i } else { i + 1 };
                assert(entered[a] == other);
            }
        }
    } else {
        assert(!entered.contains(leaf));
        assert(after[entered.len() as int] == leaf);
        if other != leaf {
            if entered.contains(other) {
                let i = choose|i: int| 0 <= i < entered.len() && entered[i] == other;
                assert(after[i] == other);
            }
            if after.contains(other) {
                let i = choose|i: int| 0 <= i < after.len() && after[i] == other;
                assert(entered[i] == other);
            }
        }
    }
}

/// No leaf is entered twice at a time, and the ray is inside a leaf exactly
/// when it has crossed the surface of that leaf an odd number of times.
pub proof fn lemma_containers_parity(xs: Seq<Intersection>, n: int, leaf: SimpleObject)
    requires
        0 <= n <= xs.len(),
    ensures
        containers(xs, n).no_duplicates(),
        containers(xs, n).contains(leaf) <==> crossings_of(xs, n, leaf) % 2 == 1,
    decreases n,
{
    if n > 0 {
        lemma_containers_parity(xs, n - 1, leaf);
        lemma_toggle(containers(xs, n - 1), xs[n - 1].object, leaf);
    }
}

/// The medium behind one crossing is the medium before the next.
pub proof fn lemma_media_chain(xs: Seq<Intersection>, hit: int)
    requires
        0 <= hit,
        hit + 1 < xs.len(),
    ensures
        media_at(xs, hit).1 == media_at(xs, hit + 1).0,
{
}

/// Sorting gives ascending distances.
pub proof fn lemma_sorted_ascending(xs: Seq<Intersection>)
    ensures
        ascending(sorted_by_distance(xs)),
        sorted_by_distance(xs).len() == xs.len(),
    decreases xs.len(),
{
    if xs.len() > 0 {
        let front = sorted_by_distance(xs.drop_last());
        let x = xs.last();
        let p = insertion_point(front, x.t);
        lemma_sorted_ascending(xs.drop_last());
        lemma_insertion_point(front, x.t);
        let sorted = front.insert(p, x);
        assert forall|i: int, j: int| 0 <= i <= j < sorted.len() implies sorted[i].t <= sorted[j].t by {
            if i < p && j > p {
                assert(sorted[i] == front[i] && sorted[j] == front[j - 1]);
            } else if i < p && j < p {
                assert(sorted[i] == front[i] && sorted[j] == front[j]);
            } else if i > p {
                assert(sorted[i] == front[i - 1] && sorted[j] == front[j - 1]);
                assert(front[p].t <= front[i - 1].t);
            } else if i == p && j > p {
                assert(sorted[j] == front[j - 1]);
                assert(front[p].t <= front[j - 1].t);
            }
        }
    }
}

/// Sorting keeps every crossing, as often as it was given.
pub proof fn lemma_sorted_permutation(xs: Seq<Intersection>)
    ensures
        sorted_by_distance(xs).to_multiset() == xs.to_multiset(),
    decreases xs.len(),
{
    if xs.len() > 0 {
        let front = sorted_by_distance(xs.drop_last());
        let x = xs.last();
        let p = insertion_point(front, x.t);
        lemma_sorted_permutation(xs.drop_last());
        lemma_sorted_ascending(xs.drop_last());
        lemma_insertion_point(front, x.t);
        vstd::seq_lib::to_multiset_insert(front, p, x);
        assert(xs =~= xs.drop_last().push(x));
        vstd::seq_lib::to_multiset_build(xs.drop_last(), x);
    } else {
        assert(sorted_by_distance(xs) =~= xs);
    }
}

/// Crossings that are in ascending distance stay as they are, so sorting
/// twice is sorting once.
pub proof fn lemma_sorted_fixed(xs: Seq<Intersection>)
    requires
        ascending(xs),
    ensures
        sorted_by_distance(xs) == xs,
    decreases xs.len(),
{
    if xs.len() > 0 {
        let front = xs.drop_last();
        let x = xs.last();
        assert(ascending(front)) by {
            assert forall|i: int, j: int| 0 <= i <= j < front.len() implies front[i].t <= front[j].t by {
                assert(front[i] == xs[i] && front[j] == xs[j]);
            }
        }
        lemma_sorted_fixed(front);
        lemma_insertion_point(front, x.t);
        let p = insertion_point(front, x.t);
        if p < front.len() {
            assert(front[p] == xs[p]);
            assert(xs[p].t <= xs[xs.len() - 1].t);
        }
        assert(front.insert(p, x) =~= xs);
    }
}

/// How the reflectance of a surface is found from the two refractive indices
/// on its sides.
#[derive(Clone, Copy, Debug, PartialEq, Eq, Structural)]
pub enum Reflectance {
    /// All light is reflected: the reflectance is one.
    Total,
    /// The approximation is taken at the cosine of the refraction angle.
    FromRefractedAngle,
    /// The approximation is taken at the cosine of the angle between the eye
    /// and the normal.
    FromIncidentAngle,
}

/// The way to the reflectance for a ray that goes from a medium with the
/// refractive index `n1` into one with the index `n2`, `sin2_t` being the
/// squared sine of the refraction angle. Only on the way into a thinner
/// medium can all light be reflected, which it is where that squared sine is
/// above one; on that way the refraction angle is taken otherwise.
pub open spec fn reflectance_of(n1: i64, n2: i64, sin2_t: i64) -> Reflectance {
    if less(n2, n1) {
        if less(ONE, sin2_t) {
            Reflectance::Total
        } else {
            Reflectance::FromRefractedAngle
        }
    } else {
        Reflectance::FromIncidentAngle
    }
}

/// Decides how the reflectance of a surface is found.
pub fn schlick(n1: i64, n2: i64, sin2_t: i64) -> (way: Reflectance)
    ensures
        way == reflectance_of(n1, n2, sin2_t),
{
    if lt(n2, n1) {
        if lt(ONE, sin2_t) {
            Reflectance::Total
        } else {
            Reflectance::FromRefractedAngle
        }
    } else {
        Reflectance::FromIncidentAngle
    }
}

/// Sorting changes neither whether there is a hit nor how far it is: the
/// hit among sorted crossings is as near as the hit among the same crossings
/// in any order, and stands before every other crossing in front of the
/// origin.
pub proof fn lemma_hit_of_sorted(xs: Seq<Intersection>, i: int, j: int)
    requires
        is_nearest(xs, i),
        is_nearest(sorted_by_distance(xs), j),
    ensures
        xs[i].t == sorted_by_distance(xs)[j].t,
        forall|k: int| 0 <= k < j ==> !in_front(#[trigger] sorted_by_distance(xs)[k]),
{
    let sorted = sorted_by_distance(xs);
    lemma_sorted_permutation(xs);
    lemma_sorted_ascending(xs);
    vstd::seq_lib::to_multiset_contains(xs, xs[i]);
    vstd::seq_lib::to_multiset_contains(sorted, xs[i]);
    vstd::seq_lib::to_multiset_contains(xs, sorted[j]);
    vstd::seq_lib::to_multiset_contains(sorted, sorted[j]);
    assert(xs.contains(xs[i]));
    assert(sorted.contains(sorted[j]));
    let k = choose|k: int| 0 <= k < sorted.len() && sorted[k] == xs[i];
    let m = choose|m: int| 0 <= m < xs.len() && xs[m] == sorted[j];
    assert(in_front(sorted[k]));
    assert(in_front(xs[m]));
    assert forall|k: int| 0 <= k < j implies !in_front(#[trigger] sorted[k]) by {
        if in_front(sorted[k]) {
            assert(sorted[k].t <= sorted[j].t);
        }
    }
}

/// Where a sorted sequence has a crossing in front of the origin, the first
/// such crossing is the hit.
pub proof fn lemma_first_in_front_is_hit(xs: Seq<Intersection>, j: int)
    requires
        ascending(xs),
        0 <= j < xs.len(),
        in_front(xs[j]),
        forall|k: int| 0 <= k < j ==> !in_front(#[trigger] xs[k]),
    ensures
        is_nearest(xs, j),
{
    assert forall|k: int| 0 <= k < xs.len() && in_front(xs[k]) implies xs[j].t <= xs[k].t by {
        if k < j {
            assert(!in_front(xs[k]));
        }
    }
}

} // verus!
