use crate::material::Material;
use crate::shape::{Node, Object, Shape, IDENTITY};
use crate::triangle::{Triangle, TriangleKind};
use crate::tuple::Tuple;
use vstd::prelude::*;

verus! {

/// One corner of a face: the positions, counted from zero, of its vertex and,
/// where the face names them, of its texture vertex and of its normal.
#[derive(Clone, Copy, Debug, PartialEq, Eq, Structural)]
pub struct FaceVertex {
    pub vertex: usize,
    pub texture: Option<usize>,
    pub normal: Option<usize>,
}

/// The positions of the normals at the three corners of a triangle.
#[derive(Clone, Copy, Debug, PartialEq, Eq, Structural)]
pub struct Normals {
    pub n1: usize,
    pub n2: usize,
    pub n3: usize,
}

/// A triangle cut from a face: the positions of its three vertices, and of
/// their normals where all three corners have one.
#[derive(Clone, Copy, Debug, PartialEq, Eq, Structural)]
pub struct FaceTriangle {
    pub p1: usize,
    pub p2: usize,
    pub p3: usize,
    pub normals: Option<Normals>,
}

/// The triangle of the corners `a`, `b` and `c`: smooth where each corner has
/// a normal, flat otherwise.
pub open spec fn triangle_of(a: FaceVertex, b: FaceVertex, c: FaceVertex) -> FaceTriangle {
    FaceTriangle {
        p1: a.vertex,
        p2: b.vertex,
        p3: c.vertex,
        normals: match (a.normal, b.normal, c.normal) {
            (Some(n1), Some(n2), Some(n3)) => Some(Normals { n1, n2, n3 }),
            _ => None,
        },
    }
}

/// The fan of a face: triangle `i` joins the first corner with the corners
/// `i + 1` and `i + 2`.
pub open spec fn fan(face: Seq<FaceVertex>) -> Seq<FaceTriangle> {
    Seq::new(
        if face.len() >= 2 {
            (face.len() - 2) as nat
        } else {
            0
        },
        |i: int| triangle_of(face[0], face[i + 1], face[i + 2]),
    )
}

fn triangle(a: FaceVertex, b: FaceVertex, c: FaceVertex) -> (t: FaceTriangle)
    ensures
        t == triangle_of(a, b, c),
{
    let normals = match (a.normal, b.normal, c.normal) {
        (Some(n1), Some(n2), Some(n3)) => Some(Normals { n1, n2, n3 }),
        _ => None,
    };
    FaceTriangle { p1: a.vertex, p2: b.vertex, p3: c.vertex, normals }
}

/// Cuts a face into triangles that all share its first corner. A face of
/// fewer than three corners gives none.
pub fn triangulate(face: &Vec<FaceVertex>) -> (triangles: Vec<FaceTriangle>)
    ensures
        triangles@ == fan(face@),
{
    let mut triangles: Vec<FaceTriangle> = Vec::new();
    if face.len() < 3 {
        assert(triangles@ =~= fan(face@));
        return triangles;
    }
    let start = face[0];
    let last = face.len() - 1;
    let mut i: usize = 1;
    while i < last
        invariant
            1 <= i <= last,
            last == face@.len() - 1,
            start == face@[0],
            triangles@.len() == i - 1,
            forall|k: int| 0 <= k < i - 1 ==> triangles@[k] == triangle_of(face@[0], face@[k + 1], face@[k + 2]),
        decreases last - i,
    {
        triangles.push(triangle(start, face[i], face[i + 1]));
        i = i + 1;
    }
    assert(triangles@ =~= fan(face@));
    triangles
}

/// Whether the character is a decimal digit.
pub open spec fn is_digit(c: u8) -> bool {
    48 <= c <= 57
}

/// The number that a run of decimal digits writes.
pub open spec fn value(digits: Seq<u8>) -> nat
    decreases digits.len(),
{
    if digits.len() == 0 {
        0
    } else {
        value(digits.drop_last()) * 10 + (digits.last() - 48) as nat
    }
}

/// The number that a run of characters writes, if they are decimal digits,
/// at least one, and write a number that a machine word holds.
pub open spec fn digits_number(digits: Seq<u8>) -> Option<usize> {
    if digits.len() > 0 && (forall|i: int| 0 <= i < digits.len() ==> is_digit(#[trigger] digits[i])) && value(
        digits,
    ) <= usize::MAX {
        Some(value(digits) as usize)
    } else {
        None
    }
}

/// The number that a text writes, if it writes one: decimal digits after a
/// plus sign or without one.
pub open spec fn number_of(text: Seq<u8>) -> Option<usize> {
    if text.len() > 0 && text[0] == 43 {
        digits_number(text.drop_first())
    } else {
        digits_number(text)
    }
}

/// The place of the first slash at or behind `from`, or the length of the
/// text where there is none.
pub open spec fn slash(text: Seq<u8>, from: int) -> int
    decreases text.len() - from,
{
    if from >= text.len() {
        text.len() as int
    } else if text[from] == 47 {
        from
    } else {
        slash(text, from + 1)
    }
}

/// A position counted from one as a position counted from zero; a position
/// of zero is none.
pub open spec fn from_one(position: Option<usize>) -> Option<usize> {
    match position {
        Some(n) => if n >= 1 {
            Some((n - 1) as usize)
        } else {
            None
        },
        None => None,
    }
}

/// Whether the field is a number that is no position: zero.
pub open spec fn is_zero(position: Option<usize>) -> bool {
    position == Some(0usize)
}

/// The corner that a text such as `7`, `7/2`, `7//3` or `7/2/3` names: the
/// positions of a vertex, of a texture vertex and of a normal, parted by
/// slashes and counted from one. The vertex has to be there. The other two
/// may be missing or left empty, and are passed over where they are no
/// numbers. A position of zero names nothing, so a text that holds one names
/// no corner.
pub open spec fn corner_of(text: Seq<u8>) -> Option<FaceVertex> {
    let first = slash(text, 0);
    let second = slash(text, first + 1);
    let third = slash(text, second + 1);
    let vertex = number_of(text.subrange(0, first));
    let texture = if first < text.len() {
        number_of(text.subrange(first + 1, second))
    } else {
        None
    };
    let normal = if second < text.len() {
        number_of(text.subrange(second + 1, third))
    } else {
        None
    };
    if vertex.is_none() || is_zero(vertex) || is_zero(texture) || is_zero(normal) {
        None
    } else {
        Some(FaceVertex { vertex: from_one(vertex)->0, texture: from_one(texture), normal: from_one(normal) })
    }
}

/// A run of digits writes no smaller number than its beginning does.
pub proof fn lemma_value_grows(digits: Seq<u8>, n: int)
    requires
        0 <= n <= digits.len(),
        forall|i: int| 0 <= i < digits.len() ==> is_digit(#[trigger] digits[i]),
    ensures
        value(digits.take(n)) <= value(digits),
    decreases digits.len() - n,
{
    if n < digits.len() {
        lemma_value_grows(digits, n + 1);
        assert(digits.take(n + 1).drop_last() =~= digits.take(n));
        assert(is_digit(digits[n]));
    } else {
        assert(digits.take(n) =~= digits);
    }
}

/// `slash` gives the least place of a slash at or behind `from`.
pub proof fn lemma_slash(text: Seq<u8>, from: int)
    requires
        0 <= from,
    ensures
        from <= slash(text, from) || slash(text, from) == text.len(),
        slash(text, from) <= text.len(),
        slash(text, from) < text.len() ==> text[slash(text, from)] == 47,
        forall|i: int| from <= i < slash(text, from) ==> text[i] != 47,
    decreases text.len() - from,
{
    if from < text.len() && text[from] != 47 {
        lemma_slash(text, from + 1);
    }
}

fn find_slash(text: &[u8], from: usize) -> (place: usize)
    ensures
        place == slash(text@, from as int),
        place <= text@.len(),
        from <= text@.len() ==> from <= place,
{
    let mut i = from;
    proof {
        lemma_slash(text@, from as int);
    }
    while i < text.len() && text[i] != 47
        invariant
            from <= i,
            slash(text@, i as int) == slash(text@, from as int),
        decreases text@.len() - i,
    {
        i = i + 1;
    }
    if i >= text.len() {
        text.len()
    } else {
        i
    }
}

/// Reads the number that the characters from `from` up to `to` write.
pub fn parse_number(text: &[u8], from: usize, to: usize) -> (number: Option<usize>)
    requires
        from <= to <= text@.len(),
    ensures
        number == number_of(text@.subrange(from as int, to as int)),
{
    let ghost whole = text@.subrange(from as int, to as int);
    let mut i = from;
    if i < to && text[i] == 43 {
        i = i + 1;
    }
    let ghost digits = text@.subrange(i as int, to as int);
    assert(digits =~= if whole.len() > 0 && whole[0] == 43 {
        whole.drop_first()
    } else {
        whole
    });
    if i == to {
        return None;
    }
    let start = i;
    let mut acc: usize = 0;
    while i < to
        invariant
            start <= i <= to <= text@.len(),
            digits == text@.subrange(start as int, to as int),
            number_of(text@.subrange(from as int, to as int)) == digits_number(digits),
            forall|j: int| 0 <= j < i - start ==> is_digit(#[trigger] digits[j]),
            acc == value(digits.take(i - start)),
        decreases to - i,
    {
        let c = text[i];
        assert(c == digits[i - start]);
        if c < 48 || c > 57 {
            return None;
        }
        let d: usize = (c - 48) as usize;
        assert(digits.take(i - start + 1).drop_last() =~= digits.take(i - start));
        if acc > (usize::MAX - d) / 10 {
            proof {
                // the digits read so far write too large a number, and the
                // rest can only add to it
                if forall|j: int| 0 <= j < digits.len() ==> is_digit(#[trigger] digits[j]) {
                    lemma_value_grows(digits, i - start + 1);
                }
            }
            return None;
        }
        acc = acc * 10 + d;
        i = i + 1;
    }
    assert(digits.take(to - start) =~= digits);
    Some(acc)
}

/// Reads one corner of a face.
pub fn face_vertex(text: &[u8]) -> (corner: Option<FaceVertex>)
    ensures
        corner == corner_of(text@),
{
    let first = find_slash(text, 0);
    let vertex = parse_number(text, 0, first);
    let mut texture: Option<usize> = None;
    let mut normal: Option<usize> = None;
    let ghost second_place = slash(text@, first + 1);
    if first < text.len() {
        let second = find_slash(text, first + 1);
        texture = parse_number(text, first + 1, second);
        if second < text.len() {
            let third = find_slash(text, second + 1);
            normal = parse_number(text, second + 1, third);
        }
    } else {
        proof {
            // without a first slash there is no second
            assert(slash(text@, first + 1) == text@.len());
        }
    }
    let vertex = match vertex {
        Some(n) => {
            if n == 0 {
                return None;
            }
            n - 1
        },
        None => {
            return None;
        },
    };
    let texture = match texture {
        Some(n) => {
            if n == 0 {
                return None;
            }
            Some(n - 1)
        },
        None => None,
    };
    let normal = match normal {
        Some(n) => {
            if n == 0 {
                return None;
            }
            Some(n - 1)
        },
        None => None,
    };
    Some(FaceVertex { vertex, texture, normal })
}

/// Whether the character parts words: a blank, a tabulator, a line feed, a
/// form feed or a carriage return.
pub open spec fn is_space(c: u8) -> bool {
    c == 32 || c == 9 || c == 10 || c == 12 || c == 13
}

/// The word that has begun at `start`, if one has, up to `end`.
pub open spec fn pending(text: Seq<u8>, start: Option<int>, end: int) -> Seq<Seq<u8>> {
    match start {
        Some(a) => seq![text.subrange(a, end)],
        None => Seq::empty(),
    }
}

/// The words of the text from `from` on, a word being a run of characters
/// that are no spaces; `start` is where a word that has begun before `from`
/// has begun.
pub open spec fn words_from(text: Seq<u8>, from: int, start: Option<int>) -> Seq<Seq<u8>>
    decreases text.len() - from,
{
    if from >= text.len() {
        pending(text, start, text.len() as int)
    } else if is_space(text[from]) {
        pending(text, start, from) + words_from(text, from + 1, None)
    } else {
        words_from(
            text,
            from + 1,
            if start.is_none() {
                Some(from)
            } else {
                start
            },
        )
    }
}

/// The words of the text.
pub open spec fn words(text: Seq<u8>) -> Seq<Seq<u8>> {
    words_from(text, 0, None)
}

/// The corners that the words of a face record name, if there is a word and
/// each word names a corner.
pub open spec fn corners_of(text: Seq<u8>) -> Option<Seq<FaceVertex>> {
    let all = words(text);
    if all.len() > 0 && (forall|k: int| 0 <= k < all.len() ==> (#[trigger] corner_of(all[k])).is_some()) {
        Some(Seq::new(all.len(), |k: int| corner_of(all[k])->0))
    } else {
        None
    }
}

/// The triangles of a face record, which names the corners of a face in
/// their order round it: the fan of the corners.
pub open spec fn face_of(text: Seq<u8>) -> Option<Seq<FaceTriangle>> {
    match corners_of(text) {
        Some(corners) => Some(fan(corners)),
        None => None,
    }
}

/// Reads a face record, the text behind the letter that marks it, and cuts
/// the face into triangles. A record that names no corner, or holds a word
/// that names none, gives nothing.
pub fn parse_face(text: &[u8]) -> (triangles: Option<Vec<FaceTriangle>>)
    ensures
        triangles.is_some() == face_of(text@).is_some(),
        triangles matches Some(found) ==> found@ == face_of(text@)->0,
{
    let mut corners: Vec<FaceVertex> = Vec::new();
    let ghost mut done: Seq<Seq<u8>> = Seq::empty();
    let mut start: Option<usize> = None;
    let mut i: usize = 0;
    while i < text.len()
        invariant
            0 <= i <= text@.len(),
            start matches Some(a) ==> a < i,
            done + words_from(
                text@,
                i as int,
                match start {
                    Some(a) => Some(a as int),
                    None => None,
                },
            ) == words(text@),
            corners@.len() == done.len(),
            forall|k: int| 0 <= k < done.len() ==> corner_of(done[k]) == Some(#[trigger] corners@[k]),
        decreases text@.len() - i,
    {
        let c = text[i];
        if c == 32 || c == 9 || c == 10 || c == 12 || c == 13 {
            if let Some(a) = start {
                let word = vstd::slice::slice_subrange(text, a, i);
                let ghost rest = words_from(text@, i + 1, None);
                assert(done + (seq![word@] + rest) =~= done.push(word@) + rest);
                match face_vertex(word) {
                    Some(corner) => {
                        corners.push(corner);
                        proof {
                            done = done.push(word@);
                        }
                    },
                    None => {
                        proof {
                            assert(words(text@)[done.len() as int] == word@);
                        }
                        return None;
                    },
                }
                start = None;
            } else {
                assert(Seq::<Seq<u8>>::empty() + words_from(text@, i + 1, None) =~= words_from(text@, i + 1, None));
            }
        } else if start.is_none() {
            start = Some(i);
        }
        i = i + 1;
    }
    if let Some(a) = start {
        let word = vstd::slice::slice_subrange(text, a, i);
        assert(done + seq![word@] =~= done.push(word@));
        match face_vertex(word) {
            Some(corner) => {
                corners.push(corner);
                proof {
                    done = done.push(word@);
                }
            },
            None => {
                proof {
                    assert(words(text@)[done.len() as int] == word@);
                }
                return None;
            },
        }
    } else {
        assert(done + Seq::<Seq<u8>>::empty() =~= done);
    }
    assert(done == words(text@));
    if corners.len() == 0 {
        return None;
    }
    proof {
        let all = words(text@);
        assert forall|k: int| 0 <= k < all.len() implies (#[trigger] corner_of(all[k])).is_some() by {
            assert(corner_of(done[k]) == Some(corners@[k]));
        }
        assert(corners_of(text@).is_some());
        assert forall|k: int| 0 <= k < all.len() implies corners@[k] == corners_of(text@)->0[k] by {
            assert(corner_of(done[k]) == Some(corners@[k]));
        }
        assert(corners@ =~= corners_of(text@)->0);
    }
    Some(triangulate(&corners))
}

/// One line of a model file.
#[derive(Clone, Debug, PartialEq, Eq)]
pub enum Record {
    /// A vertex: the words behind the letter, which write its coordinates.
    Vertex(Vec<Vec<u8>>),
    /// A vertex normal: the words behind the letters, which write its
    /// coordinates.
    Normal(Vec<Vec<u8>>),
    /// A face, cut into triangles; nothing where the line names no corners.
    Face(Option<Vec<FaceTriangle>>),
    /// The name of the group that the faces below belong to.
    Group(Vec<u8>),
    /// Any other line: it is passed over.
    Other,
}

/// A line of a model file as a mathematical value.
pub ghost enum Entry {
    Vertex(Seq<Seq<u8>>),
    Normal(Seq<Seq<u8>>),
    Face(Option<Seq<FaceTriangle>>),
    Group(Seq<u8>),
    Other,
}

/// The texts that the vectors hold.
pub open spec fn texts(words: Vec<Vec<u8>>) -> Seq<Seq<u8>> {
    Seq::new(words@.len(), |k: int| words@[k]@)
}

impl Record {
    /// The record as a mathematical value.
    pub open spec fn view(&self) -> Entry {
        match self {
            Record::Vertex(words) => Entry::Vertex(texts(*words)),
            Record::Normal(words) => Entry::Normal(texts(*words)),
            Record::Face(Some(triangles)) => Entry::Face(Some(triangles@)),
            Record::Face(None) => Entry::Face(None),
            Record::Group(name) => Entry::Group(name@),
            Record::Other => Entry::Other,
        }
    }
}

/// The place of the first blank, or the length of the text where there is
/// none.
pub open spec fn blank(text: Seq<u8>, from: int) -> int
    decreases text.len() - from,
{
    if from >= text.len() {
        text.len() as int
    } else if text[from] == 32 {
        from
    } else {
        blank(text, from + 1)
    }
}

/// What a line says. The letters before its first blank tell its kind: `v`
/// a vertex, `vn` a vertex normal, `f` a face and `g` a group; the rest of
/// the line is what it holds. A line of another kind, and one without a
/// blank, says nothing.
pub open spec fn entry_of(line: Seq<u8>) -> Entry {
    let cut = blank(line, 0);
    if cut >= line.len() {
        Entry::Other
    } else {
        let kind = line.subrange(0, cut);
        let rest = line.subrange(cut + 1, line.len() as int);
        if kind == seq![118u8] {
            Entry::Vertex(words(rest))
        } else if kind == seq![118u8, 110u8] {
            Entry::Normal(words(rest))
        } else if kind == seq![102u8] {
            Entry::Face(face_of(rest))
        } else if kind == seq![103u8] {
            Entry::Group(rest)
        } else {
            Entry::Other
        }
    }
}

/// A line without the carriage return before its line feed, where it has
/// one.
pub open spec fn stripped(line: Seq<u8>) -> Seq<u8> {
    if line.len() > 0 && line.last() == 13 {
        line.drop_last()
    } else {
        line
    }
}

/// The lines of the text from `from` on, the line that holds `from` having
/// begun at `start`. A line ends at a line feed; the last line may go
/// without one, and counts where it is not empty.
pub open spec fn lines_from(text: Seq<u8>, from: int, start: int) -> Seq<Seq<u8>>
    decreases text.len() - from,
{
    if from >= text.len() {
        if start < text.len() {
            seq![text.subrange(start, text.len() as int)]
        } else {
            Seq::empty()
        }
    } else if text[from] == 10 {
        seq![stripped(text.subrange(start, from))] + lines_from(text, from + 1, from + 1)
    } else {
        lines_from(text, from + 1, start)
    }
}

/// What the lines of a model file say, line by line.
pub open spec fn entries_of(contents: Seq<u8>) -> Seq<Entry> {
    let lines = lines_from(contents, 0, 0);
    Seq::new(lines.len(), |k: int| entry_of(lines[k]))
}

fn copy(text: &[u8], from: usize, to: usize) -> (part: Vec<u8>)
    requires
        from <= to <= text@.len(),
    ensures
        part@ == text@.subrange(from as int, to as int),
{
    let mut part: Vec<u8> = Vec::new();
    let mut i = from;
    while i < to
        invariant
            from <= i <= to <= text@.len(),
            part@ == text@.subrange(from as int, i as int),
        decreases to - i,
    {
        part.push(text[i]);
        assert(text@.subrange(from as int, i + 1) =~= text@.subrange(from as int, i as int).push(text@[i as int]));
        i = i + 1;
    }
    part
}

/// Splits a text into its words.
pub fn split_words(text: &[u8]) -> (found: Vec<Vec<u8>>)
    ensures
        texts(found) == words(text@),
{
    let mut found: Vec<Vec<u8>> = Vec::new();
    let mut start: Option<usize> = None;
    let mut i: usize = 0;
    while i < text.len()
        invariant
            0 <= i <= text@.len(),
            start matches Some(a) ==> a < i,
            texts(found) + words_from(
                text@,
                i as int,
                match start {
                    Some(a) => Some(a as int),
                    None => None,
                },
            ) == words(text@),
        decreases text@.len() - i,
    {
        let c = text[i];
        if c == 32 || c == 9 || c == 10 || c == 12 || c == 13 {
            if let Some(a) = start {
                let ghost before = texts(found);
                let ghost rest = words_from(text@, i + 1, None);
                let word = copy(text, a, i);
                assert(before + (seq![word@] + rest) =~= before.push(word@) + rest);
                found.push(word);
                assert(texts(found) =~= before.push(word@));
                start = None;
            } else {
                assert(Seq::<Seq<u8>>::empty() + words_from(text@, i + 1, None) =~= words_from(text@, i + 1, None));
            }
        } else if start.is_none() {
            start = Some(i);
        }
        i = i + 1;
    }
    if let Some(a) = start {
        let ghost before = texts(found);
        let word = copy(text, a, i);
        found.push(word);
        assert(texts(found) =~= before.push(word@));
        assert(before + seq![word@] =~= before.push(word@));
    } else {
        assert(texts(found) + Seq::<Seq<u8>>::empty() =~= texts(found));
    }
    found
}

/// `blank` gives the least place of a blank at or behind `from`.
pub proof fn lemma_blank(text: Seq<u8>, from: int)
    requires
        0 <= from <= text.len(),
    ensures
        from <= blank(text, from) <= text.len(),
        blank(text, from) < text.len() ==> text[blank(text, from)] == 32,
        forall|i: int| from <= i < blank(text, from) ==> text[i] != 32,
    decreases text.len() - from,
{
    if from < text.len() && text[from] != 32 {
        lemma_blank(text, from + 1);
    }
}

/// Reads one line of a model file.
pub fn parse_line(line: &[u8]) -> (record: Record)
    ensures
        record@ == entry_of(line@),
{
    let mut cut: usize = 0;
    proof {
        lemma_blank(line@, 0);
    }
    while cut < line.len() && line[cut] != 32
        invariant
            0 <= cut <= line@.len(),
            blank(line@, cut as int) == blank(line@, 0),
        decreases line@.len() - cut,
    {
        cut = cut + 1;
    }
    if cut >= line.len() {
        return Record::Other;
    }
    let ghost kind = line@.subrange(0, cut as int);
    let rest = vstd::slice::slice_subrange(line, cut + 1, line.len());
    assert(cut == blank(line@, 0));
    assert(seq![118u8][0] == 118 && seq![102u8][0] == 102 && seq![103u8][0] == 103);
    assert(seq![118u8, 110u8][0] == 118 && seq![118u8, 110u8][1] == 110);
    if cut == 1 && line[0] == 118 {
        assert(kind =~= seq![118u8]);
        let record = Record::Vertex(split_words(rest));
        assert(record@ == entry_of(line@));
        record
    } else if cut == 2 && line[0] == 118 && line[1] == 110 {
        assert(kind =~= seq![118u8, 110u8]);
        let record = Record::Normal(split_words(rest));
        assert(record@ == entry_of(line@));
        record
    } else if cut == 1 && line[0] == 102 {
        assert(kind =~= seq![102u8]);
        let record = Record::Face(parse_face(rest));
        assert(record@ == entry_of(line@));
        record
    } else if cut == 1 && line[0] == 103 {
        assert(kind =~= seq![103u8]);
        let record = Record::Group(copy(rest, 0, rest.len()));
        assert(rest@.subrange(0, rest@.len() as int) =~= rest@);
        assert(record@ == entry_of(line@));
        record
    } else {
        proof {
            if kind == seq![118u8] || kind == seq![102u8] || kind == seq![103u8] {
                assert(kind.len() == 1 && kind[0] == line@[0]);
            }
            if kind == seq![118u8, 110u8] {
                assert(kind.len() == 2 && kind[0] == line@[0] && kind[1] == line@[1]);
            }
        }
        let record = Record::Other;
        assert(record@ == entry_of(line@));
        record
    }
}

/// Reads a model file: its lines, each as what it says.
pub fn from_file_contents(contents: &[u8]) -> (records: Vec<Record>)
    ensures
        records@.len() == entries_of(contents@).len(),
        forall|k: int| 0 <= k < records@.len() ==> (#[trigger] records@[k])@ == entries_of(contents@)[k],
{
    let mut records: Vec<Record> = Vec::new();
    let ghost mut done: Seq<Seq<u8>> = Seq::empty();
    let mut start: usize = 0;
    let mut i: usize = 0;
    while i < contents.len()
        invariant
            0 <= start <= i <= contents@.len(),
            done + lines_from(contents@, i as int, start as int) == lines_from(contents@, 0, 0),
            records@.len() == done.len(),
            forall|k: int| 0 <= k < done.len() ==> (#[trigger] records@[k])@ == entry_of(done[k]),
        decreases contents@.len() - i,
    {
        if contents[i] == 10 {
            let mut end = i;
            if start < end && contents[end - 1] == 13 {
                end = end - 1;
            }
            let line = vstd::slice::slice_subrange(contents, start, end);
            proof {
                let whole = contents@.subrange(start as int, i as int);
                assert(line@ =~= stripped(whole));
                let rest = lines_from(contents@, i + 1, i + 1);
                assert(done + (seq![line@] + rest) =~= done.push(line@) + rest);
                done = done.push(line@);
            }
            records.push(parse_line(line));
            start = i + 1;
        }
        i = i + 1;
    }
    if start < contents.len() {
        let line = vstd::slice::slice_subrange(contents, start, contents.len());
        proof {
            assert(done + seq![line@] =~= done.push(line@));
            done = done.push(line@);
        }
        records.push(parse_line(line));
    } else {
        assert(done + Seq::<Seq<u8>>::empty() =~= done);
    }
    assert(done == lines_from(contents@, 0, 0));
    records
}

/// The triangles that were read under one group name.
#[derive(Clone, Debug, PartialEq, Eq)]
pub struct Group {
    pub name: Vec<u8>,
    pub triangles: Vec<Triangle>,
}

/// A group as a mathematical value.
pub ghost struct Named {
    pub name: Seq<u8>,
    pub triangles: Seq<Triangle>,
}

/// A model under construction: the vertices and the normals read so far,
/// the groups with the triangles of their faces, in the order in which each
/// got its first triangle, and the name of the group that the next face
/// belongs to.
#[derive(Clone, Debug, PartialEq, Eq)]
pub struct WavefrontObj {
    pub groups: Vec<Group>,
    pub vertices: Vec<Tuple>,
    pub normals: Vec<Tuple>,
    pub current_group: Vec<u8>,
}

/// The groups as mathematical values.
pub open spec fn named(groups: Seq<Group>) -> Seq<Named> {
    Seq::new(groups.len(), |k: int| Named { name: groups[k].name@, triangles: groups[k].triangles@ })
}

/// The triangle of a face with its corners looked up among the vertices and
/// the normals, where each of them is there.
pub open spec fn resolved(face: FaceTriangle, vertices: Seq<Tuple>, normals: Seq<Tuple>) -> Option<Triangle> {
    if face.p1 < vertices.len() && face.p2 < vertices.len() && face.p3 < vertices.len() {
        match face.normals {
            Some(n) => if n.n1 < normals.len() && n.n2 < normals.len() && n.n3 < normals.len() {
                Some(
                    Triangle {
                        p1: vertices[face.p1 as int],
                        p2: vertices[face.p2 as int],
                        p3: vertices[face.p3 as int],
                        kind: TriangleKind::Smooth {
                            n1: normals[n.n1 as int],
                            n2: normals[n.n2 as int],
                            n3: normals[n.n3 as int],
                        },
                    },
                )
            } else {
                None
            },
            None => Some(
                Triangle {
                    p1: vertices[face.p1 as int],
                    p2: vertices[face.p2 as int],
                    p3: vertices[face.p3 as int],
                    kind: TriangleKind::Flat,
                },
            ),
        }
    } else {
        None
    }
}

/// The place of the group with the name `name`, or the number of groups
/// where there is none.
pub open spec fn group_place(groups: Seq<Named>, name: Seq<u8>) -> int
    decreases groups.len(),
{
    if groups.len() == 0 {
        0
    } else if groups[0].name == name {
        0
    } else {
        1 + group_place(groups.drop_first(), name)
    }
}

/// The groups with one more triangle in the group `name`, which comes last
/// where it is new.
pub open spec fn with_triangle(groups: Seq<Named>, name: Seq<u8>, triangle: Triangle) -> Seq<Named> {
    let place = group_place(groups, name);
    if place < groups.len() {
        groups.update(place, Named { name, triangles: groups[place].triangles.push(triangle) })
    } else {
        groups.push(Named { name, triangles: seq![triangle] })
    }
}

/// The groups with the first `n` triangles of a face in the group `name`,
/// as far as their corners are there; nothing where one is missing.
pub open spec fn with_face(
    groups: Seq<Named>,
    name: Seq<u8>,
    face: Seq<FaceTriangle>,
    n: int,
    vertices: Seq<Tuple>,
    normals: Seq<Tuple>,
) -> Option<Seq<Named>>
    decreases n,
{
    if n <= 0 {
        Some(groups)
    } else {
        match (with_face(groups, name, face, n - 1, vertices, normals), resolved(face[n - 1], vertices, normals)) {
            (Some(before), Some(triangle)) => Some(with_triangle(before, name, triangle)),
            _ => None,
        }
    }
}

/// `group_place` gives the least place of a group with the name.
pub proof fn lemma_group_place(groups: Seq<Named>, name: Seq<u8>)
    ensures
        0 <= group_place(groups, name) <= groups.len(),
        group_place(groups, name) < groups.len() ==> groups[group_place(groups, name)].name == name,
        forall|k: int| 0 <= k < group_place(groups, name) ==> groups[k].name != name,
    decreases groups.len(),
{
    if groups.len() > 0 && groups[0].name != name {
        lemma_group_place(groups.drop_first(), name);
        assert forall|k: int| 0 <= k < group_place(groups, name) implies groups[k].name != name by {
            if k > 0 {
                assert(groups.drop_first()[k - 1] == groups[k]);
            }
        }
    }
}

fn same_text(a: &Vec<u8>, b: &Vec<u8>) -> (same: bool)
    ensures
        same == (a@ == b@),
{
    if a.len() != b.len() {
        return false;
    }
    let mut i: usize = 0;
    while i < a.len()
        invariant
            0 <= i <= a@.len(),
            a@.len() == b@.len(),
            forall|k: int| 0 <= k < i ==> a@[k] == b@[k],
        decreases a@.len() - i,
    {
        if a[i] != b[i] {
            return false;
        }
        i = i + 1;
    }
    assert(a@ =~= b@);
    true
}

fn copy_text(text: &Vec<u8>) -> (same: Vec<u8>)
    ensures
        same@ == text@,
{
    let mut same: Vec<u8> = Vec::new();
    let mut i: usize = 0;
    while i < text.len()
        invariant
            0 <= i <= text@.len(),
            same@ == text@.take(i as int),
        decreases text@.len() - i,
    {
        same.push(text[i]);
        assert(text@.take(i + 1) =~= text@.take(i as int).push(text@[i as int]));
        i = i + 1;
    }
    assert(text@.take(text@.len() as int) =~= text@);
    same
}

impl WavefrontObj {
    /// A model without vertices, normals and faces. Faces belong to the
    /// group `default` until a group is named.
    pub fn new() -> (model: Self)
        ensures
            model.groups@.len() == 0,
            model.vertices@.len() == 0,
            model.normals@.len() == 0,
            model.current_group@ == seq![100u8, 101u8, 102u8, 97u8, 117u8, 108u8, 116u8],
    {
        let mut name: Vec<u8> = Vec::new();
        name.push(100);
        name.push(101);
        name.push(102);
        name.push(97);
        name.push(117);
        name.push(108);
        name.push(116);
        assert(name@ =~= seq![100u8, 101u8, 102u8, 97u8, 117u8, 108u8, 116u8]);
        Self { groups: Vec::new(), vertices: Vec::new(), normals: Vec::new(), current_group: name }
    }

    /// Adds a vertex behind those that are there.
    pub fn add_vertex(&mut self, vertex: Tuple)
        ensures
            final(self).vertices@ == old(self).vertices@.push(vertex),
            final(self).normals == old(self).normals,
            final(self).groups == old(self).groups,
            final(self).current_group == old(self).current_group,
    {
        self.vertices.push(vertex);
    }

    /// Adds a normal behind those that are there.
    pub fn add_normal(&mut self, normal: Tuple)
        ensures
            final(self).normals@ == old(self).normals@.push(normal),
            final(self).vertices == old(self).vertices,
            final(self).groups == old(self).groups,
            final(self).current_group == old(self).current_group,
    {
        self.normals.push(normal);
    }

    /// Names the group that the faces from now on belong to.
    pub fn set_group(&mut self, name: Vec<u8>)
        ensures
            final(self).current_group == name,
            final(self).vertices == old(self).vertices,
            final(self).normals == old(self).normals,
            final(self).groups == old(self).groups,
    {
        self.current_group = name;
    }

    fn add_triangle(&mut self, triangle: Triangle)
        ensures
            named(final(self).groups@) == with_triangle(
                named(old(self).groups@),
                old(self).current_group@,
                triangle,
            ),
            final(self).vertices == old(self).vertices,
            final(self).normals == old(self).normals,
            final(self).current_group == old(self).current_group,
    {
        let ghost before = named(self.groups@);
        let ghost name = self.current_group@;
        proof {
            lemma_group_place(before, name);
        }
        let mut place: usize = 0;
        let mut found = false;
        while place < self.groups.len() && !found
            invariant
                0 <= place <= self.groups@.len(),
                before == named(self.groups@),
                name == self.current_group@,
                *self == *old(self),
                forall|k: int| 0 <= k < place ==> before[k].name != name,
                found ==> place < self.groups@.len() && before[place as int].name == name,
            decreases self.groups@.len() - place + (if found { 0int } else { 1int }),
        {
            if same_text(&self.groups[place].name, &self.current_group) {
                found = true;
            } else {
                place = place + 1;
            }
        }
        proof {
            lemma_group_place(before, name);
            assert(place == group_place(before, name));
        }
        if place < self.groups.len() {
            let ghost groups = self.groups@;
            let mut group = self.groups.remove(place);
            let ghost rest = self.groups@;
            group.triangles.push(triangle);
            self.groups.insert(place, group);
            proof {
                let after = with_triangle(before, name, triangle);
                assert(self.groups@.len() == groups.len());
                assert forall|k: int| 0 <= k < groups.len() implies named(self.groups@)[k] == after[k] by {
                    if k < place {
                        assert(self.groups@[k] == rest[k] && rest[k] == groups[k]);
                    } else if k > place {
                        assert(self.groups@[k] == rest[k - 1] && rest[k - 1] == groups[k]);
                    } else {
                        assert(self.groups@[k] == group);
                        assert(group.name@ == groups[k].name@);
                    }
                    assert(before[k] == Named { name: groups[k].name@, triangles: groups[k].triangles@ });
                }
                assert(before.len() == groups.len());
                assert(after.len() == before.len());
                assert(named(self.groups@).len() == groups.len());
                assert(named(self.groups@) =~= after);
            }
            assert(named(self.groups@) =~= with_triangle(before, name, triangle));
        } else {
            let ghost groups = self.groups@;
            let mut triangles: Vec<Triangle> = Vec::new();
            triangles.push(triangle);
            assert(triangles@ =~= seq![triangle]);
            let group = Group { name: copy_text(&self.current_group), triangles };
            self.groups.push(group);
            proof {
                let after = with_triangle(before, name, triangle);
                assert forall|k: int| 0 <= k < after.len() implies named(self.groups@)[k] == after[k] by {
                    if k < groups.len() {
                        assert(self.groups@[k] == groups[k]);
                        assert(before[k] == Named { name: groups[k].name@, triangles: groups[k].triangles@ });
                    }
                }
                assert(named(self.groups@) =~= after);
            }
        }
    }

    /// Looks the corners of a triangle of a face up among the vertices and
    /// the normals.
    pub fn resolve(&self, face: &FaceTriangle) -> (triangle: Option<Triangle>)
        ensures
            triangle == resolved(*face, self.vertices@, self.normals@),
    {
        let count = self.vertices.len();
        if face.p1 >= count || face.p2 >= count || face.p3 >= count {
            return None;
        }
        let p1 = self.vertices[face.p1];
        let p2 = self.vertices[face.p2];
        let p3 = self.vertices[face.p3];
        match face.normals {
            Some(n) => {
                let count = self.normals.len();
                if n.n1 >= count || n.n2 >= count || n.n3 >= count {
                    return None;
                }
                Some(Triangle::smooth(p1, p2, p3, self.normals[n.n1], self.normals[n.n2], self.normals[n.n3]))
            },
            None => Some(Triangle::new(p1, p2, p3)),
        }
    }

    /// Adds the triangles of a face to the group that is named. Where a
    /// corner names a vertex or a normal that is not there, nothing is added
    /// and the answer is no.
    pub fn add_face(&mut self, face: &Vec<FaceTriangle>) -> (added: bool)
        ensures
            final(self).vertices == old(self).vertices,
            final(self).normals == old(self).normals,
            final(self).current_group == old(self).current_group,
            added == with_face(
                named(old(self).groups@),
                old(self).current_group@,
                face@,
                face@.len() as int,
                old(self).vertices@,
                old(self).normals@,
            ).is_some(),
            added ==> Some(named(final(self).groups@)) == with_face(
                named(old(self).groups@),
                old(self).current_group@,
                face@,
                face@.len() as int,
                old(self).vertices@,
                old(self).normals@,
            ),
            !added ==> final(self).groups == old(self).groups,
    {
        let ghost start = named(self.groups@);
        let mut triangles: Vec<Triangle> = Vec::new();
        let mut i: usize = 0;
        while i < face.len()
            invariant
                0 <= i <= face@.len(),
                *self == *old(self),
                start == named(old(self).groups@),
                triangles@.len() == i,
                forall|k: int|
                    0 <= k < i ==> resolved(face@[k], self.vertices@, self.normals@) == Some(
                        #[trigger] triangles@[k],
                    ),
            decreases face@.len() - i,
        {
            match self.resolve(&face[i]) {
                Some(triangle) => {
                    triangles.push(triangle);
                },
                None => {
                    proof {
                        lemma_with_face_needs_each(
                            start,
                            self.current_group@,
                            face@,
                            face@.len() as int,
                            self.vertices@,
                            self.normals@,
                            i as int,
                        );
                    }
                    return false;
                },
            }
            i = i + 1;
        }
        let mut j: usize = 0;
        while j < triangles.len()
            invariant
                0 <= j <= triangles@.len(),
                triangles@.len() == face@.len(),
                self.vertices == old(self).vertices,
                self.normals == old(self).normals,
                self.current_group == old(self).current_group,
                start == named(old(self).groups@),
                forall|k: int|
                    0 <= k < face@.len() ==> resolved(face@[k], self.vertices@, self.normals@) == Some(
                        #[trigger] triangles@[k],
                    ),
                Some(named(self.groups@)) == with_face(
                    start,
                    self.current_group@,
                    face@,
                    j as int,
                    self.vertices@,
                    self.normals@,
                ),
            decreases triangles@.len() - j,
        {
            let triangle = triangles[j];
            assert(resolved(face@[j as int], self.vertices@, self.normals@) == Some(triangle));
            self.add_triangle(triangle);
            j = j + 1;
        }
        true
    }

    /// The model as a tree: a group that holds one group for each group of
    /// the model, in their order, which holds its triangles as leaves.
    pub fn to_group(self) -> (tree: Object)
        ensures
            tree@ == model_tree(named(self.groups@)),
    {
        let mut groups: Vec<Object> = Vec::new();
        let mut i: usize = 0;
        while i < self.groups.len()
            invariant
                0 <= i <= self.groups@.len(),
                groups@.len() == i,
                forall|k: int| 0 <= k < i ==> (#[trigger] groups@[k])@ == group_tree(self.groups@[k].triangles@),
            decreases self.groups@.len() - i,
        {
            let group = &self.groups[i];
            let mut leaves: Vec<Object> = Vec::new();
            let mut j: usize = 0;
            while j < group.triangles.len()
                invariant
                    0 <= j <= group.triangles@.len(),
                    leaves@.len() == j,
                    forall|k: int|
                        0 <= k < j ==> (#[trigger] leaves@[k])@ == triangle_leaf(group.triangles@[k]),
                decreases group.triangles@.len() - j,
            {
                leaves.push(Object::new(Shape::Triangle(group.triangles[j])));
                j = j + 1;
            }
            let tree = Object::group(leaves);
            proof {
                let children = tree@->Group_children;
                assert(children =~= group_tree(group.triangles@)->Group_children);
            }
            groups.push(tree);
            i = i + 1;
        }
        let tree = Object::group(groups);
        proof {
            let children = tree@->Group_children;
            assert(children =~= model_tree(named(self.groups@))->Group_children);
        }
        tree
    }
}

/// A triangle as a leaf with the identity transform and the default
/// material.
pub open spec fn triangle_leaf(triangle: Triangle) -> Node {
    Node::Leaf { transform: IDENTITY, material: Material::standard(), shape: Shape::Triangle(triangle) }
}

/// The triangles of a group as a tree.
pub open spec fn group_tree(triangles: Seq<Triangle>) -> Node {
    Node::Group { transform: IDENTITY, children: Seq::new(triangles.len(), |k: int| triangle_leaf(triangles[k])) }
}

/// The groups of a model as a tree.
pub open spec fn model_tree(groups: Seq<Named>) -> Node {
    Node::Group { transform: IDENTITY, children: Seq::new(groups.len(), |k: int| group_tree(groups[k].triangles)) }
}

/// A face is added only where each of its triangles has its corners.
pub proof fn lemma_with_face_needs_each(
    groups: Seq<Named>,
    name: Seq<u8>,
    face: Seq<FaceTriangle>,
    n: int,
    vertices: Seq<Tuple>,
    normals: Seq<Tuple>,
    k: int,
)
    requires
        0 <= k < n <= face.len(),
        resolved(face[k], vertices, normals).is_none(),
    ensures
        with_face(groups, name, face, n, vertices, normals).is_none(),
    decreases n,
{
    if k < n - 1 {
        lemma_with_face_needs_each(groups, name, face, n - 1, vertices, normals, k);
    }
}

/// Whether no two groups have one name.
pub open spec fn distinct_names(groups: Seq<Named>) -> bool {
    forall|i: int, j: int| 0 <= i < j < groups.len() ==> groups[i].name != groups[j].name
}

/// A triangle goes into the one group of its name, which is new where there
/// was none: the names stay distinct, the other groups stay as they are, and
/// the number of triangles in the model grows by one.
pub proof fn lemma_with_triangle(groups: Seq<Named>, name: Seq<u8>, triangle: Triangle)
    requires
        distinct_names(groups),
    ensures
        distinct_names(with_triangle(groups, name, triangle)),
        groups.len() <= with_triangle(groups, name, triangle).len() <= groups.len() + 1,
        forall|k: int|
            0 <= k < groups.len() && groups[k].name != name ==> with_triangle(groups, name, triangle)[k]
                == groups[k],
        group_place(with_triangle(groups, name, triangle), name) < with_triangle(groups, name, triangle).len(),
        with_triangle(groups, name, triangle)[group_place(groups, name)].triangles.last() == triangle,
{
    lemma_group_place(groups, name);
    lemma_group_place(with_triangle(groups, name, triangle), name);
    let place = group_place(groups, name);
    let after = with_triangle(groups, name, triangle);
    assert(after[place].name == name);
}

} // verus!
