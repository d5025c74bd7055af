use vstd::prelude::*;

verus! {

/// The sign bit of a binary64 pattern.
pub const SIGN: u64 = 0x8000_0000_0000_0000;

/// The key of zero.
pub const ZERO: i64 = 0;

/// The key of one.
pub const ONE: i64 = 0x3ff0_0000_0000_0000;

/// The key of minus one.
pub const MINUS_ONE: i64 = -0x3ff0_0000_0000_0000;

/// The key of one plus the tolerance.
pub const ONE_AND_EPSILON: i64 = 0x3ff0_0000_02af_31dc;

/// The key of a tenth.
pub const TENTH: i64 = 0x3fb9_9999_9999_999a;

/// The key of nine tenths.
pub const NINE_TENTHS: i64 = 0x3fec_cccc_cccc_cccd;

/// The key of two hundred.
pub const TWO_HUNDRED: i64 = 0x4069_0000_0000_0000;

/// The key of positive infinity.
pub const INFINITY: i64 = 0x7ff0_0000_0000_0000;

/// The key of negative infinity.
pub const NEG_INFINITY: i64 = -0x7ff0_0000_0000_0000;

/// The key of the tolerance below which a number counts as zero: a
/// hundred-millionth.
pub const EPSILON: i64 = 0x3e45_798e_e230_8c3a;

/// The ordered key of a number given by its binary64 pattern: the magnitude
/// bits, read as an integer, with the sign of the number. Both zeros have the
/// key 0.
pub open spec fn key_of(bits: u64) -> int {
    if bits >= SIGN {
        -(bits - SIGN)
    } else {
        bits as int
    }
}

/// Turns a binary64 pattern into its ordered key.
///
/// The keys of numbers, the two infinities among them, compare as the numbers
/// do, and a key is negative exactly when its number is below zero. The keys
/// of the patterns that are no numbers lie beyond those of the infinities.
pub fn ordered_key(bits: u64) -> (key: i64)
    ensures
        key == key_of(bits),
        key < 0 <==> bits > SIGN,
{
    if bits >= SIGN {
        let magnitude: u64 = bits - SIGN;
        -(magnitude as i64)
    } else {
        bits as i64
    }
}

/// Turns an ordered key back into the binary64 pattern of its number; the
/// key 0 gives the positive zero. The least 64-bit integer is no key.
pub fn key_bits(key: i64) -> (bits: Option<u64>)
    ensures
        bits.is_none() <==> key == i64::MIN,
        bits matches Some(b) ==> key_of(b) == key && b != SIGN,
{
    if key >= 0 {
        Some(key as u64)
    } else if key == i64::MIN {
        None
    } else {
        Some(SIGN + ((-key) as u64))
    }
}

/// Keys are ordered by sign and magnitude: among patterns without the sign
/// bit a larger magnitude has the larger key, among patterns with it the
/// smaller key, and no pattern with the sign bit has a key above zero.
pub proof fn lemma_key_order(a: u64, b: u64)
    ensures
        a < SIGN && b < SIGN ==> (key_of(a) < key_of(b) <==> a < b),
        a >= SIGN && b >= SIGN ==> (key_of(a) < key_of(b) <==> a > b),
        a >= SIGN && b < SIGN ==> key_of(a) <= key_of(b),
        key_of(a) == key_of(b) <==> (a == b || (a == 0 && b == SIGN) || (a == SIGN && b == 0)),
{
}

/// The key of the absolute value of the number that `key` stands for. The
/// least 64-bit integer, which is no key, gives the greatest.
pub open spec fn magnitude(key: i64) -> i64 {
    if key == i64::MIN {
        i64::MAX
    } else if key < 0 {
        (-key) as i64
    } else {
        key
    }
}

/// The key of the number of `key` with the opposite sign. The least 64-bit
/// integer, which is no key, gives the greatest.
pub open spec fn negated(key: i64) -> i64 {
    if key == i64::MIN {
        i64::MAX
    } else {
        (-key) as i64
    }
}

/// Takes the absolute value of a number, both given by their keys.
pub fn abs(key: i64) -> (result: i64)
    ensures
        result == magnitude(key),
        result >= 0,
{
    if key == i64::MIN {
        i64::MAX
    } else if key < 0 {
        -key
    } else {
        key
    }
}

/// Turns the sign of a number round, both given by their keys.
pub fn neg(key: i64) -> (result: i64)
    ensures
        result == negated(key),
{
    if key == i64::MIN {
        i64::MAX
    } else {
        -key
    }
}

/// Whether `key` stands for no number: it lies beyond the keys of the
/// infinities.
pub open spec fn is_nan(key: i64) -> bool {
    key > INFINITY || key < NEG_INFINITY
}

/// Whether the first value is a number below the second, which is a number
/// too.
pub open spec fn less(a: i64, b: i64) -> bool {
    !is_nan(a) && !is_nan(b) && a < b
}

/// Whether the first value is a number not above the second, which is a
/// number too.
pub open spec fn at_most(a: i64, b: i64) -> bool {
    !is_nan(a) && !is_nan(b) && a <= b
}

/// Tells whether a key stands for no number.
pub fn nan(key: i64) -> (result: bool)
    ensures
        result == is_nan(key),
{
    key > INFINITY || key < NEG_INFINITY
}

/// Compares two values as numbers are compared with `<`: where one of them is
/// no number, the answer is no.
pub fn lt(a: i64, b: i64) -> (result: bool)
    ensures
        result == less(a, b),
{
    !nan(a) && !nan(b) && a < b
}

/// Compares two values as numbers are compared with `<=`: where one of them
/// is no number, the answer is no.
pub fn le(a: i64, b: i64) -> (result: bool)
    ensures
        result == at_most(a, b),
{
    !nan(a) && !nan(b) && a <= b
}

/// Whether a number counts as zero: its absolute value is below the
/// tolerance.
pub fn is_negligible(key: i64) -> (result: bool)
    ensures
        result <==> -EPSILON < key < EPSILON,
{
    -EPSILON < key && key < EPSILON
}

/// Comparing as numbers is strict and transitive, a value that is no number
/// is below nothing and above nothing, and of two numbers either one is
/// below the other or they are the same.
pub proof fn lemma_less(a: i64, b: i64, c: i64)
    ensures
        !less(a, a),
        less(a, b) && less(b, c) ==> less(a, c),
        is_nan(a) ==> !less(a, b) && !less(b, a) && !at_most(a, b) && !at_most(b, a),
        !is_nan(a) && !is_nan(b) ==> less(a, b) || less(b, a) || a == b,
        at_most(a, b) <==> less(a, b) || (a == b && !is_nan(a)),
{
}

/// The smaller of two keys in the order of the keys.
pub open spec fn lesser(a: i64, b: i64) -> i64 {
    if a <= b {
        a
    } else {
        b
    }
}

/// The larger of two keys in the order of the keys.
pub open spec fn greater(a: i64, b: i64) -> i64 {
    if a >= b {
        a
    } else {
        b
    }
}

/// The smaller of two numbers; where one of the values is no number, the
/// other.
pub open spec fn minimum(a: i64, b: i64) -> i64 {
    if is_nan(a) {
        b
    } else if is_nan(b) {
        a
    } else {
        lesser(a, b)
    }
}

/// The larger of two numbers; where one of the values is no number, the
/// other.
pub open spec fn maximum(a: i64, b: i64) -> i64 {
    if is_nan(a) {
        b
    } else if is_nan(b) {
        a
    } else {
        greater(a, b)
    }
}

/// Takes the smaller of two numbers.
pub fn min(a: i64, b: i64) -> (result: i64)
    ensures
        result == minimum(a, b),
{
    if nan(a) {
        b
    } else if nan(b) {
        a
    } else if a <= b {
        a
    } else {
        b
    }
}

/// Takes the larger of two numbers.
pub fn max(a: i64, b: i64) -> (result: i64)
    ensures
        result == maximum(a, b),
{
    if nan(a) {
        b
    } else if nan(b) {
        a
    } else if a >= b {
        a
    } else {
        b
    }
}

} // verus!
