//! Ordering of distances.
//!
//! A distance is held as the 64 bits of an IEEE 754 double. The order below is
//! the numeric order of the doubles those bits encode: both zeros are equal,
//! and a value that is not a number counts as unknown, like an absent one.

use vstd::prelude::*;

verus! {

/// Bit pattern of the sign bit alone; also the bits of negative zero.
pub const SIGN_BIT: u64 = 0x8000_0000_0000_0000;

/// Bit pattern of positive infinity: the largest magnitude that is a number.
pub const INFINITY_BITS: u64 = 0x7FF0_0000_0000_0000;

/// The bits without the sign.
pub open spec fn magnitude(bits: u64) -> int {
    if bits < SIGN_BIT {
        bits as int
    } else {
        bits - SIGN_BIT
    }
}

/// Whether the bits encode a number (finite or infinite).
pub open spec fn is_number(bits: u64) -> bool {
    magnitude(bits) <= INFINITY_BITS
}

/// An integer that orders numbers as the doubles they encode are ordered.
pub open spec fn rank(bits: u64) -> int {
    if bits < SIGN_BIT {
        bits as int
    } else {
        -(bits - SIGN_BIT)
    }
}

/// Whether a distance is present and a number.
pub open spec fn is_known(distance: Option<u64>) -> bool {
    distance matches Some(bits) && is_number(bits)
}

/// `a` does not come after `b`: unknown distances come last and tie with each
/// other, known ones ascend.
pub open spec fn not_after(a: Option<u64>, b: Option<u64>) -> bool {
    !is_known(b) || (is_known(a) && rank(a->0) <= rank(b->0))
}

/// Neither comes before the other.
pub open spec fn ties(a: Option<u64>, b: Option<u64>) -> bool {
    not_after(a, b) && not_after(b, a)
}

/// The order is total: of two distances one does not come after the other.
pub proof fn lemma_not_after_total(a: Option<u64>, b: Option<u64>)
    ensures
        not_after(a, b) || not_after(b, a),
        not_after(a, a),
{
}

/// The order is transitive.
pub proof fn lemma_not_after_transitive(a: Option<u64>, b: Option<u64>, c: Option<u64>)
    requires
        not_after(a, b),
        not_after(b, c),
    ensures
        not_after(a, c),
{
}

fn bits_are_number(bits: u64) -> (r: bool)
    ensures
        r == is_number(bits),
{
    if bits < SIGN_BIT {
        bits <= INFINITY_BITS
    } else {
        bits - SIGN_BIT <= INFINITY_BITS
    }
}

/// Whether the distance is present and a number.
pub fn distance_is_known(distance: Option<u64>) -> (r: bool)
    ensures
        r == is_known(distance),
{
    match distance {
        Some(bits) => bits_are_number(bits),
        None => false,
    }
}

fn rank_not_above(a: u64, b: u64) -> (r: bool)
    ensures
        r == (rank(a) <= rank(b)),
{
    if a < SIGN_BIT {
        if b < SIGN_BIT {
            a <= b
        } else {
            a == 0 && b == SIGN_BIT
        }
    } else {
        b < SIGN_BIT || b <= a
    }
}

/// Decides `not_after`.
pub fn distance_not_after(a: Option<u64>, b: Option<u64>) -> (r: bool)
    ensures
        r == not_after(a, b),
{
    match b {
        None => true,
        Some(b_bits) => {
            if !bits_are_number(b_bits) {
                true
            } else {
                match a {
                    None => false,
                    Some(a_bits) => bits_are_number(a_bits) && rank_not_above(a_bits, b_bits),
                }
            }
        },
    }
}

} // verus!
