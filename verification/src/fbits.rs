//! Bit-level view of IEEE-754 double-precision values.
//!
//! The engine stores every sample as the 64-bit pattern of the double it came
//! from.  Classification (NaN, finite, zero, sign) and the ordering of the
//! represented values are pure bit arithmetic, so they are implemented and
//! verified here directly; no floating-point operation is involved.

use vstd::multiset::Multiset;
use vstd::prelude::*;

verus! {

/// Mask selecting everything but the sign bit.
pub const ABS_MASK: u64 = 0x7fff_ffff_ffff_ffff;

/// The sign bit; also the bit pattern of negative zero.
pub const SIGN_BIT: u64 = 0x8000_0000_0000_0000;

/// Exponent field all ones, significand zero: the pattern of positive
/// infinity, and the threshold above which (in absolute bits) a pattern
/// denotes a NaN.
pub const INF_BITS: u64 = 0x7ff0_0000_0000_0000;

/// The canonical quiet NaN pattern produced by `0.0 / 0.0` and friends.
pub const NAN_BITS: u64 = 0x7ff8_0000_0000_0000;

/// The pattern of positive zero.
pub const ZERO_BITS: u64 = 0x0;

/// The pattern of 1.0.
pub const ONE_BITS: u64 = 0x3ff0_0000_0000_0000;

/// The pattern of 0.05, the fixed significance threshold.
pub const SIG_THRESHOLD_BITS: u64 = 0x3fa9_9999_9999_999a;

/// The magnitude bits of a pattern, with the sign cleared.
pub open spec fn abs_bits(b: u64) -> u64 {
    b & ABS_MASK
}

/// The pattern denotes a NaN: exponent all ones and a non-zero significand.
pub open spec fn is_nan_bits(b: u64) -> bool {
    abs_bits(b) > INF_BITS
}

/// The pattern denotes a finite value (zero, subnormal or normal).
pub open spec fn is_finite_bits(b: u64) -> bool {
    abs_bits(b) < INF_BITS
}

/// The pattern denotes positive or negative zero.
pub open spec fn is_zero_bits(b: u64) -> bool {
    abs_bits(b) == 0
}

/// The pattern denotes a value strictly greater than zero.
pub open spec fn is_strictly_pos_bits(b: u64) -> bool {
    &&& b & SIGN_BIT == 0
    &&& abs_bits(b) != 0
    &&& !is_nan_bits(b)
}

/// Negative zero collapsed onto positive zero, so that the order key treats
/// the two zeros as equal, exactly as `==` on doubles does.
pub open spec fn canon_bits(b: u64) -> u64 {
    if b == SIGN_BIT {
        ZERO_BITS
    } else {
        b
    }
}

/// A key that is monotone in the denoted value: flipping all bits of a
/// negative pattern reverses the sign-magnitude order of the negative range,
/// and setting the top bit of a non-negative pattern places it above every
/// negative one.  For two non-NaN patterns, `key_bits(a) <= key_bits(b)`
/// holds exactly when the value of `a` is `<=` the value of `b`.
pub open spec fn key_bits(b: u64) -> u64 {
    let c = canon_bits(b);
    if c & SIGN_BIT != 0 {
        !c
    } else {
        c | SIGN_BIT
    }
}

/// The `<=` relation of the denoted values; false whenever either side is a
/// NaN, as every double comparison is.
pub open spec fn le_bits(a: u64, b: u64) -> bool {
    &&& !is_nan_bits(a)
    &&& !is_nan_bits(b)
    &&& key_bits(a) <= key_bits(b)
}

/// The `<` relation of the denoted values; false whenever either side is a
/// NaN.
pub open spec fn lt_bits(a: u64, b: u64) -> bool {
    &&& !is_nan_bits(a)
    &&& !is_nan_bits(b)
    &&& key_bits(a) < key_bits(b)
}

/// The sequence is ordered by the value key throughout.
pub open spec fn float_sorted(s: Seq<u64>) -> bool {
    forall|i: int, j: int|
        0 <= i < j < s.len() ==> #[trigger] key_bits(s[i]) <= #[trigger] key_bits(s[j])
}

pub fn float_is_nan(b: u64) -> (r: bool)
    ensures
        r == is_nan_bits(b),
{
    (b & ABS_MASK) > INF_BITS
}

pub fn float_is_finite(b: u64) -> (r: bool)
    ensures
        r == is_finite_bits(b),
{
    (b & ABS_MASK) < INF_BITS
}

pub fn float_is_zero(b: u64) -> (r: bool)
    ensures
        r == is_zero_bits(b),
{
    (b & ABS_MASK) == 0
}

pub fn float_is_strictly_pos(b: u64) -> (r: bool)
    ensures
        r == is_strictly_pos_bits(b),
{
    let a = b & ABS_MASK;
    (b & SIGN_BIT) == 0 && a != 0 && a <= INF_BITS
}

pub fn float_key(b: u64) -> (r: u64)
    ensures
        r == key_bits(b),
{
    let c = if b == SIGN_BIT {
        ZERO_BITS
    } else {
        b
    };
    if (c & SIGN_BIT) != 0 {
        !c
    } else {
        c | SIGN_BIT
    }
}

pub fn float_le(a: u64, b: u64) -> (r: bool)
    ensures
        r == le_bits(a, b),
{
    !float_is_nan(a) && !float_is_nan(b) && float_key(a) <= float_key(b)
}

pub fn float_lt(a: u64, b: u64) -> (r: bool)
    ensures
        r == lt_bits(a, b),
{
    !float_is_nan(a) && !float_is_nan(b) && float_key(a) < float_key(b)
}

/// Sort the patterns by the value they denote, ascending.  NaN patterns,
/// should any remain unfiltered, are ordered by their key like everything
/// else, so the function is total.
pub fn sort_floats(v: Vec<u64>) -> (r: Vec<u64>)
    ensures
        r@.to_multiset() == v@.to_multiset(),
        float_sorted(r@),
        r@.len() == v@.len(),
{
    broadcast use vstd::multiset::group_multiset_axioms;

    let mut rest = v;
    let mut out: Vec<u64> = Vec::new();
    proof {
        out@.to_multiset_ensures();
        assert(out@.to_multiset() =~= Multiset::empty()) by {
            vstd::multiset::lemma_multiset_empty_len(out@.to_multiset());
        }
        assert(out@.to_multiset().add(rest@.to_multiset()) =~= v@.to_multiset());
    }
    while rest.len() > 0
        invariant
            out@.to_multiset().add(rest@.to_multiset()) == v@.to_multiset(),
            out@.len() + rest@.len() == v@.len(),
            float_sorted(out@),
            forall|i: int, j: int|
                0 <= i < out@.len() && 0 <= j < rest@.len() ==> #[trigger] key_bits(out@[i])
                    <= #[trigger] key_bits(rest@[j]),
        decreases rest@.len(),
    {
        let mut m: usize = 0;
        let mut k: usize = 1;
        while k < rest.len()
            invariant
                0 <= m < k <= rest@.len(),
                forall|j: int| 0 <= j < k ==> key_bits(rest@[m as int]) <= #[trigger] key_bits(
                    rest@[j],
                ),
            decreases rest@.len() - k,
        {
            if float_key(rest[k]) < float_key(rest[m]) {
                m = k;
            }
            k = k + 1;
        }
        let ghost old_out = out@;
        let ghost old_rest = rest@;
        let x = rest.remove(m);
        out.push(x);
        proof {
            old_rest.to_multiset_ensures();
            old_out.to_multiset_ensures();
            assert(rest@.to_multiset() =~= old_rest.to_multiset().remove(x));
            assert(out@.to_multiset() =~= old_out.to_multiset().insert(x));
            assert(old_rest.to_multiset().count(x) > 0);
            assert(out@.to_multiset().add(rest@.to_multiset()) =~= v@.to_multiset());
            assert forall|i: int, j: int|
                0 <= i < out@.len() && 0 <= j < rest@.len() implies #[trigger] key_bits(out@[i])
                <= #[trigger] key_bits(rest@[j]) by {
                assert(rest@[j] == if j < m { old_rest[j] } else { old_rest[j + 1] });
            }
            assert(float_sorted(out@));
        }
    }
    proof {
        rest@.to_multiset_ensures();
        assert(rest@.to_multiset() =~= Multiset::empty()) by {
            vstd::multiset::lemma_multiset_empty_len(rest@.to_multiset());
        }
        assert(out@.to_multiset() =~= v@.to_multiset());
    }
    out
}

} // verus!
