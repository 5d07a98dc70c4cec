//! A bit-level model of IEEE 754 binary64 ("double precision") values.
//!
//! The library stores every double-precision value as its 64-bit pattern.
//! This module defines what such a pattern means — sign, exponent, fraction,
//! the NaN / infinity / zero classes — and gives verified, executable
//! versions of the IEEE comparison predicates.  Equality and ordering on
//! distances and coordinates throughout the library reduce to these
//! definitions; in particular a comparison involving NaN is never "less
//! than", so a NaN distance can never pass a radius filter.

use vstd::prelude::*;

use vstd::arithmetic::mul::{
    lemma_mul_inequality, lemma_mul_strict_inequality, lemma_mul_strictly_positive,
};
use vstd::arithmetic::power2::{
    lemma2_to64, lemma2_to64_rest, lemma_pow2_adds, lemma_pow2_pos,
    lemma_pow2_strictly_increases, pow2,
};

verus! {

/// Mask of the sign bit.
pub const SIGN_MASK: u64 = 0x8000_0000_0000_0000;

/// Mask of the 52 fraction bits.
pub const FRAC_MASK: u64 = 0x000F_FFFF_FFFF_FFFF;

/// Mask of everything but the sign bit: the magnitude of the value.
pub const MAG_MASK: u64 = 0x7FFF_FFFF_FFFF_FFFF;

/// The biased exponent value that marks NaNs and infinities.
pub const EXP_SPECIAL: u64 = 0x7FF;

/// True when the sign bit is set, i.e. the value is negative or negative zero.
pub open spec fn sign_of(bits: u64) -> bool {
    bits & SIGN_MASK != 0
}

/// The biased exponent field.
pub open spec fn exp_of(bits: u64) -> u64 {
    (bits >> 52) & 0x7FF
}

/// The fraction (mantissa) field.
pub open spec fn frac_of(bits: u64) -> u64 {
    bits & FRAC_MASK
}

/// The pattern with the sign bit cleared: encodes the magnitude.  For two
/// values of the same sign class, the IEEE order of the values is the
/// unsigned order of their magnitudes.
pub open spec fn magnitude_of(bits: u64) -> u64 {
    bits & MAG_MASK
}

/// The pattern encodes a NaN.
pub open spec fn is_nan(bits: u64) -> bool {
    exp_of(bits) == EXP_SPECIAL && frac_of(bits) != 0
}

/// The pattern encodes a positive or negative infinity.
pub open spec fn is_infinite(bits: u64) -> bool {
    exp_of(bits) == EXP_SPECIAL && frac_of(bits) == 0
}

/// The pattern encodes a finite value (normal, subnormal or zero).
pub open spec fn is_finite(bits: u64) -> bool {
    exp_of(bits) != EXP_SPECIAL
}

/// The pattern encodes a zero, of either sign.
pub open spec fn is_zero(bits: u64) -> bool {
    magnitude_of(bits) == 0
}

/// IEEE 754 equality of the two encoded values: NaN equals nothing, the two
/// zeros equal each other, and every other value equals exactly its own
/// pattern.
pub open spec fn same_value(a: u64, b: u64) -> bool {
    &&& !is_nan(a)
    &&& !is_nan(b)
    &&& (a == b || (is_zero(a) && is_zero(b)))
}

/// IEEE 754 "less than" of the two encoded values.  Any comparison with a
/// NaN is false; the two zeros are equal; otherwise a negative value is
/// below a positive one, and within one sign class the unsigned order of
/// the magnitudes decides (reversed for negatives).
pub open spec fn value_lt(a: u64, b: u64) -> bool {
    &&& !is_nan(a)
    &&& !is_nan(b)
    &&& !(is_zero(a) && is_zero(b))
    &&& if sign_of(a) != sign_of(b) {
            sign_of(a)
        } else if !sign_of(a) {
            magnitude_of(a) < magnitude_of(b)
        } else {
            magnitude_of(b) < magnitude_of(a)
        }
}

/// The significand of a finite pattern: the fraction field, with the hidden
/// bit added back for normal values.
pub open spec fn significand_of(bits: u64) -> nat {
    if exp_of(bits) == 0 {
        frac_of(bits) as nat
    } else {
        (frac_of(bits) + 0x0010_0000_0000_0000) as nat
    }
}

/// The power of two that scales the significand of a finite pattern up to
/// the encoded value times 2^1074.
pub open spec fn scale_exp_of(bits: u64) -> nat {
    if exp_of(bits) == 0 {
        0
    } else {
        (exp_of(bits) - 1) as nat
    }
}

/// The magnitude of the value a finite pattern encodes, times 2^1074: an
/// exact integer for every finite pattern, subnormals included.
pub open spec fn scaled_magnitude(bits: u64) -> nat {
    significand_of(bits) * pow2(scale_exp_of(bits))
}

/// The value a finite pattern encodes, times 2^1074: an exact integer.
/// This is the bridge between the bit patterns the library stores and the
/// real values they stand for.
pub open spec fn scaled_value(bits: u64) -> int {
    if sign_of(bits) {
        -(scaled_magnitude(bits) as int)
    } else {
        scaled_magnitude(bits) as int
    }
}

/// True when the pattern encodes a NaN.
pub fn nan_bits(bits: u64) -> (r: bool)
    ensures
        r == is_nan(bits),
{
    (bits >> 52) & 0x7FF == 0x7FF && bits & FRAC_MASK != 0
}

/// IEEE 754 equality, executably, straight from `same_value`.
pub fn eq_bits(a: u64, b: u64) -> (r: bool)
    ensures
        r == same_value(a, b),
{
    if nan_bits(a) || nan_bits(b) {
        false
    } else {
        a == b || (a & MAG_MASK == 0 && b & MAG_MASK == 0)
    }
}

/// IEEE 754 "less than", executably, straight from `value_lt`.
pub fn lt_bits(a: u64, b: u64) -> (r: bool)
    ensures
        r == value_lt(a, b),
{
    if nan_bits(a) || nan_bits(b) {
        false
    } else if a & MAG_MASK == 0 && b & MAG_MASK == 0 {
        false
    } else {
        let a_neg = a & SIGN_MASK != 0;
        let b_neg = b & SIGN_MASK != 0;
        if a_neg != b_neg {
            a_neg
        } else if !a_neg {
            a & MAG_MASK < b & MAG_MASK
        } else {
            b & MAG_MASK < a & MAG_MASK
        }
    }
}

/// Two equal values are never ordered below one another.  In particular a
/// record whose distance equals a radius exactly is excluded by a strict
/// radius filter.
pub proof fn lemma_eq_excludes_lt(a: u64, b: u64)
    ensures
        same_value(a, b) ==> !value_lt(a, b) && !value_lt(b, a),
{
}

/// A comparison that involves a NaN is never "less than": a NaN distance
/// can never pass a strict radius filter.
pub proof fn lemma_nan_never_lt(a: u64, b: u64)
    ensures
        is_nan(a) || is_nan(b) ==> !value_lt(a, b),
{
}

/// The order is asymmetric: no two values are each below the other.
pub proof fn lemma_lt_asymmetric(a: u64, b: u64)
    ensures
        value_lt(a, b) ==> !value_lt(b, a),
{
}

/// A smaller magnitude pattern has a smaller exponent field, or the same
/// exponent field and a smaller fraction; equal magnitudes have equal
/// fields.
proof fn lemma_magnitude_fields(a: u64, b: u64)
    ensures
        magnitude_of(a) < magnitude_of(b) ==> exp_of(a) < exp_of(b) || (exp_of(a) == exp_of(b)
            && frac_of(a) < frac_of(b)),
        magnitude_of(a) == magnitude_of(b) ==> exp_of(a) == exp_of(b) && frac_of(a) == frac_of(b),
{
    assert((a & 0x7FFF_FFFF_FFFF_FFFFu64) < (b & 0x7FFF_FFFF_FFFF_FFFFu64) ==> ((a >> 52) & 0x7FF)
        < ((b >> 52) & 0x7FF) || (((a >> 52) & 0x7FF) == ((b >> 52) & 0x7FF) && (a
        & 0x000F_FFFF_FFFF_FFFFu64) < (b & 0x000F_FFFF_FFFF_FFFFu64))) by (bit_vector);
    assert((a & 0x7FFF_FFFF_FFFF_FFFFu64) == (b & 0x7FFF_FFFF_FFFF_FFFFu64) ==> ((a >> 52) & 0x7FF)
        == ((b >> 52) & 0x7FF) && (a & 0x000F_FFFF_FFFF_FFFFu64) == (b
        & 0x000F_FFFF_FFFF_FFFFu64)) by (bit_vector);
}

/// The scaled magnitude grows strictly with the magnitude bits: the
/// encoding is monotone.
proof fn lemma_scaled_monotonic(a: u64, b: u64)
    requires
        is_finite(a),
        is_finite(b),
        magnitude_of(a) < magnitude_of(b),
    ensures
        scaled_magnitude(a) < scaled_magnitude(b),
{
    lemma_magnitude_fields(a, b);
    lemma2_to64();
    lemma2_to64_rest();
    assert(a & 0x000F_FFFF_FFFF_FFFFu64 <= 0x000F_FFFF_FFFF_FFFFu64) by (bit_vector);
    assert(b & 0x000F_FFFF_FFFF_FFFFu64 <= 0x000F_FFFF_FFFF_FFFFu64) by (bit_vector);
    let sa = significand_of(a);
    let sb = significand_of(b);
    let ea = scale_exp_of(a);
    let eb = scale_exp_of(b);
    lemma_pow2_pos(ea);
    lemma_pow2_pos(eb);
    if ea == eb {
        assert(sa < sb);
        lemma_mul_strict_inequality(sa as int, sb as int, pow2(ea) as int);
    } else {
        assert(ea < eb);
        assert(sa < pow2(53));
        assert(pow2(52) <= sb);
        lemma_mul_strict_inequality(sa as int, pow2(53) as int, pow2(ea) as int);
        lemma_pow2_adds(53, ea);
        lemma_pow2_adds(52, eb);
        if 53 + ea < 52 + eb {
            lemma_pow2_strictly_increases(53 + ea, 52 + eb);
        }
        lemma_mul_inequality(pow2(52) as int, sb as int, pow2(eb) as int);
    }
}

/// A finite pattern encodes zero exactly when its scaled magnitude is zero.
proof fn lemma_scaled_zero(a: u64)
    requires
        is_finite(a),
    ensures
        is_zero(a) <==> scaled_magnitude(a) == 0,
{
    lemma_pow2_pos(scale_exp_of(a));
    assert(a & 0x7FFF_FFFF_FFFF_FFFFu64 == 0 ==> ((a >> 52) & 0x7FF == 0 && a
        & 0x000F_FFFF_FFFF_FFFFu64 == 0)) by (bit_vector);
    assert(a & 0x7FFF_FFFF_FFFF_FFFFu64 != 0 ==> ((a >> 52) & 0x7FF != 0 || a
        & 0x000F_FFFF_FFFF_FFFFu64 != 0)) by (bit_vector);
    if is_zero(a) {
        assert(exp_of(a) == 0 && frac_of(a) == 0);
        assert(significand_of(a) == 0);
        assert(scaled_magnitude(a) == 0);
    } else {
        assert(significand_of(a) > 0);
        lemma_mul_strictly_positive(significand_of(a) as int, pow2(scale_exp_of(a)) as int);
        assert(scaled_magnitude(a) > 0);
    }
}

/// The bit-level order of two finite patterns is exactly the numeric order
/// of the values they encode: this ties `value_lt` to the real values the
/// patterns stand for.
pub proof fn lemma_lt_matches_values(a: u64, b: u64)
    requires
        is_finite(a),
        is_finite(b),
    ensures
        value_lt(a, b) <==> scaled_value(a) < scaled_value(b),
{
    lemma_scaled_zero(a);
    lemma_scaled_zero(b);
    lemma_magnitude_fields(a, b);
    lemma_magnitude_fields(b, a);
    if magnitude_of(a) < magnitude_of(b) {
        lemma_scaled_monotonic(a, b);
    }
    if magnitude_of(b) < magnitude_of(a) {
        lemma_scaled_monotonic(b, a);
    }
}

/// Two finite patterns are IEEE-equal exactly when they encode the same
/// value.
pub proof fn lemma_eq_matches_values(a: u64, b: u64)
    requires
        is_finite(a),
        is_finite(b),
    ensures
        same_value(a, b) <==> scaled_value(a) == scaled_value(b),
{
    lemma_scaled_zero(a);
    lemma_scaled_zero(b);
    lemma_magnitude_fields(a, b);
    lemma_magnitude_fields(b, a);
    if magnitude_of(a) < magnitude_of(b) {
        lemma_scaled_monotonic(a, b);
    }
    if magnitude_of(b) < magnitude_of(a) {
        lemma_scaled_monotonic(b, a);
    }
    assert(((a & 0x8000_0000_0000_0000u64 != 0) == (b & 0x8000_0000_0000_0000u64 != 0) && (a
        >> 52) & 0x7FF == (b >> 52) & 0x7FF && a & 0x000F_FFFF_FFFF_FFFFu64 == b
        & 0x000F_FFFF_FFFF_FFFFu64) ==> a == b) by (bit_vector);
}

/// On the non-NaN patterns the order is total: two values that are not
/// equal are strictly ordered one way or the other.
pub proof fn lemma_value_total(a: u64, b: u64)
    requires
        !is_nan(a),
        !is_nan(b),
        !same_value(a, b),
    ensures
        value_lt(a, b) || value_lt(b, a),
{
    assert(((a & 0x8000_0000_0000_0000u64 != 0) == (b & 0x8000_0000_0000_0000u64 != 0)
        && a & 0x7FFF_FFFF_FFFF_FFFFu64 == b & 0x7FFF_FFFF_FFFF_FFFFu64) ==> a == b)
        by (bit_vector);
}

} // verus!
