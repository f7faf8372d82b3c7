//! Numbers in this language are IEEE 754 binary64 values, represented
//! throughout the crate by their 64-bit patterns.
//!
//! Negation, equality, ordering and the zero test are bit-level functions of
//! a few lines, written and verified here directly against their
//! specifications. Rounding arithmetic (addition, subtraction,
//! multiplication, division, remainder), conversion from decimal numerals and
//! rendering back to decimal text are performed by the `rustc_apfloat`
//! soft-float library through trusted wrappers; each such result is named by
//! an uninterpreted function of the operand bits.

use core::str::FromStr;
use rustc_apfloat::Float;
use vstd::prelude::*;

verus! {

/// Mask of all bits except the sign bit.
pub const ABS_MASK: u64 = 0x7fff_ffff_ffff_ffff;

/// The sign bit.
pub const SIGN_MASK: u64 = 0x8000_0000_0000_0000;

/// Exponent field all ones, significand zero: the bit pattern of positive
/// infinity. Patterns whose magnitude exceeds this are NaNs.
pub const INF_BITS: u64 = 0x7ff0_0000_0000_0000;

/// The magnitude (absolute-value bits) of a pattern.
pub open spec fn abs_bits(a: u64) -> u64 {
    a & ABS_MASK
}

/// Whether the pattern is a NaN: exponent all ones, significand nonzero.
pub open spec fn is_nan_b(a: u64) -> bool {
    abs_bits(a) > INF_BITS
}

/// Whether the pattern is a zero (positive or negative).
pub open spec fn is_zero_b(a: u64) -> bool {
    abs_bits(a) == 0
}

/// Whether the sign bit is set.
pub open spec fn is_neg_b(a: u64) -> bool {
    a >= SIGN_MASK
}

/// IEEE 754 equality on patterns: NaN equals nothing, the two zeros are
/// equal, and every other value is equal exactly to its own pattern.
pub open spec fn num_eq_b(a: u64, b: u64) -> bool {
    if is_nan_b(a) || is_nan_b(b) {
        false
    } else if is_zero_b(a) && is_zero_b(b) {
        true
    } else {
        a == b
    }
}

/// IEEE 754 `<` on patterns: false on any NaN and between zeros; otherwise a
/// negative value is below every positive one, positive patterns order by
/// magnitude, and negative patterns order in reverse.
pub open spec fn num_lt_b(a: u64, b: u64) -> bool {
    if is_nan_b(a) || is_nan_b(b) {
        false
    } else if is_zero_b(a) && is_zero_b(b) {
        false
    } else if is_neg_b(a) != is_neg_b(b) {
        is_neg_b(a)
    } else if !is_neg_b(a) {
        a < b
    } else {
        a > b
    }
}

/// IEEE 754 `<=` on patterns.
pub open spec fn num_le_b(a: u64, b: u64) -> bool {
    num_lt_b(a, b) || num_eq_b(a, b)
}

/// Negation flips the sign bit and changes nothing else.
pub open spec fn neg_b(a: u64) -> u64 {
    a ^ SIGN_MASK
}

/// IEEE 754 equality test on patterns.
pub fn num_eq(a: u64, b: u64) -> (r: bool)
    ensures
        r == num_eq_b(a, b),
{
    let aa = a & ABS_MASK;
    let ba = b & ABS_MASK;
    if aa > INF_BITS || ba > INF_BITS {
        false
    } else if aa == 0 && ba == 0 {
        true
    } else {
        a == b
    }
}

/// IEEE 754 `<` on patterns.
pub fn num_lt(a: u64, b: u64) -> (r: bool)
    ensures
        r == num_lt_b(a, b),
{
    let aa = a & ABS_MASK;
    let ba = b & ABS_MASK;
    if aa > INF_BITS || ba > INF_BITS {
        false
    } else if aa == 0 && ba == 0 {
        false
    } else if (a >= SIGN_MASK) != (b >= SIGN_MASK) {
        a >= SIGN_MASK
    } else if a < SIGN_MASK {
        a < b
    } else {
        a > b
    }
}

/// IEEE 754 `<=` on patterns.
pub fn num_le(a: u64, b: u64) -> (r: bool)
    ensures
        r == num_le_b(a, b),
{
    let lt = num_lt(a, b);
    let eq = num_eq(a, b);
    lt || eq
}

/// Negation of a pattern.
pub fn num_neg(a: u64) -> (r: u64)
    ensures
        r == neg_b(a),
{
    a ^ SIGN_MASK
}

/// Whether the pattern is a zero.
pub fn num_is_zero(a: u64) -> (r: bool)
    ensures
        r == is_zero_b(a),
{
    a & ABS_MASK == 0
}

/// The correctly rounded (round to nearest, ties to even) IEEE 754 binary64
/// sum of the values with the given patterns.
pub uninterp spec fn add_bits_of(a: u64, b: u64) -> u64;

/// The correctly rounded binary64 difference of the given patterns.
pub uninterp spec fn sub_bits_of(a: u64, b: u64) -> u64;

/// The correctly rounded binary64 product of the given patterns.
pub uninterp spec fn mul_bits_of(a: u64, b: u64) -> u64;

/// The correctly rounded binary64 quotient of the given patterns.
pub uninterp spec fn div_bits_of(a: u64, b: u64) -> u64;

/// The binary64 remainder (truncated division, C `fmod`) of the given
/// patterns.
pub uninterp spec fn rem_bits_of(a: u64, b: u64) -> u64;

/// The pattern that the decimal numeral denotes, rounded to nearest binary64
/// value, or `None` if the text is not a valid numeral.
pub uninterp spec fn parsed_number_of(s: Seq<char>) -> Option<u64>;

/// The decimal rendering of the value with the given pattern.
pub uninterp spec fn number_text_of(a: u64) -> Seq<char>;

/// Relies on `rustc_apfloat::ieee::Double`'s `Add`: the correctly rounded
/// binary64 sum, computed in software on the bit patterns.
#[verifier::external_body]
pub fn num_add(a: u64, b: u64) -> (r: u64)
    ensures
        r == add_bits_of(a, b),
{
    let x = rustc_apfloat::ieee::Double::from_bits(a as u128);
    let y = rustc_apfloat::ieee::Double::from_bits(b as u128);
    (x + y).value.to_bits() as u64
}

/// Relies on `rustc_apfloat::ieee::Double`'s `Sub`: the correctly rounded
/// binary64 difference.
#[verifier::external_body]
pub fn num_sub(a: u64, b: u64) -> (r: u64)
    ensures
        r == sub_bits_of(a, b),
{
    let x = rustc_apfloat::ieee::Double::from_bits(a as u128);
    let y = rustc_apfloat::ieee::Double::from_bits(b as u128);
    (x - y).value.to_bits() as u64
}

/// Relies on `rustc_apfloat::ieee::Double`'s `Mul`: the correctly rounded
/// binary64 product.
#[verifier::external_body]
pub fn num_mul(a: u64, b: u64) -> (r: u64)
    ensures
        r == mul_bits_of(a, b),
{
    let x = rustc_apfloat::ieee::Double::from_bits(a as u128);
    let y = rustc_apfloat::ieee::Double::from_bits(b as u128);
    (x * y).value.to_bits() as u64
}

/// Relies on `rustc_apfloat::ieee::Double`'s `Div`: the correctly rounded
/// binary64 quotient.
#[verifier::external_body]
pub fn num_div(a: u64, b: u64) -> (r: u64)
    ensures
        r == div_bits_of(a, b),
{
    let x = rustc_apfloat::ieee::Double::from_bits(a as u128);
    let y = rustc_apfloat::ieee::Double::from_bits(b as u128);
    (x / y).value.to_bits() as u64
}

/// Relies on `rustc_apfloat::ieee::Double`'s `Rem`: the binary64 remainder
/// with the sign of the dividend (C `fmod` semantics).
#[verifier::external_body]
pub fn num_rem(a: u64, b: u64) -> (r: u64)
    ensures
        r == rem_bits_of(a, b),
{
    let x = rustc_apfloat::ieee::Double::from_bits(a as u128);
    let y = rustc_apfloat::ieee::Double::from_bits(b as u128);
    (x % y).value.to_bits() as u64
}

/// Relies on `rustc_apfloat::ieee::Double::from_str`: reads a decimal
/// numeral, correctly rounded to the nearest binary64 value; fails exactly on
/// text that is not a valid numeral.
#[verifier::external_body]
pub fn num_parse(s: &str) -> (r: Option<u64>)
    ensures
        r == parsed_number_of(s@),
{
    match rustc_apfloat::ieee::Double::from_str(s) {
        Ok(v) => Some(v.to_bits() as u64),
        Err(_) => None,
    }
}

/// Relies on `rustc_apfloat::ieee::Double`'s `Display`: renders the value as
/// a decimal numeral; the text depends on the bit pattern alone.
#[verifier::external_body]
pub fn num_to_text(a: u64) -> (r: String)
    ensures
        r@ == number_text_of(a),
{
    let x = rustc_apfloat::ieee::Double::from_bits(a as u128);
    format!("{}", x)
}

} // verus!
