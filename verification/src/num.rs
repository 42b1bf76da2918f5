//! IEEE-754 double arithmetic over raw bit patterns.
//!
//! A runtime number is carried as the 64 raw bits of an IEEE-754 double.
//! Negation and absolute value are pure sign-bit operations and are
//! verified here; every other operation is delegated to the software
//! float library `rustc_apfloat`, behind trusted wrappers whose results
//! are given uninterpreted names. All of these are functions of their
//! argument bits alone.

use vstd::prelude::*;
use rustc_apfloat::Float;
use rustc_apfloat::ieee::Double;

verus! {

/// Bit pattern of positive zero.
pub const POS_ZERO_BITS: u64 = 0x0000_0000_0000_0000;

/// Bit pattern of negative zero.
pub const NEG_ZERO_BITS: u64 = 0x8000_0000_0000_0000;

/// Bit pattern of the machine epsilon for doubles (2^-52), the tolerance
/// used by numeric equality.
pub const EPSILON_BITS: u64 = 0x3CB0_0000_0000_0000;

/// The IEEE-754 sign bit.
pub const SIGN_BIT: u64 = 0x8000_0000_0000_0000;

/// A double is zero exactly when its bits are one of the two zeros.
pub open spec fn is_zero_bits(b: u64) -> bool {
    b == POS_ZERO_BITS || b == NEG_ZERO_BITS
}

/// IEEE-754 negation flips the sign bit and changes nothing else.
pub open spec fn neg_bits(b: u64) -> u64 {
    b ^ SIGN_BIT
}

/// IEEE-754 absolute value clears the sign bit and changes nothing else.
pub open spec fn abs_bits(b: u64) -> u64 {
    b & 0x7FFF_FFFF_FFFF_FFFF
}

/// The bits of the IEEE-754 double sum of the doubles with bits `a` and `b`,
/// rounded to nearest, ties to even.
pub uninterp spec fn add_bits(a: u64, b: u64) -> u64;

/// The bits of the IEEE-754 double difference.
pub uninterp spec fn sub_bits(a: u64, b: u64) -> u64;

/// The bits of the IEEE-754 double product.
pub uninterp spec fn mul_bits(a: u64, b: u64) -> u64;

/// The bits of the IEEE-754 double quotient.
pub uninterp spec fn div_bits(a: u64, b: u64) -> u64;

/// Whether the double with bits `a` compares strictly less than the double
/// with bits `b` (false whenever either is NaN).
pub uninterp spec fn lt_bits(a: u64, b: u64) -> bool;

/// Whether the double with bits `a` compares less than or equal to the
/// double with bits `b` (false whenever either is NaN).
pub uninterp spec fn le_bits(a: u64, b: u64) -> bool;

/// `Some(i)` exactly when the double with bits `b` has an integral value
/// that fits an `i64`, and then `i` is that value.
pub uninterp spec fn int_of_bits(b: u64) -> Option<i64>;

/// The decimal text that the software float library renders for the double
/// with bits `b`.
pub uninterp spec fn real_text_of(b: u64) -> Seq<char>;

/// Numeric equality of the language: the two doubles differ by less than
/// the machine epsilon.
pub open spec fn approx_eq_bits(a: u64, b: u64) -> bool {
    lt_bits(abs_bits(sub_bits(a, b)), EPSILON_BITS)
}

/// Relies on rustc_apfloat's `Double` addition (`Float::add_r` through the
/// `Add` impl, rounding to nearest, ties to even): IEEE-754 double
/// addition on raw bits.
#[verifier::external_body]
pub fn num_add(a: u64, b: u64) -> (r: u64)
    ensures
        r == add_bits(a, b),
{
    (Double::from_bits(a as u128) + Double::from_bits(b as u128)).value.to_bits() as u64
}

/// Relies on rustc_apfloat's `Double` subtraction (`Float::sub_r` through
/// the `Sub` impl): IEEE-754 double subtraction on raw bits.
#[verifier::external_body]
pub fn num_sub(a: u64, b: u64) -> (r: u64)
    ensures
        r == sub_bits(a, b),
{
    (Double::from_bits(a as u128) - Double::from_bits(b as u128)).value.to_bits() as u64
}

/// Relies on rustc_apfloat's `Double` multiplication (`Float::mul_r`
/// through the `Mul` impl): IEEE-754 double multiplication on raw bits.
#[verifier::external_body]
pub fn num_mul(a: u64, b: u64) -> (r: u64)
    ensures
        r == mul_bits(a, b),
{
    (Double::from_bits(a as u128) * Double::from_bits(b as u128)).value.to_bits() as u64
}

/// Relies on rustc_apfloat's `Double` division (`Float::div_r` through the
/// `Div` impl): IEEE-754 double division on raw bits.
#[verifier::external_body]
pub fn num_div(a: u64, b: u64) -> (r: u64)
    ensures
        r == div_bits(a, b),
{
    (Double::from_bits(a as u128) / Double::from_bits(b as u128)).value.to_bits() as u64
}

/// Relies on rustc_apfloat's `PartialOrd for IeeeFloat`: the IEEE-754
/// `<` comparison of the two doubles.
#[verifier::external_body]
pub fn num_lt(a: u64, b: u64) -> (r: bool)
    ensures
        r == lt_bits(a, b),
{
    Double::from_bits(a as u128) < Double::from_bits(b as u128)
}

/// Relies on rustc_apfloat's `PartialOrd for IeeeFloat`: the IEEE-754
/// `<=` comparison of the two doubles.
#[verifier::external_body]
pub fn num_le(a: u64, b: u64) -> (r: bool)
    ensures
        r == le_bits(a, b),
{
    Double::from_bits(a as u128) <= Double::from_bits(b as u128)
}

/// Relies on rustc_apfloat's `Float::to_i128_r` with rounding toward zero:
/// the conversion is exact with status OK exactly when the double is
/// integral and in range, and then it returns that integer.
#[verifier::external_body]
pub fn num_to_int(b: u64) -> (r: Option<i64>)
    ensures
        r == int_of_bits(b),
{
    let mut exact = true;
    let sa = Double::from_bits(b as u128).to_i128_r(64, rustc_apfloat::Round::TowardZero, &mut exact);
    if exact && sa.status == rustc_apfloat::Status::OK {
        Some(sa.value as i64)
    } else {
        None
    }
}

/// Relies on rustc_apfloat's `Display for IeeeFloat`: the decimal rendering
/// of the double with bits `b`, a function of the bits alone.
#[verifier::external_body]
pub fn num_text_raw(b: u64) -> (r: String)
    ensures
        r@ == real_text_of(b),
{
    format!("{}", Double::from_bits(b as u128))
}

/// Relies on `std::time::SystemTime::now` and rustc_apfloat division: the
/// seconds since the Unix epoch, as double bits, with millisecond
/// resolution. The result depends on the wall clock, so nothing is
/// promised of it.
#[verifier::external_body]
pub fn clock_now_bits() -> u64 {
    let ms = std::time::SystemTime::now()
        .duration_since(std::time::UNIX_EPOCH)
        .map(|d| d.as_millis())
        .unwrap_or(0);
    let ms_f = Double::from_u128_r(ms, rustc_apfloat::Round::NearestTiesToEven).value;
    let thousand = Double::from_u128_r(1000, rustc_apfloat::Round::NearestTiesToEven).value;
    (ms_f / thousand).value.to_bits() as u64
}

/// Negation of a double on raw bits: flip the sign bit.
pub fn num_neg(b: u64) -> (r: u64)
    ensures
        r == neg_bits(b),
{
    b ^ SIGN_BIT
}

/// Absolute value of a double on raw bits: clear the sign bit.
pub fn num_abs(b: u64) -> (r: u64)
    ensures
        r == abs_bits(b),
{
    b & 0x7FFF_FFFF_FFFF_FFFF
}

/// The language's numeric equality: `|a - b| < epsilon`.
pub fn num_approx_eq(a: u64, b: u64) -> (r: bool)
    ensures
        r == approx_eq_bits(a, b),
{
    num_lt(num_abs(num_sub(a, b)), EPSILON_BITS)
}

} // verus!
