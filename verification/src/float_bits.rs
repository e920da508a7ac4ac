//! IEEE 754 binary64 values, handled as their bit patterns.
//!
//! Verified code never holds a native float: a float is a `u64` carrying the
//! IEEE 754 binary64 bit pattern of the value. The arithmetic itself is done
//! by the `rustc_apfloat` crate (LLVM's APFloat in Rust, which works on bit
//! patterns and is deterministic), behind the trusted wrappers below.
//! Each operation's result is given a name by an uninterpreted spec function:
//! the same bits always give the same result, and the contracts of the
//! callers speak of those names exactly.
use rustc_apfloat::Float;
use rustc_apfloat::Round;
use rustc_apfloat::ieee::Double;
use vstd::prelude::*;

verus! {

/// The IEEE 754 binary64 sum of the two values with the given bit patterns,
/// rounded to nearest, ties to even.
pub uninterp spec fn fadd(a: u64, b: u64) -> u64;

/// The IEEE 754 binary64 difference of the two values with the given bit
/// patterns, rounded to nearest, ties to even.
pub uninterp spec fn fsub(a: u64, b: u64) -> u64;

/// The IEEE 754 binary64 product of the two values with the given bit
/// patterns, rounded to nearest, ties to even.
pub uninterp spec fn fmul(a: u64, b: u64) -> u64;

/// The IEEE 754 binary64 quotient of the two values with the given bit
/// patterns, rounded to nearest, ties to even.
pub uninterp spec fn fdiv(a: u64, b: u64) -> u64;

/// The IEEE 754 binary64 remainder (C `fmod`, truncated division) of the two
/// values with the given bit patterns.
pub uninterp spec fn frem(a: u64, b: u64) -> u64;

/// The value with the given bit pattern, rounded to the nearest integral
/// float, ties away from zero.
pub uninterp spec fn fround(a: u64) -> u64;

/// The binary64 bit pattern nearest to the given 64-bit signed integer,
/// rounded to nearest, ties to even.
pub uninterp spec fn f_of_i64(i: i64) -> u64;

/// The value with the given bit pattern, converted to a 64-bit signed integer
/// toward zero; NaN gives 0 and out-of-range values saturate.
pub uninterp spec fn f_trunc(a: u64) -> i64;

/// Whether the value of the first bit pattern is strictly below the value of
/// the second, in the IEEE 754 partial order (false when either is NaN).
pub uninterp spec fn flt(a: u64, b: u64) -> bool;

/// Whether the two bit patterns hold equal values in the IEEE 754 partial
/// order (false when either is NaN; positive and negative zero are equal).
pub uninterp spec fn feq(a: u64, b: u64) -> bool;

/// The binary64 value denoted by the given decimal text, correctly rounded,
/// or nothing when the text does not read as a number.
pub uninterp spec fn f_of_str(s: Seq<char>) -> Option<u64>;

/// Relies on `rustc_apfloat`'s `Double` addition (`add_r`, round to nearest,
/// ties to even, as IEEE 754 and hardware doubles do).
#[verifier::external_body]
pub fn float_add(a: u64, b: u64) -> (r: u64)
    ensures
        r == fadd(a, b),
{
    (Double::from_bits(a as u128) + Double::from_bits(b as u128)).value.to_bits() as u64
}

/// Relies on `rustc_apfloat`'s `Double` subtraction (`sub_r`, round to
/// nearest, ties to even).
#[verifier::external_body]
pub fn float_sub(a: u64, b: u64) -> (r: u64)
    ensures
        r == fsub(a, b),
{
    (Double::from_bits(a as u128) - Double::from_bits(b as u128)).value.to_bits() as u64
}

/// Relies on `rustc_apfloat`'s `Double` multiplication (`mul_r`, round to
/// nearest, ties to even).
#[verifier::external_body]
pub fn float_mul(a: u64, b: u64) -> (r: u64)
    ensures
        r == fmul(a, b),
{
    (Double::from_bits(a as u128) * Double::from_bits(b as u128)).value.to_bits() as u64
}

/// Relies on `rustc_apfloat`'s `Double` division (`div_r`, round to nearest,
/// ties to even).
#[verifier::external_body]
pub fn float_div(a: u64, b: u64) -> (r: u64)
    ensures
        r == fdiv(a, b),
{
    (Double::from_bits(a as u128) / Double::from_bits(b as u128)).value.to_bits() as u64
}

/// Relies on `rustc_apfloat`'s `Double` remainder (`%`, which is `c_fmod`:
/// the remainder of truncated division, as Rust's float `%`).
#[verifier::external_body]
pub fn float_rem(a: u64, b: u64) -> (r: u64)
    ensures
        r == frem(a, b),
{
    (Double::from_bits(a as u128) % Double::from_bits(b as u128)).value.to_bits() as u64
}

/// Relies on `rustc_apfloat`'s `round_to_integral` with ties away from zero
/// (the rounding of a float to the nearest whole number).
#[verifier::external_body]
pub fn float_round(a: u64) -> (r: u64)
    ensures
        r == fround(a),
{
    Double::from_bits(a as u128).round_to_integral(Round::NearestTiesToAway).value.to_bits()
        as u64
}

/// Relies on `rustc_apfloat`'s `from_i128` (round to nearest, ties to even,
/// the same rounding an integer-to-double conversion performs).
#[verifier::external_body]
pub fn float_of_i64(i: i64) -> (r: u64)
    ensures
        r == f_of_i64(i),
{
    Double::from_i128(i as i128).value.to_bits() as u64
}

/// Relies on `rustc_apfloat`'s `to_i128` (conversion toward zero, saturating,
/// with NaN giving 0).
#[verifier::external_body]
pub fn float_trunc(a: u64) -> (r: i64)
    ensures
        r == f_trunc(a),
{
    Double::from_bits(a as u128).to_i128(64).value as i64
}

/// Relies on `rustc_apfloat`'s `PartialOrd` for `Double` (the IEEE 754
/// partial order: NaN compares with nothing).
#[verifier::external_body]
pub fn float_lt(a: u64, b: u64) -> (r: bool)
    ensures
        r == flt(a, b),
{
    Double::from_bits(a as u128) < Double::from_bits(b as u128)
}

/// Relies on `rustc_apfloat`'s `PartialEq` for `Double` (IEEE 754 equality:
/// NaN equals nothing, positive and negative zero are equal).
#[verifier::external_body]
pub fn float_eq(a: u64, b: u64) -> (r: bool)
    ensures
        r == feq(a, b),
{
    Double::from_bits(a as u128) == Double::from_bits(b as u128)
}

/// Relies on `rustc_apfloat`'s `FromStr` for `Double`: a correctly rounded
/// decimal (or `0x` hexadecimal) float reading.
#[verifier::external_body]
pub fn float_of_str(s: &str) -> (r: Option<u64>)
    ensures
        r == f_of_str(s@),
{
    match s.parse::<Double>() {
        Ok(d) => Some(d.to_bits() as u64),
        Err(_) => None,
    }
}

/// The bit pattern of positive zero; `feq(a, FLOAT_ZERO_BITS)` says that `a`
/// holds a zero of either sign.
pub const FLOAT_ZERO_BITS: u64 = 0;

/// The bit pattern of 2^53, the bound of the range in which every integer is
/// exactly representable as a binary64 float.
pub const INTEGRAL_LIMIT_BITS: u64 = 0x4340_0000_0000_0000;

/// The bit pattern of -2^53.
pub const NEG_INTEGRAL_LIMIT_BITS: u64 = 0xC340_0000_0000_0000;

/// The bit pattern of positive infinity.
pub const INFINITY_BITS: u64 = 0x7FF0_0000_0000_0000;

/// The bit pattern of negative infinity.
pub const NEG_INFINITY_BITS: u64 = 0xFFF0_0000_0000_0000;

/// The bit pattern of the quiet NaN that a standard float reading returns
/// for the word `nan`.
pub const NAN_BITS: u64 = 0x7FF8_0000_0000_0000;

/// The bit pattern of that NaN with its sign bit set, for `-nan`.
pub const NEG_NAN_BITS: u64 = 0xFFF8_0000_0000_0000;

/// Whether the bit pattern holds a NaN: all exponent bits set and a non-zero
/// mantissa, by the IEEE 754 binary64 layout.
pub open spec fn is_nan_bits(a: u64) -> bool {
    (a >> 52) & 0x7ff == 0x7ff && a & 0xf_ffff_ffff_ffff != 0
}

/// Tells a NaN bit pattern from the IEEE 754 binary64 layout.
pub fn float_is_nan(a: u64) -> (r: bool)
    ensures
        r == is_nan_bits(a),
{
    (a >> 52) & 0x7ff == 0x7ff && a & 0xf_ffff_ffff_ffff != 0
}

} // verus!
