//! Conversions between the numeric shapes the solver juggles: indices and
//! offsets, floats (as bit patterns) and 64-bit integers.
use crate::errors::ErrorV;
use crate::errors::MathParseErrors;
use crate::errors::result_view;
use crate::float_bits::INTEGRAL_LIMIT_BITS;
use crate::float_bits::NEG_INTEGRAL_LIMIT_BITS;
use crate::float_bits::f_of_i64;
use crate::float_bits::f_trunc;
use crate::float_bits::feq;
use crate::float_bits::float_eq;
use crate::float_bits::float_is_nan;
use crate::float_bits::float_lt;
use crate::float_bits::float_of_i64;
use crate::float_bits::float_round;
use crate::float_bits::float_trunc;
use crate::float_bits::flt;
use crate::float_bits::fround;
use crate::float_bits::is_nan_bits;
use vstd::prelude::*;

verus! {

/// What making an index out of a signed offset returns.
pub open spec fn spec_i_to_u(i: isize) -> Result<usize, ErrorV> {
    if i >= 0 {
        Ok(i as usize)
    } else {
        Err(ErrorV::MathParseInternalBug("an index should have been positive."@))
    }
}

/// Takes a isize that should be positive and makes it a usize.
pub fn i_to_u(i: isize) -> (r: Result<usize, MathParseErrors>)
    ensures
        result_view(r) == spec_i_to_u(i),
{
    if i >= 0 {
        Ok(i as usize)
    } else {
        Err(
            MathParseErrors::MathParseInternalBug(
                "an index should have been positive.".to_owned(),
            ),
        )
    }
}

/// What making a signed offset out of an index returns.
pub open spec fn spec_u_to_i(u: usize) -> Result<isize, ErrorV> {
    if u <= isize::MAX {
        Ok(u as isize)
    } else {
        Err(ErrorV::MathParseInternalBug("an index does not fit as a signed offset."@))
    }
}

/// Takes a usize and try to make it into a isize.
pub fn u_to_i(u: usize) -> (r: Result<isize, MathParseErrors>)
    ensures
        result_view(r) == spec_u_to_i(u),
{
    if u <= isize::MAX as usize {
        Ok(u as isize)
    } else {
        Err(
            MathParseErrors::MathParseInternalBug(
                "an index does not fit as a signed offset.".to_owned(),
            ),
        )
    }
}

/// What converting the float with the given bit pattern to an integer
/// returns: the float is rounded to the nearest whole number (ties away from
/// zero); NaN and values outside the safe range (beyond 2^53 in magnitude)
/// are refused.
pub open spec fn spec_f_to_i(f: u64) -> Result<i64, MathParseErrors> {
    if is_nan_bits(f) {
        Err(MathParseErrors::IntConversion(f))
    } else {
        let r = fround(f);
        if flt(INTEGRAL_LIMIT_BITS, r) {
            Err(MathParseErrors::IntConversion(r))
        } else if flt(r, NEG_INTEGRAL_LIMIT_BITS) {
            Err(MathParseErrors::IntConversion(r))
        } else {
            Ok(f_trunc(r))
        }
    }
}

/// Convert a float (given as its bit pattern) to an integer, rounding to the
/// nearest whole number and refusing NaN and values beyond the safe integer
/// range.
pub fn f_to_i(f: u64) -> (r: Result<i64, MathParseErrors>)
    ensures
        r == spec_f_to_i(f),
{
    if float_is_nan(f) {
        return Err(MathParseErrors::IntConversion(f));
    }
    let rounded = float_round(f);
    if float_lt(INTEGRAL_LIMIT_BITS, rounded) {
        Err(MathParseErrors::IntConversion(rounded))
    } else if float_lt(rounded, NEG_INTEGRAL_LIMIT_BITS) {
        Err(MathParseErrors::IntConversion(rounded))
    } else {
        Ok(float_trunc(rounded))
    }
}

/// What the strict float-to-integer conversion returns: the conversion of
/// [`spec_f_to_i`], but only when converting the integer back gives a float
/// equal to the one given.
pub open spec fn spec_f_to_i_strict(f: u64) -> Result<i64, MathParseErrors> {
    match spec_f_to_i(f) {
        Err(e) => Err(e),
        Ok(i) => if feq(f_of_i64(i), f) {
            Ok(i)
        } else {
            Err(MathParseErrors::ReturnFloatExpectedInt(f))
        },
    }
}

/// Convert a float (given as its bit pattern) to an integer only if it stays
/// the same.
pub fn f_to_i_strict(f: u64) -> (r: Result<i64, MathParseErrors>)
    ensures
        r == spec_f_to_i_strict(f),
{
    let convert_loose = match f_to_i(f) {
        Ok(i) => i,
        Err(e) => { return Err(e) },
    };
    let convert_back = i_to_f(convert_loose);
    if float_eq(convert_back, f) {
        Ok(convert_loose)
    } else {
        Err(MathParseErrors::ReturnFloatExpectedInt(f))
    }
}

/// Convert an integer to a float, given as its bit pattern.
pub fn i_to_f(i: i64) -> (r: u64)
    ensures
        r == f_of_i64(i),
{
    float_of_i64(i)
}

} // verus!
