//! The numbers the solver computes with: 64-bit signed integers and IEEE 754
//! binary64 floats (carried as bit patterns), with the promotion rules
//! between them.
//!
//! A binary operation between an `Int` and a `Float` promotes the `Int` side
//! to `Float` before combining, except the bitwise and shift family, which
//! requires both operands to be `Int`. Division always yields `Float`;
//! division and remainder refuse a zero divisor; shifts refuse a negative
//! amount. Integer arithmetic wraps around on overflow.
use crate::errors::MathParseErrors;
use crate::float_bits::FLOAT_ZERO_BITS;
use crate::float_bits::f_of_i64;
use crate::float_bits::fadd;
use crate::float_bits::fdiv;
use crate::float_bits::float_add;
use crate::float_bits::float_div;
use crate::float_bits::float_eq;
use crate::float_bits::float_lt;
use crate::float_bits::float_mul;
use crate::float_bits::float_rem;
use crate::float_bits::float_sub;
use crate::float_bits::flt;
use crate::float_bits::fmul;
use crate::float_bits::frem;
use crate::float_bits::fsub;
use crate::number_conversion::f_to_i;
use crate::number_conversion::i_to_f;
use crate::number_conversion::spec_f_to_i;
use vstd::prelude::*;

verus! {

/// A type representing the numbers understood by math-parse. Math operation
/// can be formed with numbers of different types and the type of the result
/// will be chosen in the most sensible way. The `Float` variant carries the
/// IEEE 754 binary64 bit pattern of its value.
#[derive(Debug, PartialEq, Eq, Structural, Copy, Clone)]
pub enum Number {
    Int(i64),
    Float(u64),
}

/// Whether the number is zero; a float counts as zero when it holds a zero of
/// either sign.
pub open spec fn spec_is_zero(n: Number) -> bool {
    match n {
        Number::Int(i) => i == 0,
        Number::Float(f) => crate::float_bits::feq(f, FLOAT_ZERO_BITS),
    }
}

/// Whether the number is strictly below zero.
pub open spec fn spec_is_negative(n: Number) -> bool {
    match n {
        Number::Int(i) => i < 0,
        Number::Float(f) => flt(f, FLOAT_ZERO_BITS),
    }
}

/// The sum of two numbers: exact wrapping addition when both are `Int`, else
/// the float sum after promotion.
pub open spec fn spec_add(a: Number, b: Number) -> Number {
    match (a, b) {
        (Number::Int(s), Number::Int(o)) => Number::Int(
            vstd::wrapping::i64_specs::wrapping_add(s, o),
        ),
        (Number::Float(s), Number::Int(o)) => Number::Float(fadd(s, f_of_i64(o))),
        (Number::Int(s), Number::Float(o)) => Number::Float(fadd(f_of_i64(s), o)),
        (Number::Float(s), Number::Float(o)) => Number::Float(fadd(s, o)),
    }
}

/// The difference of two numbers, promoted like [`spec_add`].
pub open spec fn spec_sub(a: Number, b: Number) -> Number {
    match (a, b) {
        (Number::Int(s), Number::Int(o)) => Number::Int(
            vstd::wrapping::i64_specs::wrapping_sub(s, o),
        ),
        (Number::Float(s), Number::Int(o)) => Number::Float(fsub(s, f_of_i64(o))),
        (Number::Int(s), Number::Float(o)) => Number::Float(fsub(f_of_i64(s), o)),
        (Number::Float(s), Number::Float(o)) => Number::Float(fsub(s, o)),
    }
}

/// The product of two numbers, promoted like [`spec_add`].
pub open spec fn spec_mul(a: Number, b: Number) -> Number {
    match (a, b) {
        (Number::Int(s), Number::Int(o)) => Number::Int(
            vstd::wrapping::i64_specs::wrapping_mul(s, o),
        ),
        (Number::Float(s), Number::Int(o)) => Number::Float(fmul(s, f_of_i64(o))),
        (Number::Int(s), Number::Float(o)) => Number::Float(fmul(f_of_i64(s), o)),
        (Number::Float(s), Number::Float(o)) => Number::Float(fmul(s, o)),
    }
}

/// The quotient of two numbers: always a float, and an `UnexpectedZero` error
/// when the divisor is zero.
pub open spec fn spec_div(a: Number, b: Number) -> Result<Number, MathParseErrors> {
    if spec_is_zero(b) {
        Err(MathParseErrors::UnexpectedZero)
    } else {
        match (a, b) {
            (Number::Int(s), Number::Int(o)) => Ok(
                Number::Float(fdiv(f_of_i64(s), f_of_i64(o))),
            ),
            (Number::Float(s), Number::Int(o)) => Ok(Number::Float(fdiv(s, f_of_i64(o)))),
            (Number::Int(s), Number::Float(o)) => Ok(Number::Float(fdiv(f_of_i64(s), o))),
            (Number::Float(s), Number::Float(o)) => Ok(Number::Float(fdiv(s, o))),
        }
    }
}

/// The truncated remainder of dividing `a` by `o`, wrapping on the one
/// overflowing pair (the smallest integer and -1, which gives 0).
pub open spec fn spec_rem_int(s: i64, o: i64) -> i64
    recommends
        o != 0,
{
    match s.checked_rem(o) {
        Some(r) => r,
        None => 0,
    }
}

/// The remainder of two numbers: an `UnexpectedZero` error when the divisor
/// is zero, else the truncated remainder, promoted like [`spec_add`].
pub open spec fn spec_rem(a: Number, b: Number) -> Result<Number, MathParseErrors> {
    if spec_is_zero(b) {
        Err(MathParseErrors::UnexpectedZero)
    } else {
        match (a, b) {
            (Number::Int(s), Number::Int(o)) => Ok(Number::Int(spec_rem_int(s, o))),
            (Number::Float(s), Number::Int(o)) => Ok(Number::Float(frem(s, f_of_i64(o)))),
            (Number::Int(s), Number::Float(o)) => Ok(Number::Float(frem(f_of_i64(s), o))),
            (Number::Float(s), Number::Float(o)) => Ok(Number::Float(frem(s, o))),
        }
    }
}

/// Bitwise negation: inverts all bits of an `Int`, and refuses a float.
pub open spec fn spec_not(a: Number) -> Result<Number, MathParseErrors> {
    match a {
        Number::Int(s) => Ok(Number::Int(!s)),
        Number::Float(f) => Err(MathParseErrors::BinaryOpOnFloat(f, '!')),
    }
}

/// Bitwise exclusive or of two `Int`s; a float on either side is refused,
/// the left one first.
pub open spec fn spec_bitxor(a: Number, b: Number) -> Result<Number, MathParseErrors> {
    match (a, b) {
        (Number::Float(f), _) => Err(MathParseErrors::BinaryOpOnFloat(f, '^')),
        (_, Number::Float(f)) => Err(MathParseErrors::BinaryOpOnFloat(f, '^')),
        (Number::Int(s), Number::Int(o)) => Ok(Number::Int(s ^ o)),
    }
}

/// Bitwise and of two `Int`s; a float on either side is refused.
pub open spec fn spec_bitand(a: Number, b: Number) -> Result<Number, MathParseErrors> {
    match (a, b) {
        (Number::Float(f), _) => Err(MathParseErrors::BinaryOpOnFloat(f, '&')),
        (_, Number::Float(f)) => Err(MathParseErrors::BinaryOpOnFloat(f, '&')),
        (Number::Int(s), Number::Int(o)) => Ok(Number::Int(s & o)),
    }
}

/// Bitwise or of two `Int`s; a float on either side is refused.
pub open spec fn spec_bitor(a: Number, b: Number) -> Result<Number, MathParseErrors> {
    match (a, b) {
        (Number::Float(f), _) => Err(MathParseErrors::BinaryOpOnFloat(f, '|')),
        (_, Number::Float(f)) => Err(MathParseErrors::BinaryOpOnFloat(f, '|')),
        (Number::Int(s), Number::Int(o)) => Ok(Number::Int(s | o)),
    }
}

/// The shift amount a non-negative `Int` asks for: shifting is by the amount
/// modulo the 64 bits of an `Int`, as a wrapping shift does.
pub open spec fn spec_shift_amount(o: i64) -> u32
    recommends
        o >= 0,
{
    ((o as u64) % 64) as u32
}

/// Left shift: both operands must be `Int` (a float on either side is
/// refused, the left one first) and the amount must not be negative.
pub open spec fn spec_shl(a: Number, b: Number) -> Result<Number, MathParseErrors> {
    match (a, b) {
        (Number::Float(f), _) => Err(MathParseErrors::BinaryOpOnFloat(f, '≪')),
        (_, Number::Float(f)) => Err(MathParseErrors::BinaryOpOnFloat(f, '≪')),
        (Number::Int(s), Number::Int(o)) => if o < 0 {
            Err(MathParseErrors::UnexpectedNegative)
        } else {
            Ok(Number::Int(vstd::wrapping::i64_specs::wrapping_shl(s, spec_shift_amount(o))))
        },
    }
}

/// Right shift (sign extending): both operands must be `Int` and the amount
/// must not be negative.
pub open spec fn spec_shr(a: Number, b: Number) -> Result<Number, MathParseErrors> {
    match (a, b) {
        (Number::Float(f), _) => Err(MathParseErrors::BinaryOpOnFloat(f, '≫')),
        (_, Number::Float(f)) => Err(MathParseErrors::BinaryOpOnFloat(f, '≫')),
        (Number::Int(s), Number::Int(o)) => if o < 0 {
            Err(MathParseErrors::UnexpectedNegative)
        } else {
            Ok(Number::Int(vstd::wrapping::i64_specs::wrapping_shr(s, spec_shift_amount(o))))
        },
    }
}

/// The truncated quotient of two `Int`s, wrapping on the one overflowing
/// pair, and refusing a zero divisor.
pub open spec fn spec_div_int(s: i64, o: i64) -> Result<i64, MathParseErrors> {
    if o == 0 {
        Err(MathParseErrors::UnexpectedZero)
    } else {
        match s.checked_div(o) {
            Some(q) => Ok(q),
            None => Ok(i64::MIN),
        }
    }
}

/// Integer division, truncated toward zero: `(a - a % b) / b` computed in the
/// promoted domain, then strictly converted to `Int`. A zero divisor is
/// refused up front, and again if the divisor truncates to zero.
pub open spec fn spec_integer_div(a: Number, b: Number) -> Result<Number, MathParseErrors> {
    if spec_is_zero(b) {
        Err(MathParseErrors::UnexpectedZero)
    } else {
        match spec_rem(a, b) {
            Err(e) => Err(e),
            Ok(m) => {
                let s = spec_sub(a, m);
                let s_int = match s {
                    Number::Int(i) => Ok(i),
                    Number::Float(f) => spec_f_to_i(f),
                };
                let o_int = match b {
                    Number::Int(i) => Ok(i),
                    Number::Float(f) => spec_f_to_i(f),
                };
                match (s_int, o_int) {
                    (Err(e), _) => Err(e),
                    (_, Err(e)) => Err(e),
                    (Ok(si), Ok(oi)) => match spec_div_int(si, oi) {
                        Err(e) => Err(e),
                        Ok(q) => Ok(Number::Int(q)),
                    },
                }
            },
        }
    }
}

impl Number {
    /// Return true if the number is equal to 0.
    pub fn is_zero(self) -> (r: bool)
        ensures
            r == spec_is_zero(self),
    {
        match self {
            Number::Int(i) => i == 0,
            Number::Float(f) => float_eq(f, FLOAT_ZERO_BITS),
        }
    }

    /// Return true if the number is less than 0.
    pub fn is_negative(self) -> (r: bool)
        ensures
            r == spec_is_negative(self),
    {
        match self {
            Number::Int(i) => i < 0,
            Number::Float(f) => float_lt(f, FLOAT_ZERO_BITS),
        }
    }

    /// Return an error related to the given operator if the number is a
    /// float.
    pub fn err_on_float(self, op: char) -> (r: Result<(), MathParseErrors>)
        ensures
            self matches Number::Float(f) ==> r == Err::<(), MathParseErrors>(
                MathParseErrors::BinaryOpOnFloat(f, op),
            ),
            self matches Number::Int(_) ==> r is Ok,
    {
        if let Number::Float(f) = self {
            Err(MathParseErrors::BinaryOpOnFloat(f, op))
        } else {
            Ok(())
        }
    }

    /// Return an error if the given number is 0.
    pub fn err_on_zero(self) -> (r: Result<(), MathParseErrors>)
        ensures
            spec_is_zero(self) ==> r == Err::<(), MathParseErrors>(
                MathParseErrors::UnexpectedZero,
            ),
            !spec_is_zero(self) ==> r is Ok,
    {
        if self.is_zero() {
            Err(MathParseErrors::UnexpectedZero)
        } else {
            Ok(())
        }
    }

    /// Return an error if the given number is negative.
    pub fn err_on_negative(self) -> (r: Result<(), MathParseErrors>)
        ensures
            spec_is_negative(self) ==> r == Err::<(), MathParseErrors>(
                MathParseErrors::UnexpectedNegative,
            ),
            !spec_is_negative(self) ==> r is Ok,
    {
        if self.is_negative() {
            Err(MathParseErrors::UnexpectedNegative)
        } else {
            Ok(())
        }
    }

    /// The sum of two numbers, wrapping in the `Int` domain.
    pub fn add(self, other: Self) -> (r: Number)
        ensures
            r == spec_add(self, other),
    {
        match (self, other) {
            (Number::Int(s), Number::Int(o)) => Number::Int(s.wrapping_add(o)),
            (Number::Float(s), Number::Int(o)) => Number::Float(float_add(s, i_to_f(o))),
            (Number::Int(s), Number::Float(o)) => Number::Float(float_add(i_to_f(s), o)),
            (Number::Float(s), Number::Float(o)) => Number::Float(float_add(s, o)),
        }
    }

    /// The difference of two numbers, wrapping in the `Int` domain.
    pub fn sub(self, other: Self) -> (r: Number)
        ensures
            r == spec_sub(self, other),
    {
        match (self, other) {
            (Number::Int(s), Number::Int(o)) => Number::Int(s.wrapping_sub(o)),
            (Number::Float(s), Number::Int(o)) => Number::Float(float_sub(s, i_to_f(o))),
            (Number::Int(s), Number::Float(o)) => Number::Float(float_sub(i_to_f(s), o)),
            (Number::Float(s), Number::Float(o)) => Number::Float(float_sub(s, o)),
        }
    }

    /// The product of two numbers, wrapping in the `Int` domain.
    pub fn mul(self, other: Self) -> (r: Number)
        ensures
            r == spec_mul(self, other),
    {
        match (self, other) {
            (Number::Int(s), Number::Int(o)) => Number::Int(s.wrapping_mul(o)),
            (Number::Float(s), Number::Int(o)) => Number::Float(float_mul(s, i_to_f(o))),
            (Number::Int(s), Number::Float(o)) => Number::Float(float_mul(i_to_f(s), o)),
            (Number::Float(s), Number::Float(o)) => Number::Float(float_mul(s, o)),
        }
    }

    /// The quotient of two numbers: always a float, refusing a zero divisor.
    pub fn div(self, other: Self) -> (r: Result<Number, MathParseErrors>)
        ensures
            r == spec_div(self, other),
    {
        other.err_on_zero()?;
        match (self, other) {
            (Number::Int(s), Number::Int(o)) => Ok(Number::Float(float_div(i_to_f(s), i_to_f(o)))),
            (Number::Float(s), Number::Int(o)) => Ok(Number::Float(float_div(s, i_to_f(o)))),
            (Number::Int(s), Number::Float(o)) => Ok(Number::Float(float_div(i_to_f(s), o))),
            (Number::Float(s), Number::Float(o)) => Ok(Number::Float(float_div(s, o))),
        }
    }

    /// The remainder of two numbers, refusing a zero divisor.
    pub fn rem(self, other: Self) -> (r: Result<Number, MathParseErrors>)
        ensures
            r == spec_rem(self, other),
    {
        other.err_on_zero()?;
        match (self, other) {
            (Number::Int(s), Number::Int(o)) => {
                match s.checked_rem(o) {
                    Some(m) => Ok(Number::Int(m)),
                    None => Ok(Number::Int(0)),
                }
            },
            (Number::Float(s), Number::Int(o)) => Ok(Number::Float(float_rem(s, i_to_f(o)))),
            (Number::Int(s), Number::Float(o)) => Ok(Number::Float(float_rem(i_to_f(s), o))),
            (Number::Float(s), Number::Float(o)) => Ok(Number::Float(float_rem(s, o))),
        }
    }

    /// Bitwise negation of an `Int`; a float is refused.
    pub fn not(self) -> (r: Result<Number, MathParseErrors>)
        ensures
            r == spec_not(self),
    {
        match self {
            Number::Int(s) => Ok(Number::Int(!s)),
            Number::Float(f) => Err(MathParseErrors::BinaryOpOnFloat(f, '!')),
        }
    }

    /// Bitwise exclusive or; floats are refused.
    pub fn bitxor(self, other: Self) -> (r: Result<Number, MathParseErrors>)
        ensures
            r == spec_bitxor(self, other),
    {
        self.err_on_float('^')?;
        other.err_on_float('^')?;
        match (self, other) {
            (Number::Int(s), Number::Int(o)) => Ok(Number::Int(s ^ o)),
            _ => Err(
                MathParseErrors::MathParseInternalBug(
                    "invalid type check on binxor.".to_owned(),
                ),
            ),
        }
    }

    /// Bitwise and; floats are refused.
    pub fn bitand(self, other: Self) -> (r: Result<Number, MathParseErrors>)
        ensures
            r == spec_bitand(self, other),
    {
        self.err_on_float('&')?;
        other.err_on_float('&')?;
        match (self, other) {
            (Number::Int(s), Number::Int(o)) => Ok(Number::Int(s & o)),
            _ => Err(
                MathParseErrors::MathParseInternalBug(
                    "invalid type check on binand.".to_owned(),
                ),
            ),
        }
    }

    /// Bitwise or; floats are refused.
    pub fn bitor(self, other: Self) -> (r: Result<Number, MathParseErrors>)
        ensures
            r == spec_bitor(self, other),
    {
        self.err_on_float('|')?;
        other.err_on_float('|')?;
        match (self, other) {
            (Number::Int(s), Number::Int(o)) => Ok(Number::Int(s | o)),
            _ => Err(
                MathParseErrors::MathParseInternalBug(
                    "invalid type check on binor.".to_owned(),
                ),
            ),
        }
    }

    /// Left shift; floats and negative amounts are refused.
    pub fn shl(self, other: Self) -> (r: Result<Number, MathParseErrors>)
        ensures
            r == spec_shl(self, other),
    {
        self.err_on_float('≪')?;
        other.err_on_float('≪')?;
        other.err_on_negative()?;
        match (self, other) {
            (Number::Int(s), Number::Int(o)) => {
                let sh: u32 = ((o as u64) % 64) as u32;
                Ok(Number::Int(s.wrapping_shl(sh)))
            },
            _ => Err(
                MathParseErrors::MathParseInternalBug(
                    "invalid type check on shl.".to_owned(),
                ),
            ),
        }
    }

    /// Right shift; floats and negative amounts are refused.
    pub fn shr(self, other: Self) -> (r: Result<Number, MathParseErrors>)
        ensures
            r == spec_shr(self, other),
    {
        self.err_on_float('≫')?;
        other.err_on_float('≫')?;
        other.err_on_negative()?;
        match (self, other) {
            (Number::Int(s), Number::Int(o)) => {
                let sh: u32 = ((o as u64) % 64) as u32;
                Ok(Number::Int(s.wrapping_shr(sh)))
            },
            _ => Err(
                MathParseErrors::MathParseInternalBug(
                    "invalid type check on shr.".to_owned(),
                ),
            ),
        }
    }

    /// Integer division, truncated toward zero, refusing a zero divisor.
    pub fn integer_div(self, other: Self) -> (r: Result<Number, MathParseErrors>)
        ensures
            r == spec_integer_div(self, other),
    {
        other.err_on_zero()?;
        let m = self.rem(other)?;
        let s = self.sub(m);
        let s_int = match s {
            Number::Int(i) => i,
            Number::Float(f) => f_to_i(f)?,
        };
        let o_int = match other {
            Number::Int(i) => i,
            Number::Float(f) => f_to_i(f)?,
        };
        if o_int == 0 {
            return Err(MathParseErrors::UnexpectedZero);
        }
        match s_int.checked_div(o_int) {
            Some(q) => Ok(Number::Int(q)),
            None => Ok(Number::Int(i64::MIN)),
        }
    }
}

} // verus!
