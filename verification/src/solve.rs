//! The evaluator: reading numeric literals, applying operators, and running a
//! list of RPN instructions against a value stack.
//!
//! The heart of the contracts here is [`spec_eval_rpn`], a mathematical stack
//! machine over the instruction views: the executable solver is proved to
//! return exactly what that machine returns.
use crate::errors::ErrorV;
use crate::errors::MathParseErrors;
use crate::errors::result_view;
use crate::float_bits::f_of_str;
use crate::float_bits::float_of_str;
use crate::instructions::RPN;
use crate::instructions::RPNV;
use crate::instructions::rpn_seq_view;
use crate::numbers::Number;
use crate::numbers::spec_add;
use crate::numbers::spec_bitand;
use crate::numbers::spec_bitor;
use crate::numbers::spec_bitxor;
use crate::numbers::spec_div;
use crate::numbers::spec_integer_div;
use crate::numbers::spec_mul;
use crate::numbers::spec_not;
use crate::numbers::spec_rem;
use crate::numbers::spec_shl;
use crate::numbers::spec_shr;
use crate::numbers::spec_sub;
use crate::ops::BinaryOp;
use crate::ops::UnaryOp;
use crate::rpn_stack_manipulation::execute_binary;
use crate::rpn_stack_manipulation::execute_unary;
use crate::text::str_chars;
use vstd::prelude::*;

verus! {

/* ------------------------- Reading numeric literals ------------------------ */

/// The value of one digit character under the given radix, as
/// `char::to_digit` reads it: `0-9`, then `a-z` and `A-Z` from ten up.
pub open spec fn spec_digit_val(c: char, radix: u32) -> Option<u32> {
    let v = c as u32;
    if 48 <= v && v <= 57 {
        if v - 48 < radix {
            Some((v - 48) as u32)
        } else {
            None
        }
    } else if 97 <= v && v <= 122 {
        if v - 97 + 10 < radix {
            Some((v - 97 + 10) as u32)
        } else {
            None
        }
    } else if 65 <= v && v <= 90 {
        if v - 65 + 10 < radix {
            Some((v - 65 + 10) as u32)
        } else {
            None
        }
    } else {
        None
    }
}

/// The value of one digit character under the given radix.
fn digit_val(c: char, radix: u32) -> (r: Option<u32>)
    ensures
        r == spec_digit_val(c, radix),
{
    let v = c as u32;
    if 48 <= v && v <= 57 {
        if v - 48 < radix {
            Some(v - 48)
        } else {
            None
        }
    } else if 97 <= v && v <= 122 {
        if v - 97 + 10 < radix {
            Some(v - 97 + 10)
        } else {
            None
        }
    } else if 65 <= v && v <= 90 {
        if v - 65 + 10 < radix {
            Some(v - 65 + 10)
        } else {
            None
        }
    } else {
        None
    }
}

/// The value of a run of digits under the given radix, most significant
/// first; nothing if any character is no digit of the radix. An empty run
/// counts as zero (callers refuse empty runs themselves).
pub open spec fn spec_digits_value(s: Seq<char>, radix: u32) -> Option<int>
    decreases s.len(),
{
    if s.len() == 0 {
        Some(0)
    } else {
        match spec_digits_value(s.drop_last(), radix) {
            None => None,
            Some(v) => match spec_digit_val(s.last(), radix) {
                None => None,
                Some(d) => Some(v * radix + d),
            },
        }
    }
}

/// The value of a digit run is never negative.
proof fn lemma_digits_value_nonneg(s: Seq<char>, radix: u32)
    ensures
        spec_digits_value(s, radix) matches Some(v) ==> v >= 0,
    decreases s.len(),
{
    if s.len() > 0 {
        lemma_digits_value_nonneg(s.drop_last(), radix);
        if let Some(v) = spec_digits_value(s.drop_last(), radix) {
            if let Some(d) = spec_digit_val(s.last(), radix) {
                assert(v * radix >= 0) by (nonlinear_arith)
                    requires
                        v >= 0,
                        radix >= 0,
                ;
            }
        }
    }
}

/// A run holding one bad character has no value.
proof fn lemma_digits_value_invalid(s: Seq<char>, radix: u32, k: int)
    requires
        0 <= k < s.len(),
        spec_digit_val(s[k], radix) is None,
    ensures
        spec_digits_value(s, radix) is None,
    decreases s.len(),
{
    if k == s.len() - 1 {
    } else {
        lemma_digits_value_invalid(s.drop_last(), radix, k);
    }
}

/// Reading more digits never shrinks the value.
proof fn lemma_digits_value_prefix_bound(s: Seq<char>, radix: u32, k: int)
    requires
        0 <= k <= s.len(),
        1 <= radix,
        spec_digits_value(s, radix) is Some,
        spec_digits_value(s.take(k), radix) is Some,
    ensures
        spec_digits_value(s, radix)->Some_0 >= spec_digits_value(s.take(k), radix)->Some_0,
    decreases s.len() - k,
{
    if k == s.len() {
        assert(s.take(k) =~= s);
    } else {
        let shorter = s.drop_last();
        assert(shorter.take(k) =~= s.take(k));
        let v = spec_digits_value(shorter, radix)->Some_0;
        let d = spec_digit_val(s.last(), radix)->Some_0;
        lemma_digits_value_nonneg(shorter, radix);
        lemma_digits_value_prefix_bound(shorter, radix, k);
        assert(v * radix + d >= v) by (nonlinear_arith)
            requires
                v >= 0,
                d >= 0,
                radix >= 1,
        ;
    }
}

/// What reading a whole signed run of digits returns, as
/// `i64::from_str_radix` reads it: one optional sign, then at least one
/// digit, refused when the value leaves the 64-bit signed range.
pub open spec fn spec_parse_int_radix(s: Seq<char>, radix: u32) -> Option<i64> {
    if s.len() == 0 {
        None
    } else {
        let neg = s[0] == '-';
        let signed = s[0] == '-' || s[0] == '+';
        let ds = if signed {
            s.drop_first()
        } else {
            s
        };
        if ds.len() == 0 {
            None
        } else {
            match spec_digits_value(ds, radix) {
                None => None,
                Some(v) => if neg {
                    if v <= 0x8000_0000_0000_0000 {
                        Some((-v) as i64)
                    } else {
                        None
                    }
                } else {
                    if v <= 0x7fff_ffff_ffff_ffff {
                        Some(v as i64)
                    } else {
                        None
                    }
                },
            }
        }
    }
}

/// Reads a signed integer out of the characters from `start` on, under the
/// given radix.
fn parse_int_radix(v: &Vec<char>, start: usize, radix: u32) -> (r: Option<i64>)
    requires
        start <= v@.len(),
        radix == 10 || radix == 16,
    ensures
        r == spec_parse_int_radix(v@.skip(start as int), radix),
{
    let ghost s = v@.skip(start as int);
    let n = v.len();
    if start >= n {
        return None;
    }
    let first = v[start];
    let neg = first == '-';
    let signed = neg || first == '+';
    let from: usize = if signed {
        start + 1
    } else {
        start
    };
    let ghost ds = v@.skip(from as int);
    proof {
        assert(s[0] == v@[start as int]);
        if signed {
            assert(s.drop_first() =~= ds);
        } else {
            assert(s =~= ds);
        }
    }
    if from >= n {
        return None;
    }
    let mut acc: u128 = 0;
    let mut idx: usize = from;
    while idx < n
        invariant
            from <= idx <= n,
            n == v@.len(),
            start < n,
            from <= n,
            radix == 10 || radix == 16,
            s == v@.skip(start as int),
            ds == v@.skip(from as int),
            neg == (s[0] == '-'),
            signed == (s[0] == '-' || s[0] == '+'),
            from == if signed { (start + 1) as int } else { start as int },
            ds == if signed { s.drop_first() } else { s },
            ds.len() > 0,
            acc <= 0x8000_0000_0000_0000u128,
            spec_digits_value(v@.subrange(from as int, idx as int), radix) == Some(acc as int),
        decreases n - idx,
    {
        let ghost prefix = v@.subrange(from as int, idx as int);
        match digit_val(v[idx], radix) {
            None => {
                proof {
                    assert(ds[idx - from] == v@[idx as int]);
                    lemma_digits_value_invalid(ds, radix, idx - from);
                }
                return None;
            },
            Some(d) => {
                proof {
                    assert(acc * (radix as u128) + (d as u128) <= 0x8000_0000_0000_0000u128 * 16
                        + 15) by (nonlinear_arith)
                        requires
                            acc <= 0x8000_0000_0000_0000u128,
                            radix <= 16,
                            d < radix,
                    ;
                }
                let next = acc * (radix as u128) + (d as u128);
                let ghost longer = v@.subrange(from as int, idx + 1 as int);
                proof {
                    assert(longer.drop_last() =~= prefix);
                    assert(longer.last() == v@[idx as int]);
                    assert(spec_digits_value(longer, radix) == Some(next as int));
                }
                if next > 0x8000_0000_0000_0000u128 {
                    proof {
                        if spec_digits_value(ds, radix) is Some {
                            assert(ds.take(idx + 1 - from) =~= longer);
                            lemma_digits_value_prefix_bound(ds, radix, idx + 1 - from);
                        }
                    }
                    return None;
                }
                acc = next;
            },
        }
        idx = idx + 1;
    }
    proof {
        assert(v@.subrange(from as int, n as int) =~= ds);
    }
    if neg {
        if acc == 0x8000_0000_0000_0000u128 {
            Some(i64::MIN)
        } else {
            Some(-(acc as i64))
        }
    } else {
        if acc > 0x7fff_ffff_ffff_ffffu128 {
            None
        } else {
            Some(acc as i64)
        }
    }
}

/// The states of reading a float literal, after the optional sign: the
/// grammar a standard float reading accepts is digits, an optional dot with
/// optional fraction digits (or a dot with fraction digits and no whole
/// part), and an optional exponent of `e` or `E`, an optional sign and at
/// least one digit.
pub enum FloatScan {
    /// Nothing read yet.
    MantissaStart,
    /// Inside the whole part's digits.
    WholeDigits,
    /// A leading dot, no digit yet.
    DotOnly,
    /// Past the dot, zero or more fraction digits (a trailing dot counts).
    FracDigits,
    /// Just past `e` or `E`.
    ExpStart,
    /// Just past the exponent's sign.
    ExpSigned,
    /// Inside the exponent's digits.
    ExpDigits,
}

/// Whether the character is an ASCII digit.
pub open spec fn spec_is_ascii_digit(c: char) -> bool {
    48 <= c as u32 && c as u32 <= 57
}

/// Whether a float reading may stop in this state.
pub open spec fn spec_float_accepting(state: FloatScan) -> bool {
    state is WholeDigits || state is FracDigits || state is ExpDigits
}

/// Where one more character takes the float reading, or nowhere.
pub open spec fn spec_float_step(state: FloatScan, c: char) -> Option<FloatScan> {
    match state {
        FloatScan::MantissaStart => if spec_is_ascii_digit(c) {
            Some(FloatScan::WholeDigits)
        } else if c == '.' {
            Some(FloatScan::DotOnly)
        } else {
            None
        },
        FloatScan::WholeDigits => if spec_is_ascii_digit(c) {
            Some(FloatScan::WholeDigits)
        } else if c == '.' {
            Some(FloatScan::FracDigits)
        } else if c == 'e' || c == 'E' {
            Some(FloatScan::ExpStart)
        } else {
            None
        },
        FloatScan::DotOnly => if spec_is_ascii_digit(c) {
            Some(FloatScan::FracDigits)
        } else {
            None
        },
        FloatScan::FracDigits => if spec_is_ascii_digit(c) {
            Some(FloatScan::FracDigits)
        } else if c == 'e' || c == 'E' {
            Some(FloatScan::ExpStart)
        } else {
            None
        },
        FloatScan::ExpStart => if spec_is_ascii_digit(c) {
            Some(FloatScan::ExpDigits)
        } else if c == '+' || c == '-' {
            Some(FloatScan::ExpSigned)
        } else {
            None
        },
        FloatScan::ExpSigned => if spec_is_ascii_digit(c) {
            Some(FloatScan::ExpDigits)
        } else {
            None
        },
        FloatScan::ExpDigits => if spec_is_ascii_digit(c) {
            Some(FloatScan::ExpDigits)
        } else {
            None
        },
    }
}

/// Whether the text from position `i` on finishes a float literal begun in
/// the given state.
pub open spec fn spec_float_scan(s: Seq<char>, i: int, state: FloatScan) -> bool
    decreases s.len() - i,
{
    if i >= s.len() {
        spec_float_accepting(state)
    } else {
        match spec_float_step(state, s[i]) {
            None => false,
            Some(next) => spec_float_scan(s, i + 1, next),
        }
    }
}

/// Whether the two characters are the same letter up to ASCII case.
pub open spec fn spec_ci_eq(c: char, lower: char) -> bool {
    c == lower || c as u32 + 32 == lower as u32
}

/// How a text reads as a float literal: one of the special words (with its
/// sign), a numeric literal, or no float at all.
pub enum FloatTextClass {
    /// The word `inf` or `infinity`, in any letter case; the flag carries a
    /// leading minus.
    Infinite(bool),
    /// The word `nan`, in any letter case; the flag carries a leading minus.
    NotANumber(bool),
    /// A numeric literal: mantissa and optional exponent.
    Numeric,
    /// Anything else.
    NotFloat,
}

/// How a text, after its optional sign, reads as a float literal.
pub open spec fn spec_float_body_class(b: Seq<char>, neg: bool) -> FloatTextClass {
    if b.len() == 3 && spec_ci_eq(b[0], 'i') && spec_ci_eq(b[1], 'n') && spec_ci_eq(b[2], 'f') {
        FloatTextClass::Infinite(neg)
    } else if b.len() == 8 && spec_ci_eq(b[0], 'i') && spec_ci_eq(b[1], 'n') && spec_ci_eq(
        b[2],
        'f',
    ) && spec_ci_eq(b[3], 'i') && spec_ci_eq(b[4], 'n') && spec_ci_eq(b[5], 'i') && spec_ci_eq(
        b[6],
        't',
    ) && spec_ci_eq(b[7], 'y') {
        FloatTextClass::Infinite(neg)
    } else if b.len() == 3 && spec_ci_eq(b[0], 'n') && spec_ci_eq(b[1], 'a') && spec_ci_eq(
        b[2],
        'n',
    ) {
        FloatTextClass::NotANumber(neg)
    } else if spec_float_scan(b, 0, FloatScan::MantissaStart) {
        FloatTextClass::Numeric
    } else {
        FloatTextClass::NotFloat
    }
}

/// How a whole text reads as a float literal, the grammar a standard float
/// reading accepts: an optional sign, then a special word or a numeric
/// literal.
pub open spec fn spec_float_class(s: Seq<char>) -> FloatTextClass {
    if s.len() == 0 {
        FloatTextClass::NotFloat
    } else if s[0] == '-' {
        spec_float_body_class(s.skip(1), true)
    } else if s[0] == '+' {
        spec_float_body_class(s.skip(1), false)
    } else {
        spec_float_body_class(s, false)
    }
}

/// Tells an ASCII digit.
fn is_ascii_digit(c: char) -> (r: bool)
    ensures
        r == spec_is_ascii_digit(c),
{
    let v = c as u32;
    48 <= v && v <= 57
}

/// Tells a letter equal to the given lowercase one up to ASCII case.
fn ci_eq(c: char, lower: char) -> (r: bool)
    ensures
        r == spec_ci_eq(c, lower),
{
    c == lower || c as u32 + 32 == lower as u32
}

/// Runs the float literal reading over the characters from `from` on.
fn float_scan(v: &Vec<char>, from: usize) -> (r: bool)
    requires
        from <= v@.len(),
    ensures
        r == spec_float_scan(v@.skip(from as int), 0, FloatScan::MantissaStart),
{
    let ghost b = v@.skip(from as int);
    let mut state = FloatScan::MantissaStart;
    let mut i: usize = from;
    while i < v.len()
        invariant
            from <= i <= v@.len(),
            b == v@.skip(from as int),
            spec_float_scan(b, 0, FloatScan::MantissaStart) == spec_float_scan(
                b,
                i - from,
                state,
            ),
        decreases v@.len() - i,
    {
        proof {
            assert(b[i - from] == v@[i as int]);
        }
        let c = v[i];
        let next = match state {
            FloatScan::MantissaStart => {
                if is_ascii_digit(c) {
                    Some(FloatScan::WholeDigits)
                } else if c == '.' {
                    Some(FloatScan::DotOnly)
                } else {
                    None
                }
            },
            FloatScan::WholeDigits => {
                if is_ascii_digit(c) {
                    Some(FloatScan::WholeDigits)
                } else if c == '.' {
                    Some(FloatScan::FracDigits)
                } else if c == 'e' || c == 'E' {
                    Some(FloatScan::ExpStart)
                } else {
                    None
                }
            },
            FloatScan::DotOnly => {
                if is_ascii_digit(c) {
                    Some(FloatScan::FracDigits)
                } else {
                    None
                }
            },
            FloatScan::FracDigits => {
                if is_ascii_digit(c) {
                    Some(FloatScan::FracDigits)
                } else if c == 'e' || c == 'E' {
                    Some(FloatScan::ExpStart)
                } else {
                    None
                }
            },
            FloatScan::ExpStart => {
                if is_ascii_digit(c) {
                    Some(FloatScan::ExpDigits)
                } else if c == '+' || c == '-' {
                    Some(FloatScan::ExpSigned)
                } else {
                    None
                }
            },
            FloatScan::ExpSigned => {
                if is_ascii_digit(c) {
                    Some(FloatScan::ExpDigits)
                } else {
                    None
                }
            },
            FloatScan::ExpDigits => {
                if is_ascii_digit(c) {
                    Some(FloatScan::ExpDigits)
                } else {
                    None
                }
            },
        };
        match next {
            Some(n) => {
                state = n;
            },
            None => {
                return false;
            },
        }
        i = i + 1;
    }
    match state {
        FloatScan::WholeDigits | FloatScan::FracDigits | FloatScan::ExpDigits => true,
        _ => false,
    }
}

/// Reads how the characters from `from` on, with the given sign, class as a
/// float literal.
fn classify_float_body(v: &Vec<char>, from: usize, neg: bool) -> (r: FloatTextClass)
    requires
        from <= v@.len(),
    ensures
        r == spec_float_body_class(v@.skip(from as int), neg),
{
    let ghost b = v@.skip(from as int);
    let len = v.len() - from;
    proof {
        assert(b.len() == len);
        assert(forall|j: int| 0 <= j < b.len() ==> #[trigger] b[j] == v@[from + j]);
    }
    if len == 3 && ci_eq(v[from], 'i') && ci_eq(v[from + 1], 'n') && ci_eq(v[from + 2], 'f') {
        FloatTextClass::Infinite(neg)
    } else if len == 8 && ci_eq(v[from], 'i') && ci_eq(v[from + 1], 'n') && ci_eq(
        v[from + 2],
        'f',
    ) && ci_eq(v[from + 3], 'i') && ci_eq(v[from + 4], 'n') && ci_eq(v[from + 5], 'i') && ci_eq(
        v[from + 6],
        't',
    ) && ci_eq(v[from + 7], 'y') {
        FloatTextClass::Infinite(neg)
    } else if len == 3 && ci_eq(v[from], 'n') && ci_eq(v[from + 1], 'a') && ci_eq(
        v[from + 2],
        'n',
    ) {
        FloatTextClass::NotANumber(neg)
    } else if float_scan(v, from) {
        FloatTextClass::Numeric
    } else {
        FloatTextClass::NotFloat
    }
}

/// Reads how a text classes as a float literal.
fn classify_float(v: &Vec<char>) -> (r: FloatTextClass)
    ensures
        r == spec_float_class(v@),
{
    if v.len() == 0 {
        FloatTextClass::NotFloat
    } else if v[0] == '-' {
        classify_float_body(v, 1, true)
    } else if v[0] == '+' {
        classify_float_body(v, 1, false)
    } else {
        proof {
            assert(v@.skip(0) =~= v@);
        }
        classify_float_body(v, 0, false)
    }
}

/// What reading a numeric literal returns: a `0x`-prefixed run is a
/// hexadecimal integer; else a base-10 integer is tried, then a float. The
/// float step accepts exactly the grammar a standard float reading does: the
/// special words give their constant bit patterns, numeric literals are
/// converted, and everything else is refused (so a hexadecimal float never
/// slips through).
pub open spec fn spec_number_from_string(s: Seq<char>) -> Result<Number, ErrorV> {
    let int_read = if s.len() >= 3 && s[0] == '0' && s[1] == 'x' {
        spec_parse_int_radix(s.skip(2), 16)
    } else {
        spec_parse_int_radix(s, 10)
    };
    match int_read {
        Some(i) => Ok(Number::Int(i)),
        None => match spec_float_class(s) {
            FloatTextClass::Infinite(neg) => Ok(
                Number::Float(
                    if neg {
                        crate::float_bits::NEG_INFINITY_BITS
                    } else {
                        crate::float_bits::INFINITY_BITS
                    },
                ),
            ),
            FloatTextClass::NotANumber(neg) => Ok(
                Number::Float(
                    if neg {
                        crate::float_bits::NEG_NAN_BITS
                    } else {
                        crate::float_bits::NAN_BITS
                    },
                ),
            ),
            FloatTextClass::Numeric => match f_of_str(s) {
                Some(b) => Ok(Number::Float(b)),
                None => Err(ErrorV::InvalidNumber(s)),
            },
            FloatTextClass::NotFloat => Err(ErrorV::InvalidNumber(s)),
        },
    }
}

/// Takes a string and try to return a number for it.
pub fn number_from_string(s: &str) -> (r: Result<Number, MathParseErrors>)
    ensures
        result_view(r) == spec_number_from_string(s@),
{
    let v = str_chars(s);
    let int_read = if v.len() >= 3 && v[0] == '0' && v[1] == 'x' {
        parse_int_radix(&v, 2, 16)
    } else {
        proof {
            assert(v@.skip(0) =~= v@);
        }
        parse_int_radix(&v, 0, 10)
    };
    match int_read {
        Some(i) => Ok(Number::Int(i)),
        None => {
            match classify_float(&v) {
                FloatTextClass::Infinite(neg) => Ok(
                    Number::Float(
                        if neg {
                            crate::float_bits::NEG_INFINITY_BITS
                        } else {
                            crate::float_bits::INFINITY_BITS
                        },
                    ),
                ),
                FloatTextClass::NotANumber(neg) => Ok(
                    Number::Float(
                        if neg {
                            crate::float_bits::NEG_NAN_BITS
                        } else {
                            crate::float_bits::NAN_BITS
                        },
                    ),
                ),
                FloatTextClass::Numeric => match float_of_str(s) {
                    Some(b) => Ok(Number::Float(b)),
                    None => Err(MathParseErrors::InvalidNumber(s.to_owned())),
                },
                FloatTextClass::NotFloat => Err(MathParseErrors::InvalidNumber(s.to_owned())),
            }
        },
    }
}

/* ------------------------------ Applying operators ------------------------- */

/// What applying a unary operator to a number returns.
pub open spec fn spec_compute_unary(num: Number, op: UnaryOp) -> Result<Number, MathParseErrors> {
    match op {
        UnaryOp::Not => spec_not(num),
        UnaryOp::Minus => Ok(spec_mul(Number::Int(-1i64), num)),
        UnaryOp::Plus => Ok(num),
    }
}

/// What applying a binary operator to two numbers returns; `num_1` is the
/// left hand side.
pub open spec fn spec_compute_binary(num_1: Number, num_2: Number, op: BinaryOp) -> Result<
    Number,
    MathParseErrors,
> {
    match op {
        BinaryOp::Multiplication => Ok(spec_mul(num_1, num_2)),
        BinaryOp::Division => spec_div(num_1, num_2),
        BinaryOp::IntegerDivision => spec_integer_div(num_1, num_2),
        BinaryOp::Reminder => spec_rem(num_1, num_2),
        BinaryOp::Addition => Ok(spec_add(num_1, num_2)),
        BinaryOp::Subtraction => Ok(spec_sub(num_1, num_2)),
        BinaryOp::ShiftLeft => spec_shl(num_1, num_2),
        BinaryOp::ShiftRight => spec_shr(num_1, num_2),
        BinaryOp::BitwiseAnd => spec_bitand(num_1, num_2),
        BinaryOp::BitwiseOr => spec_bitor(num_1, num_2),
        BinaryOp::BitwiseXor => spec_bitxor(num_1, num_2),
    }
}

/// Applies a unary operator to a number.
pub fn compute_unary(num: Number, op: UnaryOp) -> (r: Result<Number, MathParseErrors>)
    ensures
        r == spec_compute_unary(num, op),
{
    match op {
        UnaryOp::Not => num.not(),
        UnaryOp::Minus => Ok(Number::Int(-1).mul(num)),
        UnaryOp::Plus => Ok(num),
    }
}

/// Applies a binary operator to two numbers; `num_1` is the left hand side.
pub fn compute_binary(num_1: Number, num_2: Number, op: BinaryOp) -> (r: Result<
    Number,
    MathParseErrors,
>)
    ensures
        r == spec_compute_binary(num_1, num_2, op),
{
    match op {
        BinaryOp::Multiplication => Ok(num_1.mul(num_2)),
        BinaryOp::Division => num_1.div(num_2),
        BinaryOp::IntegerDivision => num_1.integer_div(num_2),
        BinaryOp::Reminder => num_1.rem(num_2),
        BinaryOp::Addition => Ok(num_1.add(num_2)),
        BinaryOp::Subtraction => Ok(num_1.sub(num_2)),
        BinaryOp::ShiftLeft => num_1.shl(num_2),
        BinaryOp::ShiftRight => num_1.shr(num_2),
        BinaryOp::BitwiseAnd => num_1.bitand(num_2),
        BinaryOp::BitwiseOr => num_1.bitor(num_2),
        BinaryOp::BitwiseXor => num_1.bitxor(num_2),
    }
}

/* ------------------------------ The RPN machine ---------------------------- */

/// One step of the RPN machine: the given instruction applied to the value
/// stack. A `Name` pushes the value its resolution `resv` came to; an
/// operator pops its operands and pushes its result; a stack too short is an
/// unbalanced expression. A state already failed stays failed.
pub open spec fn spec_eval_step(
    state: Result<Seq<Number>, ErrorV>,
    instr: RPNV,
    resv: Result<Number, ErrorV>,
) -> Result<Seq<Number>, ErrorV> {
    match state {
        Err(e) => Err(e),
        Ok(stack) => match instr {
            RPNV::Name(_) => match resv {
                Ok(n) => Ok(stack.push(n)),
                Err(e) => Err(e),
            },
            RPNV::Unary(op) => if stack.len() < 1 {
                Err(ErrorV::UnbalancedStack)
            } else {
                match result_view(spec_compute_unary(stack.last(), op)) {
                    Ok(n) => Ok(stack.drop_last().push(n)),
                    Err(e) => Err(e),
                }
            },
            RPNV::Binary(op) => if stack.len() < 2 {
                Err(ErrorV::UnbalancedStack)
            } else {
                match result_view(
                    spec_compute_binary(stack[stack.len() - 2], stack[stack.len() - 1], op),
                ) {
                    Ok(n) => Ok(stack.drop_last().drop_last().push(n)),
                    Err(e) => Err(e),
                }
            },
        },
    }
}

/// The value stack after the first `n` instructions, each `Name` resolved to
/// the matching entry of `res`.
pub open spec fn spec_eval_stack(
    rpn: Seq<RPNV>,
    res: Seq<Result<Number, ErrorV>>,
    n: int,
) -> Result<Seq<Number>, ErrorV>
    decreases n,
{
    if n <= 0 {
        Ok(Seq::empty())
    } else {
        spec_eval_step(spec_eval_stack(rpn, res, n - 1), rpn[n - 1], res[n - 1])
    }
}

/// What running a whole list of RPN instructions returns: the single value
/// the stack ends with, or the first error; a stack not ending with exactly
/// one value is an unbalanced expression.
pub open spec fn spec_eval_rpn(rpn: Seq<RPNV>, res: Seq<Result<Number, ErrorV>>) -> Result<
    Number,
    ErrorV,
> {
    match spec_eval_stack(rpn, res, rpn.len() as int) {
        Err(e) => Err(e),
        Ok(stack) => if stack.len() == 1 {
            Ok(stack[0])
        } else {
            Err(ErrorV::UnbalancedStack)
        },
    }
}

/// The resolution of every name as a plain numeric literal; entries under
/// operators carry a harmless placeholder.
pub open spec fn spec_literal_resolution(rpn: Seq<RPNV>) -> Seq<Result<Number, ErrorV>> {
    Seq::new(
        rpn.len(),
        |i: int|
            match rpn[i] {
                RPNV::Name(n) => spec_number_from_string(n),
                _ => Ok(Number::Int(0)),
            },
    )
}

/// What solving a list of RPN instructions without a variable table returns:
/// the machine's result with every name read as a literal.
pub open spec fn spec_solve_literal(rpn: Seq<RPNV>) -> Result<Number, ErrorV> {
    spec_eval_rpn(rpn, spec_literal_resolution(rpn))
}

/// The machine only reads the instructions and resolutions of the steps it
/// takes.
pub proof fn lemma_eval_stack_prefix(
    rpn1: Seq<RPNV>,
    rpn2: Seq<RPNV>,
    res1: Seq<Result<Number, ErrorV>>,
    res2: Seq<Result<Number, ErrorV>>,
    n: int,
)
    requires
        forall|j: int| 0 <= j < n ==> rpn1[j] == rpn2[j],
        forall|j: int| 0 <= j < n ==> res1[j] == res2[j],
    ensures
        spec_eval_stack(rpn1, res1, n) == spec_eval_stack(rpn2, res2, n),
    decreases n,
{
    if n > 0 {
        lemma_eval_stack_prefix(rpn1, rpn2, res1, res2, n - 1);
    }
}

/// Once the machine has failed, it stays failed.
pub proof fn lemma_eval_stack_err_stable(
    rpn: Seq<RPNV>,
    res: Seq<Result<Number, ErrorV>>,
    n: int,
    m: int,
)
    requires
        0 <= n <= m,
        spec_eval_stack(rpn, res, n) is Err,
    ensures
        spec_eval_stack(rpn, res, m) == spec_eval_stack(rpn, res, n),
    decreases m - n,
{
    if m > n {
        lemma_eval_stack_err_stable(rpn, res, n, m - 1);
    }
}

/// Execute all RPN actions with every name read as a plain literal, and
/// return the single element left on the stack.
pub fn math_solve_no_map(rpn_actions: &Vec<RPN>) -> (r: Result<Number, MathParseErrors>)
    ensures
        result_view(r) == spec_solve_literal(rpn_seq_view(rpn_actions@)),
{
    let ghost rpnv = rpn_seq_view(rpn_actions@);
    let ghost lres = spec_literal_resolution(rpnv);
    let mut number_stack: Vec<Number> = Vec::new();
    let mut i: usize = 0;
    proof {
        assert(spec_eval_stack(rpnv, lres, 0) == Ok::<Seq<Number>, ErrorV>(number_stack@));
    }
    while i < rpn_actions.len()
        invariant
            i <= rpn_actions@.len(),
            rpnv == rpn_seq_view(rpn_actions@),
            lres == spec_literal_resolution(rpnv),
            spec_eval_stack(rpnv, lres, i as int) == Ok::<Seq<Number>, ErrorV>(number_stack@),
        decreases rpn_actions@.len() - i,
    {
        let ghost pre = number_stack@;
        proof {
            assert(rpnv[i as int] == rpn_actions@[i as int]@);
        }
        match &rpn_actions[i] {
            RPN::Name(x) => {
                match number_from_string(x.as_str()) {
                    Ok(n) => {
                        number_stack.push(n);
                    },
                    Err(e) => {
                        proof {
                            assert(spec_eval_stack(rpnv, lres, i + 1) == Err::<
                                Seq<Number>,
                                ErrorV,
                            >(e@));
                            lemma_eval_stack_err_stable(rpnv, lres, i + 1, rpnv.len() as int);
                        }
                        return Err(e);
                    },
                }
            },
            RPN::Unary(op) => {
                match execute_unary(&mut number_stack, *op) {
                    Ok(()) => {},
                    Err(e) => {
                        proof {
                            assert(spec_eval_stack(rpnv, lres, i + 1) == Err::<
                                Seq<Number>,
                                ErrorV,
                            >(e@));
                            lemma_eval_stack_err_stable(rpnv, lres, i + 1, rpnv.len() as int);
                        }
                        return Err(e);
                    },
                }
            },
            RPN::Binary(op) => {
                match execute_binary(&mut number_stack, *op) {
                    Ok(()) => {},
                    Err(e) => {
                        proof {
                            assert(spec_eval_stack(rpnv, lres, i + 1) == Err::<
                                Seq<Number>,
                                ErrorV,
                            >(e@));
                            lemma_eval_stack_err_stable(rpnv, lres, i + 1, rpnv.len() as int);
                        }
                        return Err(e);
                    },
                }
            },
        }
        i = i + 1;
    }
    if number_stack.len() == 1 {
        match number_stack.pop() {
            Some(n) => Ok(n),
            None => Err(
                MathParseErrors::MathParseInternalBug(
                    "a stack of one element had nothing to pop.".to_owned(),
                ),
            ),
        }
    } else {
        Err(MathParseErrors::UnbalancedStack)
    }
}


/* ------------------------------ Variable tables ---------------------------- */

/// The view of an optional variable table: each pair of texts as its pair of
/// character sequences.
pub open spec fn map_view(m: Option<&Vec<(String, String)>>) -> Option<
    Seq<(Seq<char>, Seq<char>)>,
> {
    match m {
        None => None,
        Some(v) => Some(v@.map_values(|p: (String, String)| (p.0@, p.1@))),
    }
}

/// The replacement text the table holds for the given name: the first
/// matching pair, searched from position `i` on, counts.
pub open spec fn spec_lookup_in(
    t: Seq<(Seq<char>, Seq<char>)>,
    key: Seq<char>,
    i: int,
) -> Option<Seq<char>>
    decreases t.len() - i,
{
    if i >= t.len() {
        None
    } else if t[i].0 == key {
        Some(t[i].1)
    } else {
        spec_lookup_in(t, key, i + 1)
    }
}

/// The replacement text the table holds for the given name, if any; the
/// first matching pair counts.
pub open spec fn spec_lookup(
    m: Option<Seq<(Seq<char>, Seq<char>)>>,
    key: Seq<char>,
) -> Option<Seq<char>> {
    match m {
        None => None,
        Some(t) => spec_lookup_in(t, key, 0),
    }
}

/// Looks a name up in the table; the first matching pair counts.
pub(crate) fn lookup_variable(map: Option<&Vec<(String, String)>>, name: &String) -> (r: Option<
    String,
>)
    ensures
        (match r {
            Some(v) => Some(v@),
            None => None,
        }) == spec_lookup(map_view(map), name@),
{
    match map {
        None => None,
        Some(table) => {
            let ghost tv = map_view(map)->Some_0;
            let mut i: usize = 0;
            while i < table.len()
                invariant
                    map == Some(table),
                    i <= table@.len(),
                    tv == map_view(map)->Some_0,
                    tv.len() == table@.len(),
                    spec_lookup_in(tv, name@, i as int) == spec_lookup_in(tv, name@, 0),
                decreases table@.len() - i,
            {
                proof {
                    assert(tv[i as int] == (table@[i as int].0@, table@[i as int].1@));
                }
                if table[i].0.eq(name) {
                    proof {
                        assert(spec_lookup_in(tv, name@, i as int) == Some(tv[i as int].1));
                    }
                    return Some(table[i].1.clone());
                }
                i = i + 1;
            }
            None
        },
    }
}

/// What evaluating the replacement expression a variable stands for returns:
/// the text goes through the whole pipeline, parsed and solved with no
/// further substitution applied inside it.
pub open spec fn spec_solve_replacement(text: Seq<char>) -> Result<Number, ErrorV> {
    match crate::spec_full_parse(text) {
        Err(e) => Err(e),
        Ok(rpn) => spec_solve_literal(rpn),
    }
}

/// Evaluates the replacement expression a variable stands for, through the
/// whole pipeline, with no further substitution applied inside it.
pub(crate) fn solve_replacement(new_name: &str) -> (r: Result<Number, MathParseErrors>)
    ensures
        result_view(r) == spec_solve_replacement(new_name@),
{
    let parsed_tree = crate::parse::math_parse(new_name)?;
    let internal = crate::rpn::parse_rpn(&parsed_tree)?;
    math_solve_no_map(&internal)
}

/// What one name resolves to under a table: the solution of its replacement
/// expression when the table holds it, else the name read as a plain
/// literal.
pub open spec fn spec_resolution_of(
    m: Option<Seq<(Seq<char>, Seq<char>)>>,
    n: Seq<char>,
) -> Result<Number, ErrorV> {
    match spec_lookup(m, n) {
        Some(text) => spec_solve_replacement(text),
        None => spec_number_from_string(n),
    }
}

/// The resolution of every name of the line under the table; entries under
/// operators carry a harmless placeholder.
pub open spec fn spec_table_resolution(
    rpn: Seq<RPNV>,
    m: Option<Seq<(Seq<char>, Seq<char>)>>,
) -> Seq<Result<Number, ErrorV>> {
    Seq::new(
        rpn.len(),
        |i: int|
            match rpn[i] {
                RPNV::Name(n) => spec_resolution_of(m, n),
                _ => Ok(Number::Int(0i64)),
            },
    )
}

/// What solving a list of RPN instructions under a table returns: the
/// machine's run with every name resolved through the table.
pub open spec fn spec_solve(rpn: Seq<RPNV>, m: Option<Seq<(Seq<char>, Seq<char>)>>) -> Result<
    Number,
    ErrorV,
> {
    spec_eval_rpn(rpn, spec_table_resolution(rpn, m))
}

/// Without a table every name is read as a plain literal.
pub proof fn lemma_solve_without_table(rpn: Seq<RPNV>)
    ensures
        spec_solve(rpn, None) == spec_solve_literal(rpn),
{
    assert(spec_table_resolution(rpn, None) =~= spec_literal_resolution(rpn));
}

/// Execute all RPN actions against a table of variables and return the
/// single element left on the stack. A name the table holds stands for its
/// replacement expression, itself parsed and solved with no further
/// substitution; any other name is read as a plain literal: the result is
/// exactly the machine run under the table's resolutions.
pub fn math_solve(rpn_actions: &Vec<RPN>, map: Option<&Vec<(String, String)>>) -> (r: Result<
    Number,
    MathParseErrors,
>)
    ensures
        result_view(r) == spec_solve(rpn_seq_view(rpn_actions@), map_view(map)),
{
    let ghost rpnv = rpn_seq_view(rpn_actions@);
    let ghost mv = map_view(map);
    let ghost tres = spec_table_resolution(rpnv, mv);
    let mut number_stack: Vec<Number> = Vec::new();
    proof {
        assert(spec_eval_stack(rpnv, tres, 0) == Ok::<Seq<Number>, ErrorV>(number_stack@));
    }
    let mut i: usize = 0;
    while i < rpn_actions.len()
        invariant
            i <= rpn_actions@.len(),
            rpnv == rpn_seq_view(rpn_actions@),
            mv == map_view(map),
            tres == spec_table_resolution(rpnv, mv),
            spec_eval_stack(rpnv, tres, i as int) == Ok::<Seq<Number>, ErrorV>(number_stack@),
        decreases rpn_actions@.len() - i,
    {
        proof {
            assert(rpnv[i as int] == rpn_actions@[i as int]@);
        }
        match &rpn_actions[i] {
            RPN::Name(x) => {
                let looked = lookup_variable(map, x);
                let value = match looked {
                    Some(replacement) => solve_replacement(replacement.as_str()),
                    None => number_from_string(x.as_str()),
                };
                proof {
                    assert(tres[i as int] == result_view(value));
                }
                match value {
                    Ok(n) => {
                        number_stack.push(n);
                    },
                    Err(e) => {
                        proof {
                            assert(spec_eval_stack(rpnv, tres, i + 1) == Err::<
                                Seq<Number>,
                                ErrorV,
                            >(e@));
                            lemma_eval_stack_err_stable(rpnv, tres, i + 1, rpnv.len() as int);
                        }
                        return Err(e);
                    },
                }
            },
            RPN::Unary(op) => {
                match execute_unary(&mut number_stack, *op) {
                    Ok(()) => {},
                    Err(e) => {
                        proof {
                            assert(spec_eval_stack(rpnv, tres, i + 1) == Err::<
                                Seq<Number>,
                                ErrorV,
                            >(e@));
                            lemma_eval_stack_err_stable(rpnv, tres, i + 1, rpnv.len() as int);
                        }
                        return Err(e);
                    },
                }
            },
            RPN::Binary(op) => {
                match execute_binary(&mut number_stack, *op) {
                    Ok(()) => {},
                    Err(e) => {
                        proof {
                            assert(spec_eval_stack(rpnv, tres, i + 1) == Err::<
                                Seq<Number>,
                                ErrorV,
                            >(e@));
                            lemma_eval_stack_err_stable(rpnv, tres, i + 1, rpnv.len() as int);
                        }
                        return Err(e);
                    },
                }
            },
        }
        i = i + 1;
    }
    if number_stack.len() == 1 {
        match number_stack.pop() {
            Some(n) => Ok(n),
            None => Err(
                MathParseErrors::MathParseInternalBug(
                    "a stack of one element had nothing to pop.".to_owned(),
                ),
            ),
        }
    } else {
        Err(MathParseErrors::UnbalancedStack)
    }
}

} // verus!
