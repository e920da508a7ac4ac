//! The closed taxonomy of everything that can go wrong while parsing or
//! solving a math expression. Every fallible function of this crate returns
//! one of these; none of them panics on user input.
use vstd::prelude::*;

verus! {

/// Type used to represent any errors that can happen in the parsing of a math
/// expression.
///
/// Floating-point payloads are carried as IEEE 754 binary64 bit patterns
/// (`u64`), so that the value travels unchanged through the verified code.
#[derive(Debug, PartialEq)]
pub enum MathParseErrors {
    /// A parenthesis was opened but never closed.
    UnclosedParenthesis,
    /// A closing parenthesis was used with no matching open parenthesis.
    UnopenedParenthesis,
    /// The math expression is empty. Or the right hand side of an operator is
    /// empty.
    EmptyLine,
    /// An expression that should have been a number but can't be read.
    InvalidNumber(String),
    /// An operator is not where it should be. Like a "*" after a "+", or the
    /// left hand side of an operator being empty.
    MisplacedOperator(char),
    /// An operator is the last element of a line of math.
    TrailingOperator,
    /// A float (given as its bit pattern) could not be converted to an int.
    IntConversion(u64),
    /// A binary operation have been tried on a float (given as its bit
    /// pattern).
    BinaryOpOnFloat(u64, char),
    /// We wanted to return an int but we got a float (given as its bit
    /// pattern) instead.
    ReturnFloatExpectedInt(u64),
    /// A given operator was invalid, but we can suggest an other instead.
    BadOperatorHint(char, &'static str),
    /// There was an unwanted zero.
    UnexpectedZero,
    /// There was an unwanted negative number.
    UnexpectedNegative,
    /// An operator is not valid in the context of RPN parsing.
    InvalidRPNOperator(char),
    /// The number of elements on the RPN stack is not valid.
    UnbalancedStack,
    /// This error should never be raised and should be reported to the
    /// library's maintainer.
    MathParseInternalBug(String),
}

/// The mathematical face of [`MathParseErrors`]: the same cases, with texts
/// abstracted to their character sequences. Contracts speak of this type.
pub enum ErrorV {
    UnclosedParenthesis,
    UnopenedParenthesis,
    EmptyLine,
    InvalidNumber(Seq<char>),
    MisplacedOperator(char),
    TrailingOperator,
    IntConversion(u64),
    BinaryOpOnFloat(u64, char),
    ReturnFloatExpectedInt(u64),
    BadOperatorHint(char, Seq<char>),
    UnexpectedZero,
    UnexpectedNegative,
    InvalidRPNOperator(char),
    UnbalancedStack,
    MathParseInternalBug(Seq<char>),
}

impl View for MathParseErrors {
    type V = ErrorV;

    open spec fn view(&self) -> ErrorV {
        match self {
            MathParseErrors::UnclosedParenthesis => ErrorV::UnclosedParenthesis,
            MathParseErrors::UnopenedParenthesis => ErrorV::UnopenedParenthesis,
            MathParseErrors::EmptyLine => ErrorV::EmptyLine,
            MathParseErrors::InvalidNumber(s) => ErrorV::InvalidNumber(s@),
            MathParseErrors::MisplacedOperator(c) => ErrorV::MisplacedOperator(*c),
            MathParseErrors::TrailingOperator => ErrorV::TrailingOperator,
            MathParseErrors::IntConversion(f) => ErrorV::IntConversion(*f),
            MathParseErrors::BinaryOpOnFloat(f, c) => ErrorV::BinaryOpOnFloat(*f, *c),
            MathParseErrors::ReturnFloatExpectedInt(f) => ErrorV::ReturnFloatExpectedInt(*f),
            MathParseErrors::BadOperatorHint(c, s) => ErrorV::BadOperatorHint(*c, s@),
            MathParseErrors::UnexpectedZero => ErrorV::UnexpectedZero,
            MathParseErrors::UnexpectedNegative => ErrorV::UnexpectedNegative,
            MathParseErrors::InvalidRPNOperator(c) => ErrorV::InvalidRPNOperator(*c),
            MathParseErrors::UnbalancedStack => ErrorV::UnbalancedStack,
            MathParseErrors::MathParseInternalBug(s) => ErrorV::MathParseInternalBug(s@),
        }
    }
}

/// The view of a result: values are kept, errors are viewed.
pub open spec fn result_view<T>(r: Result<T, MathParseErrors>) -> Result<T, ErrorV> {
    match r {
        Ok(v) => Ok(v),
        Err(e) => Err(e@),
    }
}

} // verus!
