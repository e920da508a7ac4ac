//! The unary and binary operators of the expression language, and how
//! operator characters map to them.
use crate::errors::ErrorV;
use crate::errors::MathParseErrors;
use crate::errors::result_view;
use vstd::prelude::*;

verus! {

/// Available unary operations.
#[derive(Debug, PartialEq, Eq, Structural, Copy, Clone)]
pub enum UnaryOp {
    Not,
    Minus,
    Plus,
}

/// Available binary operations.
#[derive(Debug, PartialEq, Eq, Structural, Copy, Clone)]
pub enum BinaryOp {
    Multiplication,
    Division,
    IntegerDivision,
    Reminder,
    Addition,
    Subtraction,
    ShiftLeft,
    ShiftRight,
    BitwiseAnd,
    BitwiseOr,
    BitwiseXor,
}

/// The unary operator written with the given character, if any.
pub open spec fn spec_unary_from_char(c: char) -> Option<UnaryOp> {
    match c {
        '!' => Some(UnaryOp::Not),
        '-' => Some(UnaryOp::Minus),
        '+' => Some(UnaryOp::Plus),
        _ => None,
    }
}

/// The binary operator written with the given character, if any. The merged
/// two-character operators are carried as single characters (`⟌` for `//`,
/// `≪` for `<<`, `≫` for `>>`).
pub open spec fn spec_binary_from_char(c: char) -> Option<BinaryOp> {
    match c {
        '*' | '×' | '·' => Some(BinaryOp::Multiplication),
        '/' | '∕' | '⁄' | '÷' => Some(BinaryOp::Division),
        '+' => Some(BinaryOp::Addition),
        '-' | '−' => Some(BinaryOp::Subtraction),
        '%' => Some(BinaryOp::Reminder),
        '⟌' => Some(BinaryOp::IntegerDivision),
        '|' => Some(BinaryOp::BitwiseOr),
        '&' => Some(BinaryOp::BitwiseAnd),
        '^' => Some(BinaryOp::BitwiseXor),
        '≪' => Some(BinaryOp::ShiftLeft),
        '≫' => Some(BinaryOp::ShiftRight),
        _ => None,
    }
}

/// What reading a unary operator from a character returns: the operator, or
/// the defensive fault on a character with no unary meaning.
pub open spec fn spec_unary_op_of_char(c: char) -> Result<UnaryOp, ErrorV> {
    match spec_unary_from_char(c) {
        Some(op) => Ok(op),
        None => Err(ErrorV::MathParseInternalBug("not a valid unary operator."@)),
    }
}

/// What reading a binary operator from a character returns: the operator, a
/// hint for a lone `<` or `>`, or the defensive fault on any other character
/// with no binary meaning.
pub open spec fn spec_binary_op_of_char(c: char) -> Result<BinaryOp, ErrorV> {
    match spec_binary_from_char(c) {
        Some(op) => Ok(op),
        None => if c == '<' {
            Err(ErrorV::BadOperatorHint('<', "<<"@))
        } else if c == '>' {
            Err(ErrorV::BadOperatorHint('>', ">>"@))
        } else {
            Err(ErrorV::MathParseInternalBug("not a valid operator."@))
        },
    }
}

/// The text a unary operator is written with.
pub open spec fn spec_unary_text(op: UnaryOp) -> Seq<char> {
    match op {
        UnaryOp::Not => "!"@,
        UnaryOp::Minus => "-"@,
        UnaryOp::Plus => "+"@,
    }
}

/// The text a binary operator is written with.
pub open spec fn spec_binary_text(op: BinaryOp) -> Seq<char> {
    match op {
        BinaryOp::Multiplication => "*"@,
        BinaryOp::Division => "/"@,
        BinaryOp::IntegerDivision => "//"@,
        BinaryOp::Reminder => "%"@,
        BinaryOp::Addition => "+"@,
        BinaryOp::Subtraction => "-"@,
        BinaryOp::ShiftLeft => "<<"@,
        BinaryOp::ShiftRight => ">>"@,
        BinaryOp::BitwiseAnd => "&"@,
        BinaryOp::BitwiseOr => "|"@,
        BinaryOp::BitwiseXor => "⊕"@,
    }
}

impl UnaryOp {
    /// Reads a unary operator from its character.
    pub fn from_char(c: char) -> (r: Result<Self, MathParseErrors>)
        ensures
            result_view(r) == spec_unary_op_of_char(c),
    {
        match c {
            '!' => Ok(UnaryOp::Not),
            '-' => Ok(UnaryOp::Minus),
            '+' => Ok(UnaryOp::Plus),
            _ => Err(
                MathParseErrors::MathParseInternalBug(
                    "not a valid unary operator.".to_owned(),
                ),
            ),
        }
    }

    /// The text this operator is written with.
    pub fn to_text(&self) -> (r: &'static str)
        ensures
            r@ == spec_unary_text(*self),
    {
        match self {
            UnaryOp::Not => "!",
            UnaryOp::Minus => "-",
            UnaryOp::Plus => "+",
        }
    }
}

impl BinaryOp {
    /// Reads a binary operator from its character. A lone `<` or `>` is
    /// refused with a hint toward `<<` or `>>`.
    pub fn from_char(c: char) -> (r: Result<Self, MathParseErrors>)
        ensures
            result_view(r) == spec_binary_op_of_char(c),
    {
        match c {
            '*' | '×' | '·' => Ok(BinaryOp::Multiplication),
            '/' | '∕' | '⁄' | '÷' => Ok(BinaryOp::Division),
            '+' => Ok(BinaryOp::Addition),
            '-' | '−' => Ok(BinaryOp::Subtraction),
            '%' => Ok(BinaryOp::Reminder),
            '⟌' => Ok(BinaryOp::IntegerDivision),
            '|' => Ok(BinaryOp::BitwiseOr),
            '&' => Ok(BinaryOp::BitwiseAnd),
            '^' => Ok(BinaryOp::BitwiseXor),
            '≪' => Ok(BinaryOp::ShiftLeft),
            '≫' => Ok(BinaryOp::ShiftRight),
            '<' => Err(MathParseErrors::BadOperatorHint('<', "<<")),
            '>' => Err(MathParseErrors::BadOperatorHint('>', ">>")),
            _ => Err(
                MathParseErrors::MathParseInternalBug("not a valid operator.".to_owned()),
            ),
        }
    }

    /// The text this operator is written with. The xor sign is shown as `⊕`
    /// so that it is not mistaken for exponentiation.
    pub fn to_text(&self) -> (r: &'static str)
        ensures
            r@ == spec_binary_text(*self),
    {
        match self {
            BinaryOp::Multiplication => "*",
            BinaryOp::Division => "/",
            BinaryOp::IntegerDivision => "//",
            BinaryOp::Reminder => "%",
            BinaryOp::Addition => "+",
            BinaryOp::Subtraction => "-",
            BinaryOp::ShiftLeft => "<<",
            BinaryOp::ShiftRight => ">>",
            BinaryOp::BitwiseAnd => "&",
            BinaryOp::BitwiseOr => "|",
            BinaryOp::BitwiseXor => "⊕",
        }
    }
}

} // verus!
