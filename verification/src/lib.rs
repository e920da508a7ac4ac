//! A math expression parser and evaluator.
//!
//! Expressions come in as text, in infix notation (`"(1+2)*3"`) or in postfix
//! notation (`"1 2 + 3 *"`), with a unicode-aware operator alphabet. They are
//! parsed into a list of instructions in Reverse Polish Notation, and can then
//! be solved to an integer or a float, with named variables resolved through a
//! caller-supplied table of name and replacement-expression pairs.
//!
//! Floats are carried through the library as IEEE 754 binary64 bit patterns
//! (`u64`); `f64::to_bits` and `f64::from_bits` convert at the boundary.

pub mod errors;
pub mod float_bits;
pub mod instructions;
pub mod laws;
pub mod number_conversion;
pub mod numbers;
pub mod ops;
pub mod parse;
pub mod parse_rpn;
pub mod rpn;
pub mod rpn_stack_manipulation;
pub mod solve;
pub mod substitute;
pub mod text;
pub mod tokenize;
pub mod tree;

use vstd::prelude::*;

pub use crate::errors::ErrorV;
pub use crate::errors::MathParseErrors;
pub use crate::errors::result_view;
pub use crate::instructions::RPN;
pub use crate::instructions::RPNV;
pub use crate::instructions::rpn_slice_to_string;
pub use crate::numbers::Number;
pub use crate::ops::BinaryOp;
pub use crate::ops::UnaryOp;
pub use crate::tree::Tree;

use crate::float_bits::f_of_i64;
use crate::instructions::rpn_seq_view;
use crate::number_conversion::f_to_i_strict;
use crate::number_conversion::spec_f_to_i_strict;
use crate::solve::lemma_solve_without_table;
use crate::solve::map_view;
use crate::solve::spec_solve;
use crate::solve::spec_solve_literal;
use crate::tokenize::spec_is_math_char;

verus! {

/// Object generated when parsing a string of math. Can be later used for
/// solving or formatting to other representations.
pub struct MathParse {
    // Internal representation of parsed math is the RPN one.
    internal: Vec<RPN>,
}

impl View for MathParse {
    type V = Seq<RPNV>;

    closed spec fn view(&self) -> Seq<RPNV> {
        rpn_seq_view(self.internal@)
    }
}

/// How a solved number is reported: an exact integer where possible, else
/// the bit pattern of the fractional float.
pub open spec fn spec_collapse(n: Number) -> Result<i64, u64> {
    match n {
        Number::Int(i) => Ok(i),
        Number::Float(f) => match spec_f_to_i_strict(f) {
            Ok(i) => Ok(i),
            Err(_) => Err(f),
        },
    }
}

/// What `solve_auto` makes of the machine's outcome.
pub open spec fn spec_solve_auto_of(r: Result<Number, ErrorV>) -> Result<
    Result<i64, u64>,
    ErrorV,
> {
    match r {
        Err(e) => Err(e),
        Ok(n) => Ok(spec_collapse(n)),
    }
}

/// What `solve_int` makes of the machine's outcome.
pub open spec fn spec_solve_int_of(r: Result<Number, ErrorV>) -> Result<i64, ErrorV> {
    match r {
        Err(e) => Err(e),
        Ok(n) => match spec_collapse(n) {
            Ok(i) => Ok(i),
            Err(f) => result_view(spec_f_to_i_strict(f)),
        },
    }
}

/// What `solve_float` makes of the machine's outcome.
pub open spec fn spec_solve_float_of(r: Result<Number, ErrorV>) -> Result<u64, ErrorV> {
    match r {
        Err(e) => Err(e),
        Ok(n) => match spec_collapse(n) {
            Ok(i) => Ok(f_of_i64(i)),
            Err(f) => Ok(f),
        },
    }
}

/// What parsing an infix expression gives: its tokens rearranged into the
/// positional tree by the three passes, then walked into postfix
/// instructions; the first error of any stage otherwise.
pub open spec fn spec_full_parse(s: Seq<char>) -> Result<Seq<RPNV>, ErrorV> {
    match crate::parse::spec_math_parse(s) {
        Err(e) => Err(e),
        Ok(line) => crate::rpn::spec_rpn_from_tree(line),
    }
}

impl MathParse {
    /// Parse a math expression in infix notation: the result is pinned to
    /// [`spec_full_parse`], the tokenizing, three-pass rearranging and
    /// postfix walk of the expression, on both the success and the error
    /// side.
    pub fn parse(expression: &str) -> (r: Result<Self, MathParseErrors>)
        ensures
            (match r {
                Ok(p) => Ok(p@),
                Err(e) => Err(e@),
            }) == spec_full_parse(expression@),
    {
        let parsed_tree = crate::parse::math_parse(expression)?;
        let internal = crate::rpn::parse_rpn(&parsed_tree)?;
        Ok(MathParse { internal })
    }

    /// Parse a math expression in postfix notation (RPN): exactly the
    /// classification of the expression's tokens, kept when the trial run of
    /// the machine accepts it, else the first error of either stage.
    pub fn parse_rpn(expression: &str) -> (r: Result<Self, MathParseErrors>)
        ensures
            (match r {
                Ok(p) => Ok(p@),
                Err(e) => Err(e@),
            }) == crate::parse_rpn::spec_parse_rpn_text(expression@),
    {
        let internal = crate::parse_rpn::parse_rpn(expression)?;
        Ok(MathParse { internal })
    }

    /// Solve the parsed expression to a number: exactly the machine run with
    /// every name resolved through the table (a held name stands for its
    /// replacement expression's solution, any other name is read as a
    /// literal).
    pub fn solve_number(&self, variable_map: Option<&Vec<(String, String)>>) -> (r: Result<
        Number,
        MathParseErrors,
    >)
        ensures
            result_view(r) == spec_solve(self@, map_view(variable_map)),
            variable_map is None ==> result_view(r) == spec_solve_literal(self@),
    {
        proof {
            lemma_solve_without_table(self@);
        }
        crate::solve::math_solve(&self.internal, variable_map)
    }

    /// Does all the computation from a parsed expression to the final
    /// resulting number. If the result can be an int, return it as
    /// `Ok(Ok(int))`. If it can only be a float, return its bit pattern as
    /// `Ok(Err(bits))`. If it can't be solved, return `Err(error)`.
    ///
    /// A optional table of variable names can be taken as argument.
    pub fn solve_auto(&self, variable_map: Option<&Vec<(String, String)>>) -> (r: Result<
        Result<i64, u64>,
        MathParseErrors,
    >)
        ensures
            result_view(r) == spec_solve_auto_of(spec_solve(self@, map_view(variable_map))),
            variable_map is None ==> result_view(r) == spec_solve_auto_of(
                spec_solve_literal(self@),
            ),
    {
        match self.solve_number(variable_map) {
            Err(err) => Err(err),
            Ok(Number::Int(i)) => Ok(Ok(i)),
            Ok(Number::Float(f)) => Ok(
                if let Ok(i) = f_to_i_strict(f) {
                    Ok(i)
                } else {
                    Err(f)
                },
            ),
        }
    }

    /// Does all the computation from a parsed expression to the final
    /// resulting number, as an int. If the result can not be an int, return
    /// `Err(error)`.
    ///
    /// A optional table of variable names can be taken as argument.
    pub fn solve_int(&self, variable_map: Option<&Vec<(String, String)>>) -> (r: Result<
        i64,
        MathParseErrors,
    >)
        ensures
            result_view(r) == spec_solve_int_of(spec_solve(self@, map_view(variable_map))),
            variable_map is None ==> result_view(r) == spec_solve_int_of(
                spec_solve_literal(self@),
            ),
    {
        match self.solve_auto(variable_map) {
            Err(e) => Err(e),
            Ok(Ok(i)) => Ok(i),
            Ok(Err(f)) => match f_to_i_strict(f) {
                Ok(i) => Ok(i),
                Err(e) => Err(e),
            },
        }
    }

    /// Does all the computation from a parsed expression to the final
    /// resulting number, as the bit pattern of a float.
    ///
    /// A optional table of variable names can be taken as argument.
    pub fn solve_float(&self, variable_map: Option<&Vec<(String, String)>>) -> (r: Result<
        u64,
        MathParseErrors,
    >)
        ensures
            result_view(r) == spec_solve_float_of(spec_solve(self@, map_view(variable_map))),
            variable_map is None ==> result_view(r) == spec_solve_float_of(
                spec_solve_literal(self@),
            ),
    {
        match self.solve_auto(variable_map) {
            Err(e) => Err(e),
            Ok(Ok(i)) => Ok(crate::number_conversion::i_to_f(i)),
            Ok(Err(f)) => Ok(f),
        }
    }

    /// Parse a math expression into a list of instructions in Reverse Polish
    /// notation (postfix notation): a copy of this parse's own instructions.
    pub fn to_rpn(&self) -> (r: Result<Vec<RPN>, MathParseErrors>)
        ensures
            r matches Ok(v) && rpn_seq_view(v@) == self@,
    {
        Ok(crate::instructions::duplicate_rpn_list(&self.internal))
    }

    /// Parse a math expression into a tree (infix notation).
    pub fn to_tree(&self) -> (r: Result<Tree, MathParseErrors>)
        ensures
            crate::tree::tree_result_view(r) == crate::tree::spec_parse_to_tree(self@),
    {
        crate::tree::parse_to_tree(&self.internal)
    }
}

/// Return true if the given string contains any character that are used as
/// operators inside of math-parse.
pub fn contains_math_char(s: &str) -> (r: bool)
    ensures
        r == exists|i: int| 0 <= i < s@.len() && spec_is_math_char(s@[i]),
{
    crate::tokenize::contains_math_char(s)
}

} // verus!
