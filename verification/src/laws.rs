//! The general laws the library keeps, each proved once and for all inputs:
//! how integer operands promote, when the zero and negative guards fire, what
//! a lone angle bracket is answered with, that a sign flips under an appended
//! minus, that only balanced instruction lists evaluate, and that solving and
//! the RPN view round-trip to the same result.
use crate::errors::ErrorV;
use crate::errors::MathParseErrors;
use crate::instructions::RPNV;
use crate::numbers::Number;
use crate::numbers::spec_is_zero;
use crate::numbers::spec_mul;
use crate::ops::BinaryOp;
use crate::ops::UnaryOp;
use crate::ops::spec_binary_from_char;
use crate::parse_rpn::spec_rpn_operator;
use crate::rpn::RPNStepV;
use crate::rpn::spec_rpn_walk;
use crate::rpn::spec_walk_operator;
use crate::rpn::spec_walk_solve;
use crate::solve::lemma_eval_stack_prefix;
use crate::solve::spec_compute_binary;
use crate::solve::spec_eval_rpn;
use crate::solve::spec_eval_stack;
use crate::solve::spec_solve_literal;
use crate::spec_solve_auto_of;
use crate::tokenize::MathValueV;
use vstd::prelude::*;

verus! {

/// Promotion law: adding, subtracting or multiplying two `Int`s stays `Int`;
/// dividing them gives a `Float`; a `Float` on either side forces a `Float`
/// for the three closed operators too.
pub proof fn lemma_int_promotion(a: i64, b: i64, f: u64)
    ensures
        spec_compute_binary(Number::Int(a), Number::Int(b), BinaryOp::Addition) matches Ok(n)
            && n is Int,
        spec_compute_binary(Number::Int(a), Number::Int(b), BinaryOp::Subtraction) matches Ok(n)
            && n is Int,
        spec_compute_binary(Number::Int(a), Number::Int(b), BinaryOp::Multiplication) matches Ok(n)
            && n is Int,
        b != 0 ==> (spec_compute_binary(Number::Int(a), Number::Int(b), BinaryOp::Division)
            matches Ok(n) && n is Float),
        spec_compute_binary(Number::Float(f), Number::Int(b), BinaryOp::Addition) matches Ok(n)
            && n is Float,
        spec_compute_binary(Number::Int(a), Number::Float(f), BinaryOp::Addition) matches Ok(n)
            && n is Float,
        spec_compute_binary(Number::Float(f), Number::Int(b), BinaryOp::Subtraction) matches Ok(n)
            && n is Float,
        spec_compute_binary(Number::Int(a), Number::Float(f), BinaryOp::Subtraction) matches Ok(n)
            && n is Float,
        spec_compute_binary(Number::Float(f), Number::Int(b), BinaryOp::Multiplication) matches Ok(
            n,
        ) && n is Float,
        spec_compute_binary(Number::Int(a), Number::Float(f), BinaryOp::Multiplication) matches Ok(
            n,
        ) && n is Float,
{
}

/// Zero and negative guards: dividing or taking a remainder by a zero of
/// either kind is refused with `UnexpectedZero`, and shifting an `Int` by a
/// negative amount is refused with `UnexpectedNegative`.
pub proof fn lemma_zero_and_negative_guards(a: Number, b: Number)
    ensures
        spec_is_zero(b) ==> spec_compute_binary(a, b, BinaryOp::Division) == Err::<
            Number,
            MathParseErrors,
        >(MathParseErrors::UnexpectedZero),
        spec_is_zero(b) ==> spec_compute_binary(a, b, BinaryOp::Reminder) == Err::<
            Number,
            MathParseErrors,
        >(MathParseErrors::UnexpectedZero),
        spec_is_zero(b) ==> spec_compute_binary(a, b, BinaryOp::IntegerDivision) == Err::<
            Number,
            MathParseErrors,
        >(MathParseErrors::UnexpectedZero),
        (a matches Number::Int(_) && b matches Number::Int(o) && o < 0) ==> spec_compute_binary(
            a,
            b,
            BinaryOp::ShiftLeft,
        ) == Err::<Number, MathParseErrors>(MathParseErrors::UnexpectedNegative),
        (a matches Number::Int(_) && b matches Number::Int(o) && o < 0) ==> spec_compute_binary(
            a,
            b,
            BinaryOp::ShiftRight,
        ) == Err::<Number, MathParseErrors>(MathParseErrors::UnexpectedNegative),
{
}

/// Operator hint: a lone `<` or `>` is no binary operator; in an RPN line it
/// is answered with the hint toward `<<` or `>>`.
pub proof fn lemma_operator_hint()
    ensures
        spec_binary_from_char('<') is None,
        spec_binary_from_char('>') is None,
        spec_rpn_operator('<') == Err::<BinaryOp, ErrorV>(ErrorV::BadOperatorHint('<', "<<"@)),
        spec_rpn_operator('>') == Err::<BinaryOp, ErrorV>(ErrorV::BadOperatorHint('>', ">>"@)),
{
}

/// Unary chains: appending one more minus to an expression that evaluates
/// flips the sign of its result, whatever resolution pads the new step. A
/// chain of minus signs thus nets out to the parity of their count.
pub proof fn lemma_minus_flips_sign(
    rpn: Seq<RPNV>,
    res: Seq<Result<Number, ErrorV>>,
    x: Result<Number, ErrorV>,
)
    requires
        res.len() >= rpn.len(),
    ensures
        spec_eval_rpn(rpn, res) matches Ok(n) ==> spec_eval_rpn(
            rpn.push(RPNV::Unary(UnaryOp::Minus)),
            res.push(x),
        ) == Ok::<Number, ErrorV>(spec_mul(Number::Int(-1i64), n)),
{
    if let Ok(n) = spec_eval_rpn(rpn, res) {
        let longer = rpn.push(RPNV::Unary(UnaryOp::Minus));
        let res_longer = res.push(x);
        lemma_eval_stack_prefix(rpn, longer, res, res_longer, rpn.len() as int);
        let st = spec_eval_stack(rpn, res, rpn.len() as int)->Ok_0;
        assert(spec_eval_stack(longer, res_longer, longer.len() as int) == Ok::<
            Seq<Number>,
            ErrorV,
        >(st.drop_last().push(spec_mul(Number::Int(-1i64), n))));
    }
}

/// The count of values on the machine's stack after the first `n`
/// instructions, when no instruction up to there lacked operands.
pub open spec fn spec_balance(rpn: Seq<RPNV>, n: int) -> Option<int>
    decreases n,
{
    if n <= 0 {
        Some(0)
    } else {
        match spec_balance(rpn, n - 1) {
            None => None,
            Some(c) => match rpn[n - 1] {
                RPNV::Name(_) => Some(c + 1),
                RPNV::Unary(_) => if c < 1 {
                    None
                } else {
                    Some(c)
                },
                RPNV::Binary(_) => if c < 2 {
                    None
                } else {
                    Some(c - 1)
                },
            },
        }
    }
}

/// A run of the machine that has not failed carries exactly the stack depth
/// the balance count predicts.
proof fn lemma_eval_stack_balance(rpn: Seq<RPNV>, res: Seq<Result<Number, ErrorV>>, n: int)
    requires
        0 <= n,
    ensures
        spec_eval_stack(rpn, res, n) matches Ok(st) ==> spec_balance(rpn, n) == Some(
            st.len() as int,
        ),
    decreases n,
{
    if n > 0 {
        lemma_eval_stack_balance(rpn, res, n - 1);
    }
}

/// Unbalanced expressions never evaluate: whenever a whole run of the
/// machine returns a value, the instruction list is balanced, leaving
/// exactly one value on the stack. Too few operands for the operators (or
/// too many) always end in an error.
pub proof fn lemma_eval_ok_implies_balanced(rpn: Seq<RPNV>, res: Seq<Result<Number, ErrorV>>)
    ensures
        spec_eval_rpn(rpn, res) is Ok ==> spec_balance(rpn, rpn.len() as int) == Some(1int),
{
    lemma_eval_stack_balance(rpn, res, rpn.len() as int);
}

/// A balanced list of instructions always builds a display tree: the stack
/// of the tree builder keeps exactly the depth the balance count predicts.
proof fn lemma_tree_stack_depth(rpn: Seq<RPNV>, n: int)
    requires
        0 <= n,
        spec_balance(rpn, n) is Some,
    ensures
        crate::tree::spec_tree_stack(rpn, n) matches Ok(st) && st.len() == spec_balance(
            rpn,
            n,
        )->Some_0,
    decreases n,
{
    if n > 0 {
        lemma_tree_stack_depth(rpn, n - 1);
    }
}

/// Whatever evaluates can be shown: when a run of the machine returns a
/// value (as the trial run of `parse_rpn`'s validation does, and as solving
/// does), building the display tree from the same instructions succeeds.
pub proof fn lemma_evaluated_rpn_has_tree(rpn: Seq<RPNV>, res: Seq<Result<Number, ErrorV>>)
    ensures
        spec_eval_rpn(rpn, res) is Ok ==> crate::tree::spec_parse_to_tree(rpn) is Ok,
{
    if spec_eval_rpn(rpn, res) is Ok {
        lemma_eval_stack_balance(rpn, res, rpn.len() as int);
        lemma_tree_stack_depth(rpn, rpn.len() as int);
    }
}

/// Two lists of instructions that agree on a prefix balance it alike.
proof fn lemma_balance_prefix(rpn1: Seq<RPNV>, rpn2: Seq<RPNV>, n: int)
    requires
        forall|j: int| 0 <= j < n ==> rpn1[j] == rpn2[j],
    ensures
        spec_balance(rpn1, n) == spec_balance(rpn2, n),
    decreases n,
{
    if n > 0 {
        lemma_balance_prefix(rpn1, rpn2, n - 1);
    }
}

/// What one appended instruction does to the balance count.
proof fn lemma_balance_push(acc: Seq<RPNV>, x: RPNV, c: int)
    requires
        spec_balance(acc, acc.len() as int) == Some(c),
    ensures
        spec_balance(acc.push(x), acc.len() + 1int) == (match x {
            RPNV::Name(_) => Some(c + 1),
            RPNV::Unary(_) => if c >= 1 {
                Some(c)
            } else {
                None
            },
            RPNV::Binary(_) => if c >= 2 {
                Some(c - 1)
            } else {
                None
            },
        }),
{
    lemma_balance_prefix(acc.push(x), acc, acc.len() as int);
}

/// The count the pending steps of the tree walk will leave, processed newest
/// first, starting from the given count: each node to solve adds one value,
/// each queued operator takes its operands; nothing is allowed to dip below
/// what an operator needs.
pub open spec fn spec_steps_outcome(
    line: Seq<MathValueV>,
    steps: Seq<RPNStepV>,
    c: int,
) -> Option<int>
    decreases steps.len(),
{
    if steps.len() == 0 {
        Some(c)
    } else {
        match steps.last() {
            RPNStepV::Solve(_) => spec_steps_outcome(line, steps.drop_last(), c + 1),
            RPNStepV::OperatorStep(i) => match line[i] {
                MathValueV::Operation(_, _, _) => if c >= 2 {
                    spec_steps_outcome(line, steps.drop_last(), c - 1)
                } else {
                    None
                },
                MathValueV::UnaryOperation(_, _) => if c >= 1 {
                    spec_steps_outcome(line, steps.drop_last(), c)
                } else {
                    None
                },
                _ => None,
            },
        }
    }
}

/// The tree walk only emits balanced instruction lists: whenever it returns,
/// the balance count comes out exactly as the pending steps promise.
proof fn lemma_walk_keeps_balance(
    line: Seq<MathValueV>,
    steps: Seq<RPNStepV>,
    acc: Seq<RPNV>,
    fuel: int,
    c: int,
)
    requires
        c >= 0,
        spec_balance(acc, acc.len() as int) == Some(c),
        spec_steps_outcome(line, steps, c) is Some,
    ensures
        spec_rpn_walk(line, steps, acc, fuel) matches Ok(out) ==> spec_balance(
            out,
            out.len() as int,
        ) == Some(spec_steps_outcome(line, steps, c)->Some_0),
    decreases fuel,
{
    if steps.len() == 0 || fuel <= 0 {
    } else {
        let rest = steps.drop_last();
        match steps.last() {
            RPNStepV::Solve(index) => {
                match spec_walk_solve(line, rest, acc, index) {
                    Err(_) => {},
                    Ok((steps2, acc2)) => {
                        {
                            match line[index] {
                                MathValueV::Name(_) => {
                                    lemma_balance_push(acc, acc2.last(), c);
                                    assert(acc2 == acc.push(acc2.last()));
                                    lemma_walk_keeps_balance(line, rest, acc2, fuel - 1, c + 1);
                                },
                                MathValueV::Operation(_, o1, o2) => {
                                    let i2 = crate::rpn::spec_add_index(index, o2)->Ok_0;
                                    let i1 = crate::rpn::spec_add_index(index, o1)->Ok_0;
                                    proof_steps_unfold_operation(
                                        line,
                                        rest,
                                        steps2,
                                        index,
                                        c,
                                        i1,
                                        i2,
                                    );
                                    assert(steps2.drop_last().drop_last().drop_last() =~= rest);
                                    lemma_walk_keeps_balance(line, steps2, acc, fuel - 1, c);
                                },
                                MathValueV::UnaryOperation(_, o) => {
                                    let i1 = crate::rpn::spec_add_index(index, o)->Ok_0;
                                    proof_steps_unfold_unary(line, rest, steps2, index, c, i1);
                                    lemma_walk_keeps_balance(line, steps2, acc, fuel - 1, c);
                                },
                                MathValueV::ParenOpen(o) => {
                                    assert(steps2.drop_last() =~= rest);
                                    assert(spec_steps_outcome(line, steps2, c)
                                        == spec_steps_outcome(line, rest, c + 1));
                                    assert(spec_steps_outcome(line, steps, c)
                                        == spec_steps_outcome(line, rest, c + 1));
                                    lemma_walk_keeps_balance(line, steps2, acc, fuel - 1, c);
                                },
                                _ => {},
                            }
                        }
                    },
                }
            },
            RPNStepV::OperatorStep(index) => {
                match spec_walk_operator(line, acc, index) {
                    Err(_) => {},
                    Ok(acc2) => {
                        {
                            match line[index] {
                                MathValueV::Operation(_, _, _) => {
                                    assert(acc2 =~= acc.push(acc2.last()));
                                    lemma_balance_push(acc, acc2.last(), c);
                                    assert(spec_steps_outcome(line, steps, c)
                                        == spec_steps_outcome(line, rest, c - 1));
                                    lemma_walk_keeps_balance(line, rest, acc2, fuel - 1, c - 1);
                                },
                                MathValueV::UnaryOperation(_, _) => {
                                    assert(acc2 =~= acc.push(acc2.last()));
                                    lemma_balance_push(acc, acc2.last(), c);
                                    assert(spec_steps_outcome(line, steps, c)
                                        == spec_steps_outcome(line, rest, c));
                                    lemma_walk_keeps_balance(line, rest, acc2, fuel - 1, c);
                                },
                                _ => {},
                            }
                        }
                    },
                }
            },
        }
    }
}

/// The three pushed steps of an operation node promise the same count as the
/// node's own solve step did.
proof fn proof_steps_unfold_operation(
    line: Seq<MathValueV>,
    rest: Seq<RPNStepV>,
    steps2: Seq<RPNStepV>,
    index: int,
    c: int,
    i1: int,
    i2: int,
)
    requires
        c >= 0,
        line[index] is Operation,
        steps2 == rest.push(RPNStepV::OperatorStep(index)).push(RPNStepV::Solve(i2)).push(
            RPNStepV::Solve(i1),
        ),
    ensures
        spec_steps_outcome(line, steps2, c) == spec_steps_outcome(line, rest, c + 1),
{
    let s1 = rest.push(RPNStepV::OperatorStep(index));
    let s2 = s1.push(RPNStepV::Solve(i2));
    assert(steps2.drop_last() =~= s2);
    assert(s2.drop_last() =~= s1);
    assert(s1.drop_last() =~= rest);
    assert(spec_steps_outcome(line, steps2, c) == spec_steps_outcome(line, s2, c + 1));
    assert(spec_steps_outcome(line, s2, c + 1) == spec_steps_outcome(line, s1, c + 2));
    assert(spec_steps_outcome(line, s1, c + 2) == spec_steps_outcome(line, rest, c + 1));
}

/// The two pushed steps of a unary node promise the same count as the node's
/// own solve step did.
proof fn proof_steps_unfold_unary(
    line: Seq<MathValueV>,
    rest: Seq<RPNStepV>,
    steps2: Seq<RPNStepV>,
    index: int,
    c: int,
    i1: int,
)
    requires
        c >= 0,
        line[index] is UnaryOperation,
        steps2 == rest.push(RPNStepV::OperatorStep(index)).push(RPNStepV::Solve(i1)),
    ensures
        spec_steps_outcome(line, steps2, c) == spec_steps_outcome(line, rest, c + 1),
{
    let s1 = rest.push(RPNStepV::OperatorStep(index));
    assert(steps2.drop_last() =~= s1);
    assert(s1.drop_last() =~= rest);
    assert(spec_steps_outcome(line, steps2, c) == spec_steps_outcome(line, s1, c + 1));
    assert(spec_steps_outcome(line, s1, c + 1) == spec_steps_outcome(line, rest, c + 1));
}

/// The positional-tree invariant carried to the instructions: whatever an
/// infix parse returns is stack-balanced — run left to right it never wants
/// for an operand and leaves exactly one value.
pub proof fn lemma_parse_is_balanced(s: Seq<char>)
    ensures
        crate::spec_full_parse(s) matches Ok(rpn) ==> spec_balance(rpn, rpn.len() as int)
            == Some(1int),
{
    if crate::spec_full_parse(s) is Ok {
        let line = crate::parse::spec_math_parse(s)->Ok_0;
        let start = seq![RPNStepV::Solve(0)];
        assert(spec_balance(Seq::<RPNV>::empty(), 0) == Some(0int));
        assert(start.drop_last() =~= Seq::<RPNStepV>::empty());
        assert(spec_steps_outcome(line, Seq::<RPNStepV>::empty(), 1int) == Some(1int));
        assert(spec_steps_outcome(line, start, 0) == Some(1int));
        lemma_walk_keeps_balance(
            line,
            start,
            Seq::empty(),
            line.len() * 4 + 4int,
            0,
        );
    }
}

/// Round trip: `to_rpn` hands out instructions whose views are exactly the
/// parse's own, and `solve_auto` without a table is pinned to the machine
/// run over those same views; evaluating the RPN copy therefore comes to the
/// same numeric result as solving directly.
pub proof fn lemma_rpn_round_trip(p: crate::MathParse, copy: Seq<RPNV>)
    requires
        copy == p@,
    ensures
        spec_solve_auto_of(spec_solve_literal(copy)) == spec_solve_auto_of(
            spec_solve_literal(p@),
        ),
{
}

} // verus!
