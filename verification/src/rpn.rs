//! From the positional tree the infix parser builds to a flat list of RPN
//! instructions: a depth-first walk with an explicit work stack, so that the
//! depth of the expression never grows the call stack. The walk is pinned to
//! its specification, [`spec_rpn_from_tree`], on both sides.
use crate::errors::ErrorV;
use crate::errors::MathParseErrors;
use crate::instructions::RPN;
use crate::instructions::RPNV;
use crate::instructions::rpn_seq_view;
use crate::number_conversion::i_to_u;
use crate::number_conversion::u_to_i;
use crate::ops::BinaryOp;
use crate::ops::UnaryOp;
use crate::ops::spec_binary_op_of_char;
use crate::ops::spec_unary_op_of_char;
use crate::text::is_whitespace_char;
use crate::text::push_char;
use crate::text::spec_is_whitespace;
use crate::text::str_chars;
use crate::tokenize::MathValue;
use crate::tokenize::MathValueV;
use crate::tokenize::math_seq_view;
use vstd::prelude::*;

verus! {

/// The two kinds of pending work while walking the positional tree: solving
/// a node (emitting its subtree) and emitting the operator of a node whose
/// operands are already emitted.
enum RPNSteps {
    Solve(usize),
    OperatorStep(usize),
}

/// The mathematical face of a pending walk step.
pub enum RPNStepV {
    Solve(int),
    OperatorStep(int),
}

impl View for RPNSteps {
    type V = RPNStepV;

    closed spec fn view(&self) -> RPNStepV {
        match self {
            RPNSteps::Solve(i) => RPNStepV::Solve(*i as int),
            RPNSteps::OperatorStep(i) => RPNStepV::OperatorStep(*i as int),
        }
    }
}

/// The views of a stack of pending walk steps, in order.
spec fn steps_view(s: Seq<RPNSteps>) -> Seq<RPNStepV> {
    s.map_values(|t: RPNSteps| t@)
}

/// The text with every whitespace character removed.
pub open spec fn spec_remove_whitespace(s: Seq<char>) -> Seq<char>
    decreases s.len(),
{
    if s.len() == 0 {
        Seq::empty()
    } else if spec_is_whitespace(s.last()) {
        spec_remove_whitespace(s.drop_last())
    } else {
        spec_remove_whitespace(s.drop_last()).push(s.last())
    }
}

/// From a str, return a String with no whitespace.
fn remove_whitespace(s: &str) -> (r: String)
    ensures
        r@ == spec_remove_whitespace(s@),
{
    let v = str_chars(s);
    let mut out = String::new();
    let mut i: usize = 0;
    while i < v.len()
        invariant
            i <= v@.len(),
            v@ == s@,
            out@ == spec_remove_whitespace(s@.subrange(0, i as int)),
        decreases v@.len() - i,
    {
        let ghost prefix = s@.subrange(0, i as int);
        let c = v[i];
        if !is_whitespace_char(c) {
            push_char(&mut out, c);
        }
        proof {
            assert(s@.subrange(0, i + 1 as int).drop_last() =~= prefix);
        }
        i = i + 1;
    }
    proof {
        assert(s@.subrange(0, s@.len() as int) =~= s@);
    }
    out
}

/// What following an offset from an index returns: the reached index, or the
/// defensive fault when the arithmetic leaves the machine's index range.
pub open spec fn spec_add_index(index: int, offset: int) -> Result<int, ErrorV> {
    if index > isize::MAX as int {
        Err(ErrorV::MathParseInternalBug("an index does not fit as a signed offset."@))
    } else if index + offset < isize::MIN as int || index + offset > isize::MAX as int {
        Err(ErrorV::MathParseInternalBug("an index offset does not fit."@))
    } else if index + offset < 0 {
        Err(ErrorV::MathParseInternalBug("an index should have been positive."@))
    } else {
        Ok(index + offset)
    }
}

/// Takes an index and an offset and return the resulting index.
fn add_index_offset(index: usize, offset: isize) -> (r: Result<usize, MathParseErrors>)
    ensures
        r matches Ok(u) ==> spec_add_index(index as int, offset as int) == Ok::<int, ErrorV>(
            u as int,
        ),
        r matches Err(e) ==> spec_add_index(index as int, offset as int) == Err::<int, ErrorV>(
            e@,
        ),
{
    let index_i = u_to_i(index)?;
    match index_i.checked_add(offset) {
        Some(next) => i_to_u(next),
        None => Err(
            MathParseErrors::MathParseInternalBug(
                "an index offset does not fit.".to_owned(),
            ),
        ),
    }
}

/// What one `Solve` step does, at the given node: a name is emitted at once
/// with its whitespace removed; an operation queues its own emission, then
/// its right operand, then its left one, so that the left operand (on top of
/// the stack) is solved and emitted first; a parenthesis redirects to its
/// content; the trailing sentinel means an operator ran off the end of the
/// line.
pub open spec fn spec_walk_solve(
    line: Seq<MathValueV>,
    steps: Seq<RPNStepV>,
    acc: Seq<RPNV>,
    index: int,
) -> Result<(Seq<RPNStepV>, Seq<RPNV>), ErrorV> {
    if index >= line.len() {
        Err(ErrorV::MathParseInternalBug("an offset led out of the line."@))
    } else {
        match line[index] {
            MathValueV::Name(name) => Ok(
                (steps, acc.push(RPNV::Name(spec_remove_whitespace(name)))),
            ),
            MathValueV::Operation(_c, offset_1, offset_2) => match spec_add_index(
                index,
                offset_2,
            ) {
                Err(e) => Err(e),
                Ok(i2) => match spec_add_index(index, offset_1) {
                    Err(e) => Err(e),
                    Ok(i1) => Ok(
                        (
                            steps.push(RPNStepV::OperatorStep(index)).push(
                                RPNStepV::Solve(i2),
                            ).push(RPNStepV::Solve(i1)),
                            acc,
                        ),
                    ),
                },
            },
            MathValueV::UnaryOperation(_c, offset) => match spec_add_index(index, offset) {
                Err(e) => Err(e),
                Ok(i1) => Ok(
                    (steps.push(RPNStepV::OperatorStep(index)).push(RPNStepV::Solve(i1)), acc),
                ),
            },
            MathValueV::ParenOpen(offset) => match spec_add_index(index, offset) {
                Err(e) => Err(e),
                Ok(i1) => Ok((steps.push(RPNStepV::Solve(i1)), acc)),
            },
            MathValueV::TrailingError => Err(ErrorV::TrailingOperator),
            _ => Err(
                ErrorV::MathParseInternalBug(
                    "an unparsed element was met during the tree walk."@,
                ),
            ),
        }
    }
}

/// What one `OperatorStep` step does: the operator of the node at the index
/// is emitted, its operands already standing in the output.
pub open spec fn spec_walk_operator(
    line: Seq<MathValueV>,
    acc: Seq<RPNV>,
    index: int,
) -> Result<Seq<RPNV>, ErrorV> {
    if index >= line.len() {
        Err(ErrorV::MathParseInternalBug("an offset led out of the line."@))
    } else {
        match line[index] {
            MathValueV::Operation(c, _o1, _o2) => match spec_binary_op_of_char(c) {
                Ok(op) => Ok(acc.push(RPNV::Binary(op))),
                Err(e) => Err(e),
            },
            MathValueV::UnaryOperation(c, _o) => match spec_unary_op_of_char(c) {
                Ok(op) => Ok(acc.push(RPNV::Unary(op))),
                Err(e) => Err(e),
            },
            _ => Err(
                ErrorV::MathParseInternalBug(
                    "something else than an operator was queued for emission."@,
                ),
            ),
        }
    }
}

/// The instructions the walk has emitted once the stack of pending steps,
/// taken newest first, is empty, within the given budget of steps.
pub open spec fn spec_rpn_walk(
    line: Seq<MathValueV>,
    steps: Seq<RPNStepV>,
    acc: Seq<RPNV>,
    fuel: int,
) -> Result<Seq<RPNV>, ErrorV>
    decreases fuel,
{
    if steps.len() == 0 {
        Ok(acc)
    } else if fuel <= 0 {
        Err(ErrorV::MathParseInternalBug("the tree walk did not settle."@))
    } else {
        let rest = steps.drop_last();
        match steps.last() {
            RPNStepV::Solve(index) => match spec_walk_solve(line, rest, acc, index) {
                Err(e) => Err(e),
                Ok((steps2, acc2)) => spec_rpn_walk(line, steps2, acc2, fuel - 1),
            },
            RPNStepV::OperatorStep(index) => match spec_walk_operator(line, acc, index) {
                Err(e) => Err(e),
                Ok(acc2) => spec_rpn_walk(line, rest, acc2, fuel - 1),
            },
        }
    }
}

/// What walking the whole positional tree rooted at the first element gives:
/// its instructions in postfix order. The budget is four steps for each
/// element and four more, which a well formed tree never exhausts; on a
/// malformed one (an offset cycle) the walk stops with the defensive fault
/// instead of running forever.
pub open spec fn spec_rpn_from_tree(line: Seq<MathValueV>) -> Result<Seq<RPNV>, ErrorV> {
    if line.len() * 4 > usize::MAX as int || line.len() * 4 + 4 > usize::MAX as int {
        Err(ErrorV::MathParseInternalBug("the line is too long to be walked."@))
    } else {
        spec_rpn_walk(line, seq![RPNStepV::Solve(0)], Seq::empty(), line.len() * 4 + 4int)
    }
}

/// Walks the positional tree rooted at the first element of the line and
/// returns the flat list of RPN instructions it encodes, exactly as
/// [`spec_rpn_from_tree`] says.
pub fn parse_rpn(line: &Vec<MathValue>) -> (r: Result<Vec<RPN>, MathParseErrors>)
    ensures
        r matches Ok(v) ==> spec_rpn_from_tree(math_seq_view(line@)) == Ok::<Seq<RPNV>, ErrorV>(
            rpn_seq_view(v@),
        ),
        r matches Err(e) ==> spec_rpn_from_tree(math_seq_view(line@)) == Err::<
            Seq<RPNV>,
            ErrorV,
        >(e@),
{
    let ghost linev = math_seq_view(line@);
    let mut rpn_steps: Vec<RPNSteps> = Vec::new();
    rpn_steps.push(RPNSteps::Solve(0));
    let mut ret: Vec<RPN> = Vec::new();
    let mut fuel: usize = match line.len().checked_mul(4) {
        Some(f) => match f.checked_add(4) {
            Some(f) => f,
            None => {
                return Err(
                    MathParseErrors::MathParseInternalBug(
                        "the line is too long to be walked.".to_owned(),
                    ),
                );
            },
        },
        None => {
            return Err(
                MathParseErrors::MathParseInternalBug(
                    "the line is too long to be walked.".to_owned(),
                ),
            );
        },
    };
    proof {
        assert(steps_view(rpn_steps@) =~= seq![RPNStepV::Solve(0)]);
        assert(rpn_seq_view(ret@) =~= Seq::<RPNV>::empty());
    }
    while rpn_steps.len() != 0
        invariant
            linev == math_seq_view(line@),
            spec_rpn_walk(linev, steps_view(rpn_steps@), rpn_seq_view(ret@), fuel as int)
                == spec_rpn_from_tree(linev),
        decreases fuel,
    {
        let ghost steps_pre = steps_view(rpn_steps@);
        let ghost acc_pre = rpn_seq_view(ret@);
        let ghost fuel_pre = fuel as int;
        proof {
            assert(steps_pre.len() == rpn_steps@.len());
        }
        if fuel == 0 {
            let e = MathParseErrors::MathParseInternalBug(
                "the tree walk did not settle.".to_owned(),
            );
            proof {
                assert(spec_rpn_walk(linev, steps_pre, acc_pre, fuel_pre) == Err::<
                    Seq<RPNV>,
                    ErrorV,
                >(e@));
            }
            return Err(e);
        }
        fuel = fuel - 1;
        let step = match rpn_steps.pop() {
            Some(s) => s,
            None => { vstd::pervasive::unreached() },
        };
        proof {
            assert(step@ == steps_pre.last());
            assert(steps_view(rpn_steps@) =~= steps_pre.drop_last());
        }
        match step {
            RPNSteps::Solve(index) => {
                match rpn_solve(line, &mut rpn_steps, &mut ret, index) {
                    Ok(()) => {
                        proof {
                            assert(spec_rpn_walk(linev, steps_pre, acc_pre, fuel_pre)
                                == spec_rpn_walk(
                                linev,
                                steps_view(rpn_steps@),
                                rpn_seq_view(ret@),
                                fuel as int,
                            ));
                        }
                    },
                    Err(e) => {
                        proof {
                            assert(spec_rpn_walk(linev, steps_pre, acc_pre, fuel_pre) == Err::<
                                Seq<RPNV>,
                                ErrorV,
                            >(e@));
                        }
                        return Err(e);
                    },
                }
            },
            RPNSteps::OperatorStep(index) => {
                match rpn_operator(line, &mut ret, index) {
                    Ok(()) => {
                        proof {
                            assert(spec_rpn_walk(linev, steps_pre, acc_pre, fuel_pre)
                                == spec_rpn_walk(
                                linev,
                                steps_view(rpn_steps@),
                                rpn_seq_view(ret@),
                                fuel as int,
                            ));
                        }
                    },
                    Err(e) => {
                        proof {
                            assert(spec_rpn_walk(linev, steps_pre, acc_pre, fuel_pre) == Err::<
                                Seq<RPNV>,
                                ErrorV,
                            >(e@));
                        }
                        return Err(e);
                    },
                }
            },
        }
    }
    Ok(ret)
}

/// Handles one `Solve` step, exactly as [`spec_walk_solve`] says.
fn rpn_solve(
    line: &Vec<MathValue>,
    rpn_steps: &mut Vec<RPNSteps>,
    rpn_ret: &mut Vec<RPN>,
    index: usize,
) -> (r: Result<(), MathParseErrors>)
    ensures
        r is Ok ==> spec_walk_solve(
            math_seq_view(line@),
            steps_view(old(rpn_steps)@),
            rpn_seq_view(old(rpn_ret)@),
            index as int,
        ) == Ok::<(Seq<RPNStepV>, Seq<RPNV>), ErrorV>(
            (steps_view(final (rpn_steps)@), rpn_seq_view(final (rpn_ret)@)),
        ),
        r matches Err(e) ==> spec_walk_solve(
            math_seq_view(line@),
            steps_view(old(rpn_steps)@),
            rpn_seq_view(old(rpn_ret)@),
            index as int,
        ) == Err::<(Seq<RPNStepV>, Seq<RPNV>), ErrorV>(e@),
{
    let ghost linev = math_seq_view(line@);
    if index >= line.len() {
        return Err(
            MathParseErrors::MathParseInternalBug(
                "an offset led out of the line.".to_owned(),
            ),
        );
    }
    proof {
        assert(linev[index as int] == line@[index as int]@);
    }
    match &line[index] {
        MathValue::Name(name) => {
            let no_whitespace = remove_whitespace(name.as_str());
            rpn_ret.push(RPN::Name(no_whitespace));
            proof {
                assert(rpn_seq_view(rpn_ret@) =~= rpn_seq_view(old(rpn_ret)@).push(
                    RPNV::Name(spec_remove_whitespace(name@)),
                ));
            }
        },
        MathValue::Operation(_c, offset_1, offset_2) => {
            let off_1 = *offset_1;
            let off_2 = *offset_2;
            rpn_steps.push(RPNSteps::OperatorStep(index));
            let i2 = add_index_offset(index, off_2)?;
            rpn_steps.push(RPNSteps::Solve(i2));
            let i1 = add_index_offset(index, off_1)?;
            rpn_steps.push(RPNSteps::Solve(i1));
            proof {
                assert(steps_view(rpn_steps@) =~= steps_view(old(rpn_steps)@).push(
                    RPNStepV::OperatorStep(index as int),
                ).push(RPNStepV::Solve(i2 as int)).push(RPNStepV::Solve(i1 as int)));
            }
        },
        MathValue::UnaryOperation(_c, offset) => {
            let off = *offset;
            rpn_steps.push(RPNSteps::OperatorStep(index));
            let i1 = add_index_offset(index, off)?;
            rpn_steps.push(RPNSteps::Solve(i1));
            proof {
                assert(steps_view(rpn_steps@) =~= steps_view(old(rpn_steps)@).push(
                    RPNStepV::OperatorStep(index as int),
                ).push(RPNStepV::Solve(i1 as int)));
            }
        },
        MathValue::ParenOpen(offset) => {
            let off = *offset;
            let i1 = add_index_offset(index, off)?;
            rpn_steps.push(RPNSteps::Solve(i1));
            proof {
                assert(steps_view(rpn_steps@) =~= steps_view(old(rpn_steps)@).push(
                    RPNStepV::Solve(i1 as int),
                ));
            }
        },
        MathValue::TrailingError => {
            return Err(MathParseErrors::TrailingOperator);
        },
        _ => {
            return Err(
                MathParseErrors::MathParseInternalBug(
                    "an unparsed element was met during the tree walk.".to_owned(),
                ),
            );
        },
    }
    Ok(())
}

/// Handles one `OperatorStep` step, exactly as [`spec_walk_operator`] says.
fn rpn_operator(line: &Vec<MathValue>, rpn_ret: &mut Vec<RPN>, index: usize) -> (r: Result<
    (),
    MathParseErrors,
>)
    ensures
        r is Ok ==> spec_walk_operator(
            math_seq_view(line@),
            rpn_seq_view(old(rpn_ret)@),
            index as int,
        ) == Ok::<Seq<RPNV>, ErrorV>(rpn_seq_view(final (rpn_ret)@)),
        r matches Err(e) ==> spec_walk_operator(
            math_seq_view(line@),
            rpn_seq_view(old(rpn_ret)@),
            index as int,
        ) == Err::<Seq<RPNV>, ErrorV>(e@),
{
    let ghost linev = math_seq_view(line@);
    if index >= line.len() {
        return Err(
            MathParseErrors::MathParseInternalBug(
                "an offset led out of the line.".to_owned(),
            ),
        );
    }
    proof {
        assert(linev[index as int] == line@[index as int]@);
    }
    match &line[index] {
        MathValue::Operation(c, _offset_1, _offset_2) => {
            let op = BinaryOp::from_char(*c)?;
            rpn_ret.push(RPN::Binary(op));
            proof {
                assert(rpn_seq_view(rpn_ret@) =~= rpn_seq_view(old(rpn_ret)@).push(
                    RPNV::Binary(op),
                ));
            }
        },
        MathValue::UnaryOperation(c, _offset) => {
            let op = UnaryOp::from_char(*c)?;
            rpn_ret.push(RPN::Unary(op));
            proof {
                assert(rpn_seq_view(rpn_ret@) =~= rpn_seq_view(old(rpn_ret)@).push(
                    RPNV::Unary(op),
                ));
            }
        },
        _ => {
            return Err(
                MathParseErrors::MathParseInternalBug(
                    "something else than an operator was queued for emission.".to_owned(),
                ),
            );
        },
    }
    Ok(())
}

} // verus!
