//! The infix parser: a tokenized line of math rearranged, in place, into a
//! tree of operations encoded with relative offsets. The root of the tree
//! ends up as the first element of the line.
//!
//! Three strictly ordered passes do the work: unary operators are tagged
//! first, then parenthesis groups are folded innermost first, and last the
//! binary operators are folded tier by tier, loosest binding first, scanning
//! right to left (which makes operators of one tier left associative). Each
//! pass has a functional specification here, and [`math_parse`] is pinned to
//! their composition, [`spec_math_parse`], on both the success and the error
//! side.
use crate::errors::ErrorV;
use crate::errors::MathParseErrors;
use crate::number_conversion::u_to_i;
use crate::tokenize::MathValue;
use crate::tokenize::MathValueV;
use crate::tokenize::math_seq_view;
use crate::tokenize::math_token;
use crate::tokenize::spec_math_token;
use vstd::pervasive::VecAdditionalExecFns;
use vstd::prelude::*;

verus! {

/// Represent each step taken while folding binary operators: either a range
/// of the line that still wants solving, or an operator, already located,
/// that wants moving to the front of its range.
enum ParseSteps {
    /// We want to solve a range. In it we will find an operator and split
    /// each side into `BlockSolving` and the middle into `OperatorReading`.
    BlockSolving { from: usize, to: usize },
    /// An operator; we only need to move it around so that it ends up on the
    /// front of its range.
    OperatorReading { from: usize, to: usize, index: usize },
}

/// The mathematical face of a pending step.
pub enum TaskV {
    BlockSolving { from: int, to: int },
    OperatorReading { from: int, to: int, index: int },
}

impl View for ParseSteps {
    type V = TaskV;

    closed spec fn view(&self) -> TaskV {
        match self {
            ParseSteps::BlockSolving { from, to } => TaskV::BlockSolving {
                from: *from as int,
                to: *to as int,
            },
            ParseSteps::OperatorReading { from, to, index } => TaskV::OperatorReading {
                from: *from as int,
                to: *to as int,
                index: *index as int,
            },
        }
    }
}

/// The views of a stack of pending steps, in order.
spec fn tasks_view(s: Seq<ParseSteps>) -> Seq<TaskV> {
    s.map_values(|t: ParseSteps| t@)
}

/// A pending step stays inside the line it belongs to.
spec fn task_wf(t: ParseSteps, len: int) -> bool {
    match t {
        ParseSteps::BlockSolving { from, to } => from <= to <= len,
        ParseSteps::OperatorReading { from, to, index } => from <= index && index < to && to
            <= len,
    }
}

/// What tagging unary operators does to the line from position `i` on, with
/// the flag saying whether an operator (or the start of the line, or an
/// opening parenthesis) comes just before: a `+`, `-` (of either glyph, kept
/// as `-`) or `!`/`~` (kept as `!`) under a raised flag becomes a unary
/// operation on the next element; any other operator under a raised flag is
/// misplaced. The zero-width placeholder and the trailing sentinel carry the
/// flag through unchanged. The result holds the transformed elements from
/// `i` to the end.
pub open spec fn spec_unary_tail(line: Seq<MathValueV>, i: int, prev: bool) -> Result<
    Seq<MathValueV>,
    ErrorV,
>
    decreases line.len() - i,
{
    if i >= line.len() {
        Ok(Seq::empty())
    } else {
        let head_and_flag: Result<(MathValueV, bool), ErrorV> = match line[i] {
            MathValueV::Operator(c) => {
                if c == '+' {
                    if prev {
                        Ok((MathValueV::UnaryOperation('+', 1), true))
                    } else {
                        Ok((line[i], true))
                    }
                } else if c == '-' || c == '−' {
                    if prev {
                        Ok((MathValueV::UnaryOperation('-', 1), true))
                    } else {
                        Ok((line[i], true))
                    }
                } else if c == '!' || c == '~' {
                    if prev {
                        Ok((MathValueV::UnaryOperation('!', 1), true))
                    } else {
                        Ok((line[i], true))
                    }
                } else if c == '(' {
                    Ok((line[i], true))
                } else if c == ')' {
                    Ok((line[i], false))
                } else if prev {
                    Err(ErrorV::MisplacedOperator(c))
                } else {
                    Ok((line[i], true))
                }
            },
            MathValueV::Name(_) => Ok((line[i], false)),
            MathValueV::ParenOpen(_) => Ok((line[i], prev)),
            MathValueV::TrailingError => Ok((line[i], prev)),
            _ => Err(
                ErrorV::MathParseInternalBug("parsed element found during unary parsing."@),
            ),
        };
        match head_and_flag {
            Err(e) => Err(e),
            Ok((head, flag)) => match spec_unary_tail(line, i + 1, flag) {
                Err(e) => Err(e),
                Ok(rest) => Ok(seq![head] + rest),
            },
        }
    }
}

/// What the whole unary pass gives on a tokenized line.
pub open spec fn spec_unary_pass(line: Seq<MathValueV>) -> Result<Seq<MathValueV>, ErrorV> {
    spec_unary_tail(line, 0, true)
}

/// One step of the unary pass settled: if the element at `i` becomes `head`
/// with the flag moving to `flag`, the pass over the whole line is the pass
/// over the rest, behind the transformed prefix.
proof fn lemma_unary_step(
    base: Seq<MathValueV>,
    cur: Seq<MathValueV>,
    new_cur: Seq<MathValueV>,
    i: int,
    prev: bool,
    head: MathValueV,
    flag: bool,
)
    requires
        0 <= i < base.len(),
        cur.len() == base.len(),
        new_cur == cur.update(i, head),
        spec_unary_tail(base, i, prev) == (match spec_unary_tail(base, i + 1, flag) {
            Err(e) => Err::<Seq<MathValueV>, ErrorV>(e),
            Ok(rest) => Ok(seq![head] + rest),
        }),
        spec_unary_pass(base) == (match spec_unary_tail(base, i, prev) {
            Err(e) => Err::<Seq<MathValueV>, ErrorV>(e),
            Ok(rest) => Ok(cur.take(i) + rest),
        }),
    ensures
        spec_unary_pass(base) == (match spec_unary_tail(base, i + 1, flag) {
            Err(e) => Err::<Seq<MathValueV>, ErrorV>(e),
            Ok(rest) => Ok(new_cur.take(i + 1) + rest),
        }),
{
    match spec_unary_tail(base, i + 1, flag) {
        Err(_) => {},
        Ok(rest) => {
            assert(new_cur.take(i + 1) =~= cur.take(i).push(head));
            assert(cur.take(i) + (seq![head] + rest) =~= new_cur.take(i + 1) + rest);
        },
    }
}

/// Parse unary operators. This must be done before any other steps of the
/// parsing as the next steps will move around the elements used to determine
/// which operators are unary.
fn unary_parse(line: &mut Vec<MathValue>) -> (r: Result<(), MathParseErrors>)
    ensures
        final (line)@.len() == old(line)@.len(),
        r is Ok ==> Ok::<Seq<MathValueV>, ErrorV>(math_seq_view(final (line)@))
            == spec_unary_pass(math_seq_view(old(line)@)),
        r matches Err(e) ==> spec_unary_pass(math_seq_view(old(line)@)) == Err::<
            Seq<MathValueV>,
            ErrorV,
        >(e@),
{
    let ghost base = math_seq_view(old(line)@);
    let mut previous_operator = true;
    let mut i: usize = 0;
    while i < line.len()
        invariant
            line@.len() == old(line)@.len(),
            i <= line@.len(),
            base == math_seq_view(old(line)@),
            base.len() == line@.len(),
            forall|j: int|
                i <= j < line@.len() ==> #[trigger] math_seq_view(line@)[j] == base[j],
            spec_unary_pass(base) == (match spec_unary_tail(
                base,
                i as int,
                previous_operator,
            ) {
                Err(e) => Err::<Seq<MathValueV>, ErrorV>(e),
                Ok(rest) => Ok(math_seq_view(line@).take(i as int) + rest),
            }),
        decreases line@.len() - i,
    {
        let ghost cur = math_seq_view(line@);
        let ghost prev = previous_operator;
        proof {
            assert(cur[i as int] == line@[i as int]@);
            assert(cur[i as int] == base[i as int]);
        }
        match &line[i] {
            MathValue::Operator(c) => {
                let c = *c;
                if c == '+' {
                    if previous_operator {
                        line.set(i, MathValue::UnaryOperation('+', 1));
                    }
                    previous_operator = true;
                } else if c == '-' || c == '−' {
                    if previous_operator {
                        line.set(i, MathValue::UnaryOperation('-', 1));
                    }
                    previous_operator = true;
                } else if c == '!' || c == '~' {
                    if previous_operator {
                        line.set(i, MathValue::UnaryOperation('!', 1));
                    }
                    previous_operator = true;
                } else if c == '(' {
                    previous_operator = true;
                } else if c == ')' {
                    previous_operator = false;
                } else {
                    if previous_operator {
                        let e = MathParseErrors::MisplacedOperator(c);
                        proof {
                            assert(spec_unary_pass(base) == Err::<Seq<MathValueV>, ErrorV>(e@));
                        }
                        return Err(e);
                    }
                    previous_operator = true;
                }
            },
            MathValue::Name(_) => {
                previous_operator = false;
            },
            MathValue::ParenOpen(_) => {
                // At this stage a `ParenOpen` is only the zero-width
                // placeholder behind a merged two-character operator or a
                // whitespace run, so the flag in force stays: `5<<-1` and
                // `1 + - 1` read the `-` as a sign.
            },
            MathValue::TrailingError => {},
            _ => {
                let e = MathParseErrors::MathParseInternalBug(
                    "parsed element found during unary parsing.".to_owned(),
                );
                proof {
                    assert(spec_unary_pass(base) == Err::<Seq<MathValueV>, ErrorV>(e@));
                }
                return Err(e);
            },
        }
        proof {
            let new_cur = math_seq_view(line@);
            let head = new_cur[i as int];
            assert(new_cur =~= cur.update(i as int, head));
            lemma_unary_step(base, cur, new_cur, i as int, prev, head, previous_operator);
        }
        i = i + 1;
    }
    proof {
        assert(spec_unary_tail(base, i as int, previous_operator) == Ok::<
            Seq<MathValueV>,
            ErrorV,
        >(Seq::empty()));
        assert(math_seq_view(line@).take(i as int) + Seq::<MathValueV>::empty()
            =~= math_seq_view(line@));
    }
    Ok(())
}

/// The tiers of binary operators, loosest binding first; the operators of a
/// tier are folded together in one pass.
#[derive(Copy, Clone)]
pub enum OperatorTier {
    BitOr,
    BitXor,
    BitAnd,
    Shifts,
    Additive,
    Multiplicative,
}

/// Whether the character is an operator of the tier.
pub open spec fn spec_tier_contains(tier: OperatorTier, c: char) -> bool {
    match tier {
        OperatorTier::BitOr => c == '|',
        OperatorTier::BitXor => c == '^',
        OperatorTier::BitAnd => c == '&',
        OperatorTier::Shifts => c == '≪' || c == '≫' || c == '<' || c == '>',
        OperatorTier::Additive => c == '+' || c == '-' || c == '−',
        OperatorTier::Multiplicative => c == '/' || c == '∕' || c == '⁄' || c == '÷' || c == '*'
            || c == '×' || c == '·' || c == '%' || c == '⟌',
    }
}

/// Tells an operator character of the tier.
fn tier_contains(tier: OperatorTier, c: char) -> (r: bool)
    ensures
        r == spec_tier_contains(tier, c),
{
    match tier {
        OperatorTier::BitOr => c == '|',
        OperatorTier::BitXor => c == '^',
        OperatorTier::BitAnd => c == '&',
        OperatorTier::Shifts => c == '≪' || c == '≫' || c == '<' || c == '>',
        OperatorTier::Additive => c == '+' || c == '-' || c == '−',
        OperatorTier::Multiplicative => c == '/' || c == '∕' || c == '⁄' || c == '÷' || c == '*'
            || c == '×' || c == '·' || c == '%' || c == '⟌',
    }
}

/// Where the right-to-left scan from position `index` first meets an
/// operator of the tier, jumping over folded parenthesis groups by their
/// stored length; a group with a length of zero, or one reaching out of the
/// line, is a broken invariant.
pub open spec fn spec_find_op(
    line: Seq<MathValueV>,
    tier: OperatorTier,
    from: int,
    index: int,
) -> Result<Option<int>, ErrorV>
    recommends
        0 <= from,
    decreases index,
{
    if index < from + 1 || index <= 0 {
        Ok(None)
    } else {
        match line[index] {
            MathValueV::Operator(c) => if spec_tier_contains(tier, c) {
                Ok(Some(index))
            } else {
                spec_find_op(line, tier, from, index - 1)
            },
            MathValueV::ParenClose(size) => if size <= 0 || size > index {
                Err(
                    ErrorV::MathParseInternalBug(
                        "a parenthesis group has a bad length."@,
                    ),
                )
            } else {
                spec_find_op(line, tier, from, index - size)
            },
            _ => spec_find_op(line, tier, from, index - 1),
        }
    }
}

/// What scanning a range for one tier gives: a range of nothing is an empty
/// line, as is a lone trailing sentinel; any other single element stands
/// solved on its own; else the scan looks for the rightmost operator of the
/// tier.
pub enum ParseOpV {
    /// The range is one element that needs no operator.
    Solved,
    /// The rightmost operator of the tier stands at this position.
    Found(int),
    /// The range holds no operator of this tier.
    NotFound,
}

/// What one tier's scan of the range returns.
pub open spec fn spec_parse_op(
    line: Seq<MathValueV>,
    tier: OperatorTier,
    from: int,
    to: int,
) -> Result<ParseOpV, ErrorV> {
    if to - from == 0 {
        Err(ErrorV::EmptyLine)
    } else if to - from == 1 {
        if line[from] is TrailingError {
            Err(ErrorV::EmptyLine)
        } else {
            Ok(ParseOpV::Solved)
        }
    } else {
        match spec_find_op(line, tier, from, to - 2) {
            Err(e) => Err(e),
            Ok(Some(i)) => Ok(ParseOpV::Found(i)),
            Ok(None) => Ok(ParseOpV::NotFound),
        }
    }
}

/// The pending steps after one scan: a found operator queues its own move
/// and the solving of the ranges on its two sides; anything else queues
/// nothing.
pub open spec fn spec_tasks_after(
    tasks: Seq<TaskV>,
    from: int,
    to: int,
    outcome: ParseOpV,
) -> Seq<TaskV> {
    match outcome {
        ParseOpV::Found(i) => tasks.push(TaskV::OperatorReading { from, to, index: i }).push(
            TaskV::BlockSolving { from, to: i },
        ).push(TaskV::BlockSolving { from: i + 1, to }),
        _ => tasks,
    }
}

/// What scanning a range through all the tiers, loosest first, returns: the
/// first tier holding an operator wins.
pub open spec fn spec_solve_block(line: Seq<MathValueV>, from: int, to: int) -> Result<
    ParseOpV,
    ErrorV,
> {
    match spec_parse_op(line, OperatorTier::BitOr, from, to) {
        Err(e) => Err(e),
        Ok(o) => if !(o is NotFound) {
            Ok(o)
        } else {
            match spec_parse_op(line, OperatorTier::BitXor, from, to) {
                Err(e) => Err(e),
                Ok(o) => if !(o is NotFound) {
                    Ok(o)
                } else {
                    match spec_parse_op(line, OperatorTier::BitAnd, from, to) {
                        Err(e) => Err(e),
                        Ok(o) => if !(o is NotFound) {
                            Ok(o)
                        } else {
                            match spec_parse_op(line, OperatorTier::Shifts, from, to) {
                                Err(e) => Err(e),
                                Ok(o) => if !(o is NotFound) {
                                    Ok(o)
                                } else {
                                    match spec_parse_op(line, OperatorTier::Additive, from, to) {
                                        Err(e) => Err(e),
                                        Ok(o) => if !(o is NotFound) {
                                            Ok(o)
                                        } else {
                                            spec_parse_op(
                                                line,
                                                OperatorTier::Multiplicative,
                                                from,
                                                to,
                                            )
                                        },
                                    }
                                },
                            }
                        },
                    }
                },
            }
        },
    }
}

/// The former front element of a range, shifted so that its offsets still
/// lead to the same elements once it stands at the found operator's old
/// place; an offset leaving the signed range is a broken invariant.
pub open spec fn spec_shift_header(former: MathValueV, off: int) -> Result<MathValueV, ErrorV> {
    match former {
        MathValueV::ParenOpen(io) => if io - off < isize::MIN as int || io - off
            > isize::MAX as int {
            Err(ErrorV::MathParseInternalBug("an offset does not fit."@))
        } else {
            Ok(MathValueV::ParenOpen(io - off))
        },
        MathValueV::Operation(c, o1, o2) => if o1 - off < isize::MIN as int || o1 - off
            > isize::MAX as int || o2 - off < isize::MIN as int || o2 - off > isize::MAX as int {
            Err(ErrorV::MathParseInternalBug("an offset does not fit."@))
        } else {
            Ok(MathValueV::Operation(c, o1 - off, o2 - off))
        },
        MathValueV::UnaryOperation(c, o) => if o - off < isize::MIN as int || o - off
            > isize::MAX as int {
            Err(ErrorV::MathParseInternalBug("an offset does not fit."@))
        } else {
            Ok(MathValueV::UnaryOperation(c, o - off))
        },
        x => Ok(x),
    }
}

/// What moving the found operator to the front of its range does to the
/// line: the operator becomes an operation whose operands are the former
/// front element (moved to the operator's old place, offsets shifted) and
/// the element after it.
pub open spec fn spec_make_op(
    line: Seq<MathValueV>,
    from: int,
    to: int,
    index: int,
) -> Result<Seq<MathValueV>, ErrorV>
    recommends
        0 <= from <= index < to <= line.len(),
{
    match line[index] {
        MathValueV::Operator(op) => {
            let off = index - from;
            if off > isize::MAX as int {
                Err(
                    ErrorV::MathParseInternalBug(
                        "an index does not fit as a signed offset."@,
                    ),
                )
            } else if off + 1 > isize::MAX as int {
                Err(ErrorV::MathParseInternalBug("an offset does not fit."@))
            } else {
                match spec_shift_header(line[from], off) {
                    Err(e) => Err(e),
                    Ok(header) => Ok(
                        line.update(from, MathValueV::Operation(op, off, off + 1)).update(
                            index,
                            header,
                        ),
                    ),
                }
            }
        },
        _ => Err(
            ErrorV::MathParseInternalBug(
                "something else than an operator was moved to the front."@,
            ),
        ),
    }
}

/// The line after processing the whole stack of pending steps, newest step
/// first, within the given budget of steps.
pub open spec fn spec_solve_tasks(
    line: Seq<MathValueV>,
    tasks: Seq<TaskV>,
    fuel: int,
) -> Result<Seq<MathValueV>, ErrorV>
    decreases fuel,
{
    if tasks.len() == 0 {
        Ok(line)
    } else if fuel <= 0 {
        Err(ErrorV::MathParseInternalBug("operator folding did not settle."@))
    } else {
        let rest = tasks.drop_last();
        match tasks.last() {
            TaskV::OperatorReading { from, to, index } => match spec_make_op(
                line,
                from,
                to,
                index,
            ) {
                Err(e) => Err(e),
                Ok(line2) => spec_solve_tasks(line2, rest, fuel - 1),
            },
            TaskV::BlockSolving { from, to } => match spec_solve_block(line, from, to) {
                Err(e) => Err(e),
                Ok(outcome) => spec_solve_tasks(
                    line,
                    spec_tasks_after(rest, from, to, outcome),
                    fuel - 1,
                ),
            },
        }
    }
}

/// What folding all binary operators of a range gives: the steps budget is
/// four steps for each element and four more, which a well formed line never
/// exhausts.
pub open spec fn spec_fold_block(line: Seq<MathValueV>, from: int, to: int) -> Result<
    Seq<MathValueV>,
    ErrorV,
> {
    let size = to - from;
    if size * 4 > usize::MAX as int || size * 4 + 4 > usize::MAX as int {
        Err(ErrorV::MathParseInternalBug("the line is too long to be parsed."@))
    } else {
        spec_solve_tasks(
            line,
            seq![TaskV::BlockSolving { from, to }],
            size * 4 + 4,
        )
    }
}

/// The view of a possibly found position.
pub open spec fn spec_opt_index(o: Option<usize>) -> Option<int> {
    match o {
        None => None,
        Some(u) => Some(u as int),
    }
}

/// What scanning for the first parenthesis group to close does from position
/// `i` on, remembering the latest opening parenthesis: at the first closing
/// one, the group's content is folded and the pair becomes the group's
/// bracket elements; a line without a closing parenthesis is done (and
/// faulty if an opening one is left over).
pub open spec fn spec_paren_scan(
    line: Seq<MathValueV>,
    i: int,
    open: Option<int>,
) -> Result<(Seq<MathValueV>, bool), ErrorV>
    decreases line.len() - i,
{
    if i >= line.len() {
        if open is Some {
            Err(ErrorV::UnclosedParenthesis)
        } else {
            Ok((line, false))
        }
    } else {
        match line[i] {
            MathValueV::Operator(c) => if c == '(' {
                spec_paren_scan(line, i + 1, Some(i))
            } else if c == ')' {
                match open {
                    None => Err(ErrorV::UnopenedParenthesis),
                    Some(o) => match spec_fold_block(line, o + 1, i) {
                        Err(e) => Err(e),
                        Ok(line2) => Ok(
                            (
                                line2.update(o, MathValueV::ParenOpen(1)).update(
                                    i,
                                    MathValueV::ParenClose(i - o - 1),
                                ),
                                true,
                            ),
                        ),
                    },
                }
            } else {
                spec_paren_scan(line, i + 1, open)
            },
            _ => spec_paren_scan(line, i + 1, open),
        }
    }
}

/// What folding the first-closing parenthesis group gives, and whether one
/// was found.
pub open spec fn spec_single_paren(line: Seq<MathValueV>) -> Result<
    (Seq<MathValueV>, bool),
    ErrorV,
> {
    spec_paren_scan(line, 0, None)
}

/// What folding parenthesis groups until none is left gives, within the
/// given budget of folds; each fold consumes one opening parenthesis, so a
/// budget of the line's length never runs out.
pub open spec fn spec_paren_pass(line: Seq<MathValueV>, fuel: int) -> Result<
    Seq<MathValueV>,
    ErrorV,
>
    decreases fuel,
{
    match spec_single_paren(line) {
        Err(e) => Err(e),
        Ok((line2, false)) => Ok(line2),
        Ok((line2, true)) => if fuel <= 0 {
            Err(ErrorV::MathParseInternalBug("parenthesis folding did not settle."@))
        } else {
            spec_paren_pass(line2, fuel - 1)
        },
    }
}

/// What the whole infix parse does to a tokenized line: unary tagging, then
/// parenthesis folding, then the operator folding of the remaining whole
/// range.
pub open spec fn spec_infix_parse(line: Seq<MathValueV>) -> Result<Seq<MathValueV>, ErrorV> {
    match spec_unary_pass(line) {
        Err(e) => Err(e),
        Ok(l1) => match spec_paren_pass(l1, l1.len() as int) {
            Err(e) => Err(e),
            Ok(l2) => spec_fold_block(l2, 0, l2.len() as int),
        },
    }
}

/// What parsing an expression gives: its tokens, rearranged in place into
/// the positional tree by the three passes.
pub open spec fn spec_math_parse(s: Seq<char>) -> Result<Seq<MathValueV>, ErrorV> {
    spec_infix_parse(spec_math_token(s))
}

/// Parse the first group in parenthesis that will be closed first. Return
/// true if a parenthesis group was parsed and false otherwise.
fn single_paren_parse(line: &mut Vec<MathValue>) -> (r: Result<bool, MathParseErrors>)
    ensures
        final (line)@.len() == old(line)@.len(),
        r matches Ok(b) ==> spec_single_paren(math_seq_view(old(line)@)) == Ok::<
            (Seq<MathValueV>, bool),
            ErrorV,
        >((math_seq_view(final (line)@), b)),
        r matches Err(e) ==> spec_single_paren(math_seq_view(old(line)@)) == Err::<
            (Seq<MathValueV>, bool),
            ErrorV,
        >(e@),
{
    let ghost base = math_seq_view(old(line)@);
    let mut i: usize = 0;
    let mut maybe_paren_open_index: Option<usize> = None;
    while i < line.len()
        invariant
            line@.len() == old(line)@.len(),
            i <= line@.len(),
            base == math_seq_view(old(line)@),
            math_seq_view(line@) == base,
            maybe_paren_open_index matches Some(o) ==> o < i,
            spec_paren_scan(base, i as int, spec_opt_index(maybe_paren_open_index))
                == spec_single_paren(base),
        decreases line@.len() - i,
    {
        proof {
            assert(base[i as int] == line@[i as int]@);
        }
        let is_open = match &line[i] {
            MathValue::Operator(c) => *c == '(',
            _ => false,
        };
        let is_close = match &line[i] {
            MathValue::Operator(c) => *c == ')',
            _ => false,
        };
        if is_open {
            maybe_paren_open_index = Some(i);
        } else if is_close {
            let paren_open_index = if let Some(index) = maybe_paren_open_index {
                index
            } else {
                return Err(MathParseErrors::UnopenedParenthesis);
            };
            let size_between = i - paren_open_index - 1;
            all_but_paren_parse(line, paren_open_index + 1, i)?;
            line.set(paren_open_index, MathValue::ParenOpen(1));
            line.set(i, MathValue::ParenClose(size_between));
            proof {
                assert(math_seq_view(line@) =~= spec_fold_block(
                    base,
                    paren_open_index + 1,
                    i as int,
                )->Ok_0.update(paren_open_index as int, MathValueV::ParenOpen(1)).update(
                    i as int,
                    MathValueV::ParenClose(i - paren_open_index - 1),
                ));
            }
            return Ok(true);
        }
        i = i + 1;
    }
    if maybe_paren_open_index.is_some() {
        Err(MathParseErrors::UnclosedParenthesis)
    } else {
        Ok(false)
    }
}

/// Transform content in parenthesis into a root element.
fn paren_parse(line: &mut Vec<MathValue>) -> (r: Result<(), MathParseErrors>)
    ensures
        final (line)@.len() == old(line)@.len(),
        r is Ok ==> spec_paren_pass(math_seq_view(old(line)@), old(line)@.len() as int) == Ok::<
            Seq<MathValueV>,
            ErrorV,
        >(math_seq_view(final (line)@)),
        r matches Err(e) ==> spec_paren_pass(math_seq_view(old(line)@), old(line)@.len() as int)
            == Err::<Seq<MathValueV>, ErrorV>(e@),
{
    let mut fuel = line.len();
    while fuel > 0
        invariant
            line@.len() == old(line)@.len(),
            spec_paren_pass(math_seq_view(line@), fuel as int) == spec_paren_pass(
                math_seq_view(old(line)@),
                old(line)@.len() as int,
            ),
        decreases fuel,
    {
        if !single_paren_parse(line)? {
            return Ok(());
        }
        fuel = fuel - 1;
    }
    if !single_paren_parse(line)? {
        Ok(())
    } else {
        // Each successful fold consumes one opening parenthesis, so more
        // folds than the line has elements cannot happen.
        Err(
            MathParseErrors::MathParseInternalBug(
                "parenthesis folding did not settle.".to_owned(),
            ),
        )
    }
}

/// When an operator is found, cut the two parts of the equation that need
/// solving and add them to the task stack. Also add the operator management
/// to it.
fn make_tasks_from_op(
    from: usize,
    to: usize,
    operator_index: usize,
    tasks_stack: &mut Vec<ParseSteps>,
    ghost_len: Ghost<int>,
)
    requires
        from <= operator_index,
        operator_index < to,
        to <= ghost_len@,
        forall|j: int|
            0 <= j < old(tasks_stack)@.len() ==> task_wf(#[trigger] old(tasks_stack)@[j],
            ghost_len@),
    ensures
        forall|j: int|
            0 <= j < final (tasks_stack)@.len() ==> task_wf(
                #[trigger] final (tasks_stack)@[j],
                ghost_len@,
            ),
        tasks_view(final (tasks_stack)@) == spec_tasks_after(
            tasks_view(old(tasks_stack)@),
            from as int,
            to as int,
            ParseOpV::Found(operator_index as int),
        ),
{
    tasks_stack.push(ParseSteps::OperatorReading { from, to, index: operator_index });
    tasks_stack.push(ParseSteps::BlockSolving { from, to: operator_index });
    tasks_stack.push(ParseSteps::BlockSolving { from: operator_index + 1, to });
    proof {
        assert(tasks_view(final (tasks_stack)@) =~= spec_tasks_after(
            tasks_view(old(tasks_stack)@),
            from as int,
            to as int,
            ParseOpV::Found(operator_index as int),
        ));
    }
}

/// Parse a range of the line from right to left; if any operator from the
/// tier is found, calls `make_tasks_from_op` on it. Handles the special
/// cases of 1 or 2 elements in the range.
fn parse_op(
    line: &Vec<MathValue>,
    tier: OperatorTier,
    from: usize,
    to: usize,
    tasks_stack: &mut Vec<ParseSteps>,
) -> (r: Result<bool, MathParseErrors>)
    requires
        from <= to <= line@.len(),
        forall|j: int|
            0 <= j < old(tasks_stack)@.len() ==> task_wf(#[trigger] old(tasks_stack)@[j],
            line@.len() as int),
    ensures
        forall|j: int|
            0 <= j < final (tasks_stack)@.len() ==> task_wf(
                #[trigger] final (tasks_stack)@[j],
                line@.len() as int,
            ),
        r matches Err(e) ==> spec_parse_op(math_seq_view(line@), tier, from as int, to as int)
            == Err::<ParseOpV, ErrorV>(e@),
        r matches Ok(b) ==> (spec_parse_op(math_seq_view(line@), tier, from as int, to as int)
            matches Ok(o) && b == !(o is NotFound) && tasks_view(final (tasks_stack)@)
            == spec_tasks_after(tasks_view(old(tasks_stack)@), from as int, to as int, o)),
{
    let ghost linev = math_seq_view(line@);
    if to - from == 0 {
        Err(MathParseErrors::EmptyLine)
    } else if to - from == 1 {
        proof {
            assert(linev[from as int] == line@[from as int]@);
        }
        match &line[from] {
            MathValue::TrailingError => Err(MathParseErrors::EmptyLine),
            _ => Ok(true),
        }
    } else {
        let mut index = to - 2;
        while index >= from + 1
            invariant
                from + 1 <= to,
                to <= line@.len(),
                index < to,
                linev == math_seq_view(line@),
                spec_find_op(linev, tier, from as int, index as int) == spec_find_op(
                    linev,
                    tier,
                    from as int,
                    (to - 2) as int,
                ),
                forall|j: int|
                    0 <= j < tasks_stack@.len() ==> task_wf(#[trigger] tasks_stack@[j],
                    line@.len() as int),
                tasks_stack@ == old(tasks_stack)@,
            decreases index,
        {
            proof {
                assert(linev[index as int] == line@[index as int]@);
            }
            match &line[index] {
                MathValue::Operator(c) => {
                    if tier_contains(tier, *c) {
                        proof {
                            assert(spec_find_op(linev, tier, from as int, index as int) == Ok::<
                                Option<int>,
                                ErrorV,
                            >(Some(index as int)));
                        }
                        make_tasks_from_op(
                            from,
                            to,
                            index,
                            tasks_stack,
                            Ghost(line@.len() as int),
                        );
                        return Ok(true);
                    }
                    index = index - 1;
                },
                MathValue::ParenClose(size) => {
                    let size = *size;
                    if size == 0 || size > index {
                        // A parenthesis group cannot be empty nor reach out
                        // of the line here.
                        let e = MathParseErrors::MathParseInternalBug(
                            "a parenthesis group has a bad length.".to_owned(),
                        );
                        proof {
                            assert(spec_find_op(linev, tier, from as int, index as int) == Err::<
                                Option<int>,
                                ErrorV,
                            >(e@));
                        }
                        return Err(e);
                    }
                    index = index - size;
                },
                _ => {
                    index = index - 1;
                },
            }
        }
        proof {
            assert(spec_find_op(linev, tier, from as int, index as int) == Ok::<
                Option<int>,
                ErrorV,
            >(None));
        }
        Ok(false)
    }
}

/// To solve a block, search for all operators, tier by tier, and process
/// them.
fn solve_block(
    line: &Vec<MathValue>,
    from: usize,
    to: usize,
    tasks_stack: &mut Vec<ParseSteps>,
) -> (r: Result<(), MathParseErrors>)
    requires
        from <= to <= line@.len(),
        forall|j: int|
            0 <= j < old(tasks_stack)@.len() ==> task_wf(#[trigger] old(tasks_stack)@[j],
            line@.len() as int),
    ensures
        forall|j: int|
            0 <= j < final (tasks_stack)@.len() ==> task_wf(
                #[trigger] final (tasks_stack)@[j],
                line@.len() as int,
            ),
        r matches Err(e) ==> spec_solve_block(math_seq_view(line@), from as int, to as int)
            == Err::<ParseOpV, ErrorV>(e@),
        r is Ok ==> (spec_solve_block(math_seq_view(line@), from as int, to as int) matches Ok(o)
            && tasks_view(final (tasks_stack)@) == spec_tasks_after(
            tasks_view(old(tasks_stack)@),
            from as int,
            to as int,
            o,
        )),
{
    if parse_op(line, OperatorTier::BitOr, from, to, tasks_stack)? {
        return Ok(());
    }
    if parse_op(line, OperatorTier::BitXor, from, to, tasks_stack)? {
        return Ok(());
    }
    if parse_op(line, OperatorTier::BitAnd, from, to, tasks_stack)? {
        return Ok(());
    }
    if parse_op(line, OperatorTier::Shifts, from, to, tasks_stack)? {
        return Ok(());
    }
    if parse_op(line, OperatorTier::Additive, from, to, tasks_stack)? {
        return Ok(());
    }
    parse_op(line, OperatorTier::Multiplicative, from, to, tasks_stack)?;
    Ok(())
}

/// To solve an `OperatorReading` task, replace the operator by an operation
/// and put it at the front of the range, moving the former front element to
/// the operator's place with its offsets adjusted.
fn make_op(line: &mut Vec<MathValue>, from: usize, to: usize, operator_index: usize) -> (r: Result<
    (),
    MathParseErrors,
>)
    requires
        from <= operator_index,
        operator_index < to,
        to <= old(line)@.len(),
    ensures
        final (line)@.len() == old(line)@.len(),
        r is Ok ==> spec_make_op(
            math_seq_view(old(line)@),
            from as int,
            to as int,
            operator_index as int,
        ) == Ok::<Seq<MathValueV>, ErrorV>(math_seq_view(final (line)@)),
        r matches Err(e) ==> spec_make_op(
            math_seq_view(old(line)@),
            from as int,
            to as int,
            operator_index as int,
        ) == Err::<Seq<MathValueV>, ErrorV>(e@),
{
    let ghost base = math_seq_view(old(line)@);
    proof {
        assert(base[operator_index as int] == line@[operator_index as int]@);
        assert(base[from as int] == line@[from as int]@);
    }
    let op = match &line[operator_index] {
        MathValue::Operator(c) => *c,
        _ => {
            return Err(
                MathParseErrors::MathParseInternalBug(
                    "something else than an operator was moved to the front.".to_owned(),
                ),
            );
        },
    };
    let operator_offset = u_to_i(operator_index - from)?;
    let next_offset = match operator_offset.checked_add(1) {
        Some(o) => o,
        None => {
            return Err(
                MathParseErrors::MathParseInternalBug("an offset does not fit.".to_owned()),
            );
        },
    };
    let mut former_head = MathValue::Operation(op, operator_offset, next_offset);
    line.set_and_swap(from, &mut former_head);
    proof {
        assert(former_head@ == base[from as int]);
    }
    let part_1_header = match former_head {
        MathValue::ParenOpen(inside_offset) => {
            match inside_offset.checked_sub(operator_offset) {
                Some(o) => MathValue::ParenOpen(o),
                None => {
                    return Err(
                        MathParseErrors::MathParseInternalBug(
                            "an offset does not fit.".to_owned(),
                        ),
                    );
                },
            }
        },
        MathValue::Operation(c, offset_1, offset_2) => {
            match (offset_1.checked_sub(operator_offset), offset_2.checked_sub(operator_offset)) {
                (Some(o1), Some(o2)) => MathValue::Operation(c, o1, o2),
                _ => {
                    return Err(
                        MathParseErrors::MathParseInternalBug(
                            "an offset does not fit.".to_owned(),
                        ),
                    );
                },
            }
        },
        MathValue::UnaryOperation(c, offset) => {
            match offset.checked_sub(operator_offset) {
                Some(o) => MathValue::UnaryOperation(c, o),
                None => {
                    return Err(
                        MathParseErrors::MathParseInternalBug(
                            "an offset does not fit.".to_owned(),
                        ),
                    );
                },
            }
        },
        x => x,
    };
    proof {
        assert(spec_shift_header(base[from as int], operator_index - from as int) == Ok::<
            MathValueV,
            ErrorV,
        >(part_1_header@));
    }
    line.set(operator_index, part_1_header);
    proof {
        assert(math_seq_view(line@) =~= base.update(
            from as int,
            MathValueV::Operation(op, operator_index - from as int, operator_index - from + 1),
        ).update(operator_index as int, part_1_header@));
    }
    Ok(())
}

/// Processes all the tasks in the given stack, newest first, until it is
/// empty. The number of steps a range can spawn is bounded by four times its
/// size, so the budget is never hit on a line the other passes built.
fn solve_tasks(
    line: &mut Vec<MathValue>,
    tasks_stack: &mut Vec<ParseSteps>,
    fuel: usize,
) -> (r: Result<(), MathParseErrors>)
    requires
        forall|j: int|
            0 <= j < old(tasks_stack)@.len() ==> task_wf(#[trigger] old(tasks_stack)@[j],
            old(line)@.len() as int),
    ensures
        final (line)@.len() == old(line)@.len(),
        r is Ok ==> spec_solve_tasks(
            math_seq_view(old(line)@),
            tasks_view(old(tasks_stack)@),
            fuel as int,
        ) == Ok::<Seq<MathValueV>, ErrorV>(math_seq_view(final (line)@)),
        r matches Err(e) ==> spec_solve_tasks(
            math_seq_view(old(line)@),
            tasks_view(old(tasks_stack)@),
            fuel as int,
        ) == Err::<Seq<MathValueV>, ErrorV>(e@),
{
    let mut fuel_left = fuel;
    while tasks_stack.len() != 0
        invariant
            line@.len() == old(line)@.len(),
            spec_solve_tasks(math_seq_view(line@), tasks_view(tasks_stack@), fuel_left as int)
                == spec_solve_tasks(
                math_seq_view(old(line)@),
                tasks_view(old(tasks_stack)@),
                fuel as int,
            ),
            forall|j: int|
                0 <= j < tasks_stack@.len() ==> task_wf(#[trigger] tasks_stack@[j],
                line@.len() as int),
        decreases fuel_left,
    {
        let ghost line_pre = math_seq_view(line@);
        let ghost tasks_pre = tasks_view(tasks_stack@);
        let ghost fuel_pre = fuel_left as int;
        proof {
            assert(tasks_pre.len() == tasks_stack@.len());
        }
        if fuel_left == 0 {
            let e = MathParseErrors::MathParseInternalBug(
                "operator folding did not settle.".to_owned(),
            );
            proof {
                assert(spec_solve_tasks(line_pre, tasks_pre, fuel_pre) == Err::<
                    Seq<MathValueV>,
                    ErrorV,
                >(e@));
            }
            return Err(e);
        }
        fuel_left = fuel_left - 1;
        let task = match tasks_stack.pop() {
            Some(t) => t,
            None => { vstd::pervasive::unreached() },
        };
        proof {
            assert(task@ == tasks_pre.last());
            assert(tasks_view(tasks_stack@) =~= tasks_pre.drop_last());
        }
        match task {
            ParseSteps::OperatorReading { from, to, index } => {
                match make_op(line, from, to, index) {
                    Ok(()) => {
                        proof {
                            assert(spec_solve_tasks(line_pre, tasks_pre, fuel_pre)
                                == spec_solve_tasks(
                                math_seq_view(line@),
                                tasks_view(tasks_stack@),
                                fuel_left as int,
                            ));
                        }
                    },
                    Err(e) => {
                        proof {
                            assert(spec_solve_tasks(line_pre, tasks_pre, fuel_pre) == Err::<
                                Seq<MathValueV>,
                                ErrorV,
                            >(e@));
                        }
                        return Err(e);
                    },
                }
            },
            ParseSteps::BlockSolving { from, to } => {
                match solve_block(line, from, to, tasks_stack) {
                    Ok(()) => {
                        proof {
                            assert(spec_solve_tasks(line_pre, tasks_pre, fuel_pre)
                                == spec_solve_tasks(
                                math_seq_view(line@),
                                tasks_view(tasks_stack@),
                                fuel_left as int,
                            ));
                        }
                    },
                    Err(e) => {
                        proof {
                            assert(spec_solve_tasks(line_pre, tasks_pre, fuel_pre) == Err::<
                                Seq<MathValueV>,
                                ErrorV,
                            >(e@));
                        }
                        return Err(e);
                    },
                }
            },
        }
    }
    Ok(())
}

/// Parse everything that is not parenthesis and unary operators: fold the
/// binary operators of the range, tier by tier.
fn all_but_paren_parse(line: &mut Vec<MathValue>, from: usize, to: usize) -> (r: Result<
    (),
    MathParseErrors,
>)
    requires
        from <= to <= old(line)@.len(),
    ensures
        final (line)@.len() == old(line)@.len(),
        r is Ok ==> spec_fold_block(math_seq_view(old(line)@), from as int, to as int) == Ok::<
            Seq<MathValueV>,
            ErrorV,
        >(math_seq_view(final (line)@)),
        r matches Err(e) ==> spec_fold_block(math_seq_view(old(line)@), from as int, to as int)
            == Err::<Seq<MathValueV>, ErrorV>(e@),
{
    let mut tasks_stack: Vec<ParseSteps> = Vec::new();
    tasks_stack.push(ParseSteps::BlockSolving { from, to });
    proof {
        assert(tasks_view(tasks_stack@) =~= seq![
            TaskV::BlockSolving { from: from as int, to: to as int },
        ]);
    }
    let size = to - from;
    let fuel = match size.checked_mul(4) {
        Some(f) => match f.checked_add(4) {
            Some(f) => f,
            None => {
                return Err(
                    MathParseErrors::MathParseInternalBug(
                        "the line is too long to be parsed.".to_owned(),
                    ),
                );
            },
        },
        None => {
            return Err(
                MathParseErrors::MathParseInternalBug(
                    "the line is too long to be parsed.".to_owned(),
                ),
            );
        },
    };
    solve_tasks(line, &mut tasks_stack, fuel)
}

/// Parse a line of `MathValue` and make it into a tree of operations. The
/// root of the tree will be kept as the first element of the line. The line
/// is rearranged in place: its length never changes, and the rearrangement
/// is exactly the three passes of [`spec_infix_parse`].
pub fn math_parse_tokens(line: &mut Vec<MathValue>) -> (r: Result<(), MathParseErrors>)
    ensures
        final (line)@.len() == old(line)@.len(),
        r is Ok ==> spec_infix_parse(math_seq_view(old(line)@)) == Ok::<
            Seq<MathValueV>,
            ErrorV,
        >(math_seq_view(final (line)@)),
        r matches Err(e) ==> spec_infix_parse(math_seq_view(old(line)@)) == Err::<
            Seq<MathValueV>,
            ErrorV,
        >(e@),
{
    unary_parse(line)?;
    paren_parse(line)?;
    let len = line.len();
    all_but_paren_parse(line, 0, len)?;
    Ok(())
}

/// Tokenize and then parse a math expression: the result is pinned to
/// [`spec_math_parse`] on both sides.
pub fn math_parse(expression: &str) -> (r: Result<Vec<MathValue>, MathParseErrors>)
    ensures
        r matches Ok(v) ==> spec_math_parse(expression@) == Ok::<Seq<MathValueV>, ErrorV>(
            math_seq_view(v@),
        ),
        r matches Err(e) ==> spec_math_parse(expression@) == Err::<Seq<MathValueV>, ErrorV>(e@),
{
    let mut tokens = math_token(expression);
    proof {
        assert(math_seq_view(tokens@) == spec_math_token(expression@));
    }
    math_parse_tokens(&mut tokens)?;
    Ok(tokens)
}

} // verus!
