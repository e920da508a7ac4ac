//! The tokenizer: a line of text cut into names and operator characters, with
//! the two-character operators (`//`, `<<`, `>>`) merged, and one trailing
//! sentinel at the end.
use crate::numbers::Number;
use crate::text::chars_to_string;
use crate::text::is_whitespace_char;
use crate::text::spec_is_whitespace;
use crate::text::str_chars;
use vstd::pervasive::VecAdditionalExecFns;
use vstd::prelude::*;

verus! {

/// One element of a line of math, from tokenizing up to parsing and solving.
#[derive(Debug, PartialEq)]
pub enum MathValue {
    /// A maximal run of characters that are no operators: a number, a
    /// variable name, or spaced-out text around them.
    Name(String),
    /// A character from the operator alphabet.
    Operator(char),
    /// A math operation. The character is the operator used and the two
    /// offsets lead from this element to its two operands.
    Operation(char, isize, isize),
    /// An unary operator. The character is the operator used and the offset
    /// leads from this element to its operand.
    UnaryOperation(char, isize),
    /// The start of a group in parenthesis; the offset leads to the inside of
    /// the group.
    ParenOpen(isize),
    /// The end of a group in parenthesis; the length counts the elements of
    /// the group, so that a scan can jump over it.
    ParenClose(usize),
    /// A name already resolved to a number by the substitution helpers.
    Value(Number),
    /// Placed as the last element of a line, used as a canary to catch
    /// misbehaving unary operators.
    TrailingError,
}

/// The mathematical face of a [`MathValue`], with name texts abstracted to
/// their character sequences.
pub enum MathValueV {
    Name(Seq<char>),
    Operator(char),
    Operation(char, int, int),
    UnaryOperation(char, int),
    ParenOpen(int),
    ParenClose(int),
    Value(Number),
    TrailingError,
}

impl View for MathValue {
    type V = MathValueV;

    open spec fn view(&self) -> MathValueV {
        match self {
            MathValue::Name(s) => MathValueV::Name(s@),
            MathValue::Operator(c) => MathValueV::Operator(*c),
            MathValue::Operation(c, a, b) => MathValueV::Operation(*c, *a as int, *b as int),
            MathValue::UnaryOperation(c, a) => MathValueV::UnaryOperation(*c, *a as int),
            MathValue::ParenOpen(a) => MathValueV::ParenOpen(*a as int),
            MathValue::ParenClose(a) => MathValueV::ParenClose(*a as int),
            MathValue::Value(n) => MathValueV::Value(*n),
            MathValue::TrailingError => MathValueV::TrailingError,
        }
    }
}

/// The views of a line of math, in order.
pub open spec fn math_seq_view(s: Seq<MathValue>) -> Seq<MathValueV> {
    s.map_values(|m: MathValue| m@)
}

/// Whether the character belongs to the fixed operator alphabet.
pub open spec fn spec_is_math_char(c: char) -> bool {
    c == '+' || c == '-' || c == '−' || c == '*' || c == '×' || c == '·' || c == '/' || c == '∕'
        || c == '⁄' || c == '÷' || c == '(' || c == ')' || c == '%' || c == '⟌' || c == '!' || c
        == '~' || c == '^' || c == '&' || c == '|' || c == '≪' || c == '<' || c == '>' || c == '≫'
}

/// Tells a character of the operator alphabet.
pub fn is_math_char(c: char) -> (r: bool)
    ensures
        r == spec_is_math_char(c),
{
    c == '+' || c == '-' || c == '−' || c == '*' || c == '×' || c == '·' || c == '/' || c == '∕'
        || c == '⁄' || c == '÷' || c == '(' || c == ')' || c == '%' || c == '⟌' || c == '!' || c
        == '~' || c == '^' || c == '&' || c == '|' || c == '≪' || c == '<' || c == '>' || c == '≫'
}

/// Whether every character of the run is whitespace.
pub open spec fn spec_all_whitespace(s: Seq<char>) -> bool {
    forall|j: int| 0 <= j < s.len() ==> spec_is_whitespace(#[trigger] s[j])
}

/// The token a finished name run stands for: the name itself, or, for a run
/// of nothing but whitespace, the zero-width placeholder (`ParenOpen(1)`, a
/// plain pointer to the next element), so that stray spacing between
/// operators and parentheses never shadows an operand.
pub open spec fn spec_name_run(run: Seq<char>) -> MathValueV {
    if spec_all_whitespace(run) {
        MathValueV::ParenOpen(1)
    } else {
        MathValueV::Name(run)
    }
}

/// The tokens of the text from position `i` on, with a name run open since
/// position `ns` (no run is open when `ns == i`): each operator character is
/// one token, maximal runs of other characters are one name each (whitespace
/// only runs a placeholder), and one trailing sentinel closes the line.
pub open spec fn spec_token_tail(s: Seq<char>, i: int, ns: int) -> Seq<MathValueV>
    recommends
        0 <= ns <= i <= s.len(),
    decreases s.len() - i,
{
    if i >= s.len() {
        let pending = if ns < i {
            seq![spec_name_run(s.subrange(ns, i))]
        } else {
            Seq::empty()
        };
        pending.push(MathValueV::TrailingError)
    } else if spec_is_math_char(s[i]) {
        let pending = if ns < i {
            seq![spec_name_run(s.subrange(ns, i))]
        } else {
            Seq::empty()
        };
        pending.push(MathValueV::Operator(s[i])) + spec_token_tail(s, i + 1, i + 1)
    } else {
        spec_token_tail(s, i + 1, ns)
    }
}

/// One step of the merge pass at position `i`: a `//`, `<<` or `>>` pair of
/// operator characters becomes the merged operator followed by a zero-width
/// placeholder (`ParenOpen(1)`, a plain pointer to the next element), so that
/// positions downstream stay stable.
pub open spec fn spec_merge_step(line: Seq<MathValueV>, i: int) -> Seq<MathValueV>
    recommends
        1 <= i < line.len(),
{
    match (line[i - 1], line[i]) {
        (MathValueV::Operator(a), MathValueV::Operator(b)) => {
            if a == '/' && b == '/' {
                line.update(i - 1, MathValueV::Operator('⟌')).update(i, MathValueV::ParenOpen(1))
            } else if a == '<' && b == '<' {
                line.update(i - 1, MathValueV::Operator('≪')).update(i, MathValueV::ParenOpen(1))
            } else if a == '>' && b == '>' {
                line.update(i - 1, MathValueV::Operator('≫')).update(i, MathValueV::ParenOpen(1))
            } else {
                line
            }
        },
        _ => line,
    }
}

/// The merge pass run from position `i` to the end of the line.
pub open spec fn spec_merge_from(line: Seq<MathValueV>, i: int) -> Seq<MathValueV>
    decreases line.len() - i,
{
    if i < 1 || i >= line.len() {
        line
    } else {
        spec_merge_from(spec_merge_step(line, i), i + 1)
    }
}

/// What tokenizing a line of text gives: names and operators covering the
/// whole input, two-character operators merged, one trailing sentinel.
pub open spec fn spec_math_token(s: Seq<char>) -> Seq<MathValueV> {
    spec_merge_from(spec_token_tail(s, 0, 0), 1)
}

/// The merge step keeps the length of the line.
proof fn lemma_merge_from_len(line: Seq<MathValueV>, i: int)
    ensures
        spec_merge_from(line, i).len() == line.len(),
    decreases line.len() - i,
{
    if 1 <= i && i < line.len() {
        lemma_merge_from_len(spec_merge_step(line, i), i + 1);
    }
}

/// Tokenise a line of math expression into a vector of `MathValue`.
pub fn math_token(s: &str) -> (r: Vec<MathValue>)
    ensures
        math_seq_view(r@) == spec_math_token(s@),
        r@.len() >= 1,
{
    let v = str_chars(s);
    let mut ret: Vec<MathValue> = Vec::new();
    let mut ns: usize = 0;
    let mut ws_only = true;
    let mut i: usize = 0;
    while i < v.len()
        invariant
            ns <= i <= v@.len(),
            v@ == s@,
            ws_only == spec_all_whitespace(s@.subrange(ns as int, i as int)),
            spec_token_tail(s@, 0, 0) == math_seq_view(ret@) + spec_token_tail(
                s@,
                i as int,
                ns as int,
            ),
        decreases v@.len() - i,
    {
        let ghost pre = math_seq_view(ret@);
        let ghost run = s@.subrange(ns as int, i as int);
        let c = v[i];
        if is_math_char(c) {
            let ghost pending = if ns < i {
                seq![spec_name_run(run)]
            } else {
                Seq::<MathValueV>::empty()
            };
            if ns < i {
                if ws_only {
                    ret.push(MathValue::ParenOpen(1));
                } else {
                    let name = chars_to_string(v.as_slice(), ns, i);
                    ret.push(MathValue::Name(name));
                }
            }
            ret.push(MathValue::Operator(c));
            proof {
                let opv = MathValueV::Operator(s@[i as int]);
                assert(math_seq_view(ret@) =~= pre + pending.push(opv));
                assert(pre + (pending.push(opv) + spec_token_tail(s@, i + 1, i + 1)) =~= (pre
                    + pending.push(opv)) + spec_token_tail(s@, i + 1, i + 1));
            }
            ns = i + 1;
            ws_only = true;
            proof {
                assert(spec_all_whitespace(s@.subrange(ns as int, i + 1)));
            }
        } else {
            if !is_whitespace_char(c) {
                ws_only = false;
            }
            proof {
                let longer = s@.subrange(ns as int, i + 1);
                assert(longer.drop_last() =~= run);
                assert(longer.last() == s@[i as int]);
                assert forall|j: int| 0 <= j < longer.len() implies (j < run.len() ==> longer[j]
                    == run[j]) by {}
                if spec_all_whitespace(run) && spec_is_whitespace(s@[i as int]) {
                    assert(spec_all_whitespace(longer));
                } else {
                    assert(!spec_all_whitespace(longer));
                }
            }
        }
        i = i + 1;
    }
    let ghost pre = math_seq_view(ret@);
    let ghost run = s@.subrange(ns as int, i as int);
    let ghost pending = if ns < i {
        seq![spec_name_run(run)]
    } else {
        Seq::<MathValueV>::empty()
    };
    if ns < i {
        if ws_only {
            ret.push(MathValue::ParenOpen(1));
        } else {
            let name = chars_to_string(v.as_slice(), ns, i);
            ret.push(MathValue::Name(name));
        }
    }
    ret.push(MathValue::TrailingError);
    proof {
        assert(math_seq_view(ret@) =~= pre + pending.push(MathValueV::TrailingError));
        assert(math_seq_view(ret@) =~= spec_token_tail(s@, 0, 0));
    }
    token_complex(&mut ret);
    ret
}

/// Combine complex math symbols such as `//` to make operators.
fn token_complex(line: &mut Vec<MathValue>) -> (r: ())
    ensures
        math_seq_view(final (line)@) == spec_merge_from(math_seq_view(old(line)@), 1),
        final (line)@.len() == old(line)@.len(),
{
    let ghost base = math_seq_view(old(line)@);
    let mut i: usize = 1;
    while i < line.len()
        invariant
            1 <= i,
            line@.len() == old(line)@.len(),
            spec_merge_from(base, 1) == spec_merge_from(math_seq_view(line@), i as int),
        decreases line@.len() - i,
    {
        let ghost cur = math_seq_view(line@);
        let merged: Option<char> = match (&line[i - 1], &line[i]) {
            (MathValue::Operator(a), MathValue::Operator(b)) => {
                if *a == '/' && *b == '/' {
                    Some('⟌')
                } else if *a == '<' && *b == '<' {
                    Some('≪')
                } else if *a == '>' && *b == '>' {
                    Some('≫')
                } else {
                    None
                }
            },
            _ => None,
        };
        if let Some(op) = merged {
            line.set(i - 1, MathValue::Operator(op));
            line.set(i, MathValue::ParenOpen(1));
        }
        proof {
            assert(math_seq_view(line@) =~= spec_merge_step(cur, i as int));
        }
        i = i + 1;
    }
    proof {
        lemma_merge_from_len(base, 1);
        assert(spec_merge_from(math_seq_view(line@), i as int) == math_seq_view(line@));
    }
}

/// Return true if the given string contains any character that is used as an
/// operator inside of math-parse.
pub fn contains_math_char(s: &str) -> (r: bool)
    ensures
        r == exists|i: int| 0 <= i < s@.len() && spec_is_math_char(s@[i]),
{
    let v = str_chars(s);
    let mut i: usize = 0;
    while i < v.len()
        invariant
            i <= v@.len(),
            v@ == s@,
            forall|j: int| 0 <= j < i ==> !spec_is_math_char(s@[j]),
        decreases v@.len() - i,
    {
        if is_math_char(v[i]) {
            return true;
        }
        i = i + 1;
    }
    false
}

} // verus!
