//! The postfix (RPN) text parser: whitespace-separated words become name and
//! operator instructions directly, and the list is validated by a trial run
//! of the machine with every name standing for one.
use crate::errors::ErrorV;
use crate::errors::MathParseErrors;
use crate::errors::result_view;
use crate::instructions::RPN;
use crate::instructions::RPNV;
use crate::instructions::rpn_seq_view;
use crate::numbers::Number;
use crate::ops::BinaryOp;
use crate::ops::spec_binary_from_char;
use crate::rpn_stack_manipulation::execute_binary;
use crate::rpn_stack_manipulation::execute_unary;
use crate::solve::spec_eval_rpn;
use crate::solve::spec_eval_stack;
use crate::text::chars_to_string;
use crate::text::str_chars;
use crate::tokenize::MathValue;
use crate::tokenize::MathValueV;
use crate::tokenize::math_seq_view;
use crate::tokenize::math_token;
use crate::tokenize::spec_math_token;
use vstd::prelude::*;

verus! {

/// Whether the character separates two words of an RPN line: space, tab,
/// newline, carriage return, or a no-break space.
pub open spec fn spec_is_separator(c: char) -> bool {
    c == ' ' || c == '\t' || c == '\n' || c == '\r' || c == '\u{00A0}'
}

/// The words of the text from position `i` on, with a word open since
/// position `ws` (no word is open when `ws == i`): maximal runs between
/// separator characters, empty runs dropped.
pub open spec fn spec_words_tail(s: Seq<char>, i: int, ws: int) -> Seq<Seq<char>>
    recommends
        0 <= ws <= i <= s.len(),
    decreases s.len() - i,
{
    if i >= s.len() {
        if ws < i {
            seq![s.subrange(ws, i)]
        } else {
            Seq::empty()
        }
    } else if spec_is_separator(s[i]) {
        let pending = if ws < i {
            seq![s.subrange(ws, i)]
        } else {
            Seq::<Seq<char>>::empty()
        };
        pending + spec_words_tail(s, i + 1, i + 1)
    } else {
        spec_words_tail(s, i + 1, ws)
    }
}

/// The whitespace-separated words of a text.
pub open spec fn spec_split_words(s: Seq<char>) -> Seq<Seq<char>> {
    spec_words_tail(s, 0, 0)
}

/// From a str, return each of its whitespace-separated words.
fn split_words(s: &str) -> (r: Vec<String>)
    ensures
        r@.map_values(|w: String| w@) == spec_split_words(s@),
{
    let v = str_chars(s);
    let mut ret: Vec<String> = Vec::new();
    let mut ws: usize = 0;
    let mut i: usize = 0;
    while i < v.len()
        invariant
            ws <= i <= v@.len(),
            v@ == s@,
            spec_words_tail(s@, 0, 0) == ret@.map_values(|w: String| w@) + spec_words_tail(
                s@,
                i as int,
                ws as int,
            ),
        decreases v@.len() - i,
    {
        let ghost pre = ret@.map_values(|w: String| w@);
        let c = v[i];
        let is_sep = c == ' ' || c == '\t' || c == '\n' || c == '\r' || c == '\u{00A0}';
        if is_sep {
            let ghost pending = if ws < i {
                seq![s@.subrange(ws as int, i as int)]
            } else {
                Seq::<Seq<char>>::empty()
            };
            if ws < i {
                let word = chars_to_string(v.as_slice(), ws, i);
                ret.push(word);
            }
            proof {
                assert(ret@.map_values(|w: String| w@) =~= pre + pending);
                assert(pre + (pending + spec_words_tail(s@, i + 1, i + 1)) =~= (pre + pending)
                    + spec_words_tail(s@, i + 1, i + 1));
            }
            ws = i + 1;
        }
        i = i + 1;
    }
    let ghost pre = ret@.map_values(|w: String| w@);
    if ws < i {
        let word = chars_to_string(v.as_slice(), ws, i);
        ret.push(word);
        proof {
            assert(ret@.map_values(|w: String| w@) =~= pre + seq![
                s@.subrange(ws as int, i as int),
            ]);
        }
    } else {
        proof {
            assert(pre + Seq::<Seq<char>>::empty() =~= pre);
        }
    }
    ret
}

/// What classifying one operator character of an RPN line gives: its binary
/// operator, a hint for a lone `<` or `>`, and a refusal of every character
/// with no binary meaning here.
pub open spec fn spec_rpn_operator(c: char) -> Result<BinaryOp, ErrorV> {
    match spec_binary_from_char(c) {
        Some(op) => Ok(op),
        None => if c == '<' {
            Err(ErrorV::BadOperatorHint('<', "<<"@))
        } else if c == '>' {
            Err(ErrorV::BadOperatorHint('>', ">>"@))
        } else {
            Err(ErrorV::InvalidRPNOperator(c))
        },
    }
}

/// Reads one standalone operator character of an RPN line.
fn parse_rpn_operator(c: char) -> (r: Result<BinaryOp, MathParseErrors>)
    ensures
        result_view(r) == spec_rpn_operator(c),
{
    match BinaryOp::from_char(c) {
        Ok(x) => Ok(x),
        Err(MathParseErrors::MathParseInternalBug(_)) => Err(
            MathParseErrors::InvalidRPNOperator(c),
        ),
        Err(x) => Err(x),
    }
}

/// What classifying the first `n` tokens of an RPN line gives: every name
/// token is split into words, each a name instruction; every operator token
/// is one binary instruction; the trailing sentinel and the zero-width
/// placeholder behind a merged operator give nothing.
pub open spec fn spec_rpn_of_tokens(tokens: Seq<MathValueV>, n: int) -> Result<Seq<RPNV>, ErrorV>
    decreases n,
{
    if n <= 0 {
        Ok(Seq::empty())
    } else {
        match spec_rpn_of_tokens(tokens, n - 1) {
            Err(e) => Err(e),
            Ok(acc) => match tokens[n - 1] {
                MathValueV::Name(x) => Ok(
                    acc + spec_split_words(x).map_values(|w: Seq<char>| RPNV::Name(w)),
                ),
                MathValueV::Operator(c) => match spec_rpn_operator(c) {
                    Ok(op) => Ok(acc.push(RPNV::Binary(op))),
                    Err(e) => Err(e),
                },
                MathValueV::TrailingError => Ok(acc),
                MathValueV::ParenOpen(k) => if k == 1 {
                    Ok(acc)
                } else {
                    Err(
                        ErrorV::MathParseInternalBug(
                            "an unexpected element stood in an RPN line."@,
                        ),
                    )
                },
                _ => Err(
                    ErrorV::MathParseInternalBug(
                        "an unexpected element stood in an RPN line."@,
                    ),
                ),
            },
        }
    }
}

/// A classification that has failed stays failed as more tokens follow.
proof fn lemma_rpn_tokens_err_stable(tokens: Seq<MathValueV>, n: int, m: int)
    requires
        0 <= n <= m,
        spec_rpn_of_tokens(tokens, n) is Err,
    ensures
        spec_rpn_of_tokens(tokens, m) == spec_rpn_of_tokens(tokens, n),
    decreases m - n,
{
    if m > n {
        lemma_rpn_tokens_err_stable(tokens, n, m - 1);
    }
}

/// Turns a tokenized RPN line into its instructions.
fn rpn_parse_tokens(tokens: &Vec<MathValue>) -> (r: Result<Vec<RPN>, MathParseErrors>)
    ensures
        result_view_seq(r) == spec_rpn_of_tokens(
            math_seq_view(tokens@),
            math_seq_view(tokens@).len() as int,
        ),
{
    let ghost tv = math_seq_view(tokens@);
    let mut ret: Vec<RPN> = Vec::new();
    proof {
        assert(rpn_seq_view(ret@) =~= Seq::<RPNV>::empty());
    }
    let mut i: usize = 0;
    while i < tokens.len()
        invariant
            i <= tokens@.len(),
            tv == math_seq_view(tokens@),
            spec_rpn_of_tokens(tv, i as int) == Ok::<Seq<RPNV>, ErrorV>(rpn_seq_view(ret@)),
        decreases tokens@.len() - i,
    {
        let ghost pre = rpn_seq_view(ret@);
        proof {
            assert(tv[i as int] == tokens@[i as int]@);
        }
        match &tokens[i] {
            MathValue::Name(x) => {
                let words = split_words(x.as_str());
                let ghost mapped = spec_split_words(x@).map_values(|w: Seq<char>| RPNV::Name(w));
                proof {
                    assert(rpn_seq_view(ret@) =~= pre + mapped.take(0));
                }
                let mut k: usize = 0;
                while k < words.len()
                    invariant
                        k <= words@.len(),
                        words@.map_values(|w: String| w@) == spec_split_words(x@),
                        mapped == spec_split_words(x@).map_values(|w: Seq<char>| RPNV::Name(w)),
                        rpn_seq_view(ret@) == pre + mapped.take(k as int),
                    decreases words@.len() - k,
                {
                    let ghost ret_pre = ret@;
                    let word = words[k].clone();
                    ret.push(RPN::Name(word));
                    proof {
                        assert(spec_split_words(x@)[k as int] == words@[k as int]@);
                        assert(mapped[k as int] == RPNV::Name(words@[k as int]@));
                        assert(ret@ == ret_pre.push(RPN::Name(words@[k as int])));
                        assert(rpn_seq_view(ret@) =~= rpn_seq_view(ret_pre).push(
                            mapped[k as int],
                        ));
                        assert(mapped.take(k + 1) =~= mapped.take(k as int).push(
                            mapped[k as int],
                        ));
                        assert(rpn_seq_view(ret@) =~= pre + mapped.take(k + 1));
                    }
                    k = k + 1;
                }
                proof {
                    assert(mapped.take(words@.len() as int) =~= mapped);
                }
            },
            MathValue::Operator(x) => {
                match parse_rpn_operator(*x) {
                    Ok(op) => {
                        ret.push(RPN::Binary(op));
                        proof {
                            assert(rpn_seq_view(ret@) =~= pre.push(RPNV::Binary(op)));
                        }
                    },
                    Err(e) => {
                        proof {
                            assert(spec_rpn_of_tokens(tv, i + 1) == Err::<Seq<RPNV>, ErrorV>(e@));
                            lemma_rpn_tokens_err_stable(tv, i + 1, tv.len() as int);
                        }
                        return Err(e);
                    },
                }
            },
            MathValue::TrailingError => {},
            MathValue::ParenOpen(k) => {
                if *k != 1 {
                    let e = MathParseErrors::MathParseInternalBug(
                        "an unexpected element stood in an RPN line.".to_owned(),
                    );
                    proof {
                        assert(spec_rpn_of_tokens(tv, i + 1) == Err::<Seq<RPNV>, ErrorV>(e@));
                        lemma_rpn_tokens_err_stable(tv, i + 1, tv.len() as int);
                    }
                    return Err(e);
                }
            },
            _ => {
                let e = MathParseErrors::MathParseInternalBug(
                    "an unexpected element stood in an RPN line.".to_owned(),
                );
                proof {
                    assert(spec_rpn_of_tokens(tv, i + 1) == Err::<Seq<RPNV>, ErrorV>(e@));
                    lemma_rpn_tokens_err_stable(tv, i + 1, tv.len() as int);
                }
                return Err(e);
            },
        }
        i = i + 1;
    }
    Ok(ret)
}

/// The view of a result holding a list of instructions.
pub open spec fn result_view_seq(r: Result<Vec<RPN>, MathParseErrors>) -> Result<
    Seq<RPNV>,
    ErrorV,
> {
    match r {
        Ok(v) => Ok(rpn_seq_view(v@)),
        Err(e) => Err(e@),
    }
}

/// The resolution of every name as the number one, as the trial run of the
/// validator uses it.
pub open spec fn spec_ones_resolution(rpn: Seq<RPNV>) -> Seq<Result<Number, ErrorV>> {
    Seq::new(rpn.len(), |i: int| Ok(Number::Int(1i64)))
}

/// What the trial run of the validator returns: the machine on the given
/// instructions, every name standing for one.
pub open spec fn spec_check_rpn(rpn: Seq<RPNV>) -> Result<Number, ErrorV> {
    spec_eval_rpn(rpn, spec_ones_resolution(rpn))
}

/// Runs the machine over the instructions with every name standing for one,
/// which catches unbalanced expressions without needing real variables.
fn check_rpn_valid(rpn: &Vec<RPN>) -> (r: Result<(), MathParseErrors>)
    ensures
        r is Ok <==> spec_check_rpn(rpn_seq_view(rpn@)) is Ok,
        r matches Err(e) ==> spec_check_rpn(rpn_seq_view(rpn@)) == Err::<Number, ErrorV>(e@),
{
    let ghost rpnv = rpn_seq_view(rpn@);
    let ghost ones = spec_ones_resolution(rpnv);
    let mut number_stack: Vec<Number> = Vec::new();
    let mut i: usize = 0;
    while i < rpn.len()
        invariant
            i <= rpn@.len(),
            rpnv == rpn_seq_view(rpn@),
            ones == spec_ones_resolution(rpnv),
            spec_eval_stack(rpnv, ones, i as int) == Ok::<Seq<Number>, ErrorV>(number_stack@),
        decreases rpn@.len() - i,
    {
        proof {
            assert(rpnv[i as int] == rpn@[i as int]@);
        }
        match &rpn[i] {
            RPN::Name(_) => {
                number_stack.push(Number::Int(1));
            },
            RPN::Unary(op) => {
                match execute_unary(&mut number_stack, *op) {
                    Ok(()) => {},
                    Err(e) => {
                        proof {
                            crate::solve::lemma_eval_stack_err_stable(
                                rpnv,
                                ones,
                                i + 1,
                                rpnv.len() as int,
                            );
                        }
                        return Err(e);
                    },
                }
            },
            RPN::Binary(op) => {
                match execute_binary(&mut number_stack, *op) {
                    Ok(()) => {},
                    Err(e) => {
                        proof {
                            crate::solve::lemma_eval_stack_err_stable(
                                rpnv,
                                ones,
                                i + 1,
                                rpnv.len() as int,
                            );
                        }
                        return Err(e);
                    },
                }
            },
        }
        i = i + 1;
    }
    if number_stack.len() == 1 {
        Ok(())
    } else {
        Err(MathParseErrors::UnbalancedStack)
    }
}

/// What parsing a postfix line returns: the classification of its tokens,
/// kept only when the trial run of the machine accepts it, else the first
/// error of either stage.
pub open spec fn spec_parse_rpn_text(s: Seq<char>) -> Result<Seq<RPNV>, ErrorV> {
    match spec_rpn_of_tokens(spec_math_token(s), spec_math_token(s).len() as int) {
        Err(e) => Err(e),
        Ok(v) => match spec_check_rpn(v) {
            Ok(_) => Ok(v),
            Err(e) => Err(e),
        },
    }
}

/// Parses a math expression written in postfix (RPN) notation: words become
/// names, standalone operator characters become binary operators, and the
/// expression is refused unless a trial run of the machine accepts it.
pub fn parse_rpn(expression: &str) -> (r: Result<Vec<RPN>, MathParseErrors>)
    ensures
        result_view_seq(r) == spec_parse_rpn_text(expression@),
{
    let tokens = math_token(expression);
    let rpn = rpn_parse_tokens(&tokens)?;
    check_rpn_valid(&rpn)?;
    Ok(rpn)
}

} // verus!
