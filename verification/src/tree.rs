//! The display tree: an owned tree built from a list of RPN instructions,
//! and its fully parenthesized text rendering. Both the building and the
//! rendering walk with explicit stacks, so the depth of an expression never
//! grows the call stack.
use crate::errors::ErrorV;
use crate::errors::MathParseErrors;
use crate::instructions::RPN;
use crate::instructions::RPNV;
use crate::instructions::rpn_seq_view;
use crate::ops::BinaryOp;
use crate::ops::UnaryOp;
use crate::ops::spec_binary_text;
use crate::ops::spec_unary_text;
use crate::rpn_stack_manipulation::pop_one;
use crate::rpn_stack_manipulation::pop_two;
use vstd::prelude::*;

verus! {

/// Parsed element showed in a tree in infix notation.
#[derive(Debug, PartialEq)]
pub enum Tree {
    Name(String),
    Unary(UnaryOp, Box<Tree>),
    Binary(BinaryOp, Box<Tree>, Box<Tree>),
}

/// The mathematical face of a [`Tree`], with name texts abstracted to their
/// character sequences.
pub enum TreeV {
    Name(Seq<char>),
    Unary(UnaryOp, Box<TreeV>),
    Binary(BinaryOp, Box<TreeV>, Box<TreeV>),
}

impl View for Tree {
    type V = TreeV;

    open spec fn view(&self) -> TreeV
        decreases self,
    {
        match self {
            Tree::Name(s) => TreeV::Name(s@),
            Tree::Unary(op, next) => TreeV::Unary(*op, Box::new((**next)@)),
            Tree::Binary(op, next_1, next_2) => TreeV::Binary(
                *op,
                Box::new((**next_1)@),
                Box::new((**next_2)@),
            ),
        }
    }
}

/// The views of a stack of trees, in order.
pub open spec fn tree_seq_view(s: Seq<Tree>) -> Seq<TreeV> {
    s.map_values(|t: Tree| t@)
}

/// The view of a result holding a tree.
pub open spec fn tree_result_view(r: Result<Tree, MathParseErrors>) -> Result<TreeV, ErrorV> {
    match r {
        Ok(t) => Ok(t@),
        Err(e) => Err(e@),
    }
}

/// One step of building a tree from an instruction: a name pushes a leaf, a
/// unary operator wraps the top of the stack, a binary operator combines the
/// top two (the one below the top on the left). A stack too short is an
/// unbalanced expression.
pub open spec fn spec_tree_step(state: Result<Seq<TreeV>, ErrorV>, instr: RPNV) -> Result<
    Seq<TreeV>,
    ErrorV,
> {
    match state {
        Err(e) => Err(e),
        Ok(stack) => match instr {
            RPNV::Name(s) => Ok(stack.push(TreeV::Name(s))),
            RPNV::Unary(op) => if stack.len() < 1 {
                Err(ErrorV::UnbalancedStack)
            } else {
                Ok(stack.drop_last().push(TreeV::Unary(op, Box::new(stack.last()))))
            },
            RPNV::Binary(op) => if stack.len() < 2 {
                Err(ErrorV::UnbalancedStack)
            } else {
                Ok(
                    stack.drop_last().drop_last().push(
                        TreeV::Binary(
                            op,
                            Box::new(stack[stack.len() - 2]),
                            Box::new(stack.last()),
                        ),
                    ),
                )
            },
        },
    }
}

/// The stack of trees after the first `n` instructions.
pub open spec fn spec_tree_stack(rpn: Seq<RPNV>, n: int) -> Result<Seq<TreeV>, ErrorV>
    decreases n,
{
    if n <= 0 {
        Ok(Seq::empty())
    } else {
        spec_tree_step(spec_tree_stack(rpn, n - 1), rpn[n - 1])
    }
}

/// What building a tree from a whole list of RPN instructions gives: the one
/// tree the stack ends with; a stack not ending with exactly one tree is an
/// unbalanced expression.
pub open spec fn spec_parse_to_tree(rpn: Seq<RPNV>) -> Result<TreeV, ErrorV> {
    match spec_tree_stack(rpn, rpn.len() as int) {
        Err(e) => Err(e),
        Ok(stack) => if stack.len() == 1 {
            Ok(stack.last())
        } else {
            Err(ErrorV::UnbalancedStack)
        },
    }
}

/// Once the build has failed, it stays failed.
proof fn lemma_tree_stack_err_stable(rpn: Seq<RPNV>, n: int, m: int)
    requires
        0 <= n <= m,
        spec_tree_stack(rpn, n) is Err,
    ensures
        spec_tree_stack(rpn, m) == spec_tree_stack(rpn, n),
    decreases m - n,
{
    if m > n {
        lemma_tree_stack_err_stable(rpn, n, m - 1);
    }
}

/// Reads a list of RPN instructions and builds the tree it encodes, with a
/// single left-to-right fold over a stack of trees.
pub fn parse_to_tree(rpn_actions: &Vec<RPN>) -> (r: Result<Tree, MathParseErrors>)
    ensures
        tree_result_view(r) == spec_parse_to_tree(rpn_seq_view(rpn_actions@)),
{
    let ghost rpnv = rpn_seq_view(rpn_actions@);
    let mut number_stack: Vec<Tree> = Vec::new();
    proof {
        assert(tree_seq_view(number_stack@) =~= Seq::<TreeV>::empty());
    }
    let mut i: usize = 0;
    while i < rpn_actions.len()
        invariant
            i <= rpn_actions@.len(),
            rpnv == rpn_seq_view(rpn_actions@),
            spec_tree_stack(rpnv, i as int) == Ok::<Seq<TreeV>, ErrorV>(
                tree_seq_view(number_stack@),
            ),
        decreases rpn_actions@.len() - i,
    {
        let ghost pre = tree_seq_view(number_stack@);
        proof {
            assert(rpnv[i as int] == rpn_actions@[i as int]@);
        }
        match &rpn_actions[i] {
            RPN::Name(x) => {
                number_stack.push(Tree::Name(x.clone()));
                proof {
                    assert(tree_seq_view(number_stack@) =~= pre.push(
                        TreeV::Name(rpn_actions@[i as int]->Name_0@),
                    ));
                }
            },
            RPN::Unary(op) => {
                let num = match pop_one(&mut number_stack) {
                    Ok(n) => n,
                    Err(e) => {
                        proof {
                            lemma_tree_stack_err_stable(rpnv, i + 1, rpnv.len() as int);
                        }
                        return Err(e);
                    },
                };
                let ghost popped = tree_seq_view(number_stack@);
                number_stack.push(Tree::Unary(*op, Box::new(num)));
                proof {
                    assert(popped =~= pre.drop_last());
                    assert(tree_seq_view(number_stack@) =~= pre.drop_last().push(
                        TreeV::Unary(*op, Box::new(pre.last())),
                    ));
                }
            },
            RPN::Binary(op) => {
                let (num_1, num_2) = match pop_two(&mut number_stack) {
                    Ok(p) => p,
                    Err(e) => {
                        proof {
                            lemma_tree_stack_err_stable(rpnv, i + 1, rpnv.len() as int);
                        }
                        return Err(e);
                    },
                };
                let ghost popped = tree_seq_view(number_stack@);
                number_stack.push(Tree::Binary(*op, Box::new(num_1), Box::new(num_2)));
                proof {
                    assert(popped =~= pre.drop_last().drop_last());
                    assert(tree_seq_view(number_stack@) =~= pre.drop_last().drop_last().push(
                        TreeV::Binary(
                            *op,
                            Box::new(pre[pre.len() - 2]),
                            Box::new(pre.last()),
                        ),
                    ));
                }
            },
        }
        i = i + 1;
    }
    if number_stack.len() != 1 {
        return Err(MathParseErrors::UnbalancedStack);
    }
    match pop_one(&mut number_stack) {
        Ok(t) => Ok(t),
        Err(_) => Err(MathParseErrors::UnbalancedStack),
    }
}

/// The fully parenthesized text of a tree: a binary node as
/// `(left op right)`, a unary node as the operator followed by its operand.
pub open spec fn spec_tree_text(t: TreeV) -> Seq<char>
    decreases t,
{
    match t {
        TreeV::Name(s) => s,
        TreeV::Unary(op, next) => spec_unary_text(op) + spec_tree_text(*next),
        TreeV::Binary(op, next_1, next_2) => seq!['('] + spec_tree_text(*next_1) + seq![' ']
            + spec_binary_text(op) + seq![' '] + spec_tree_text(*next_2) + seq![')'],
    }
}

/// One pending piece of rendering: plain text, or a whole node.
enum TreeFmt<'a> {
    Text(&'static str),
    Node(&'a Tree),
}

/// The text a pending piece renders to.
spec fn fmt_item_text(f: TreeFmt) -> Seq<char> {
    match f {
        TreeFmt::Text(s) => s@,
        TreeFmt::Node(t) => spec_tree_text(t@),
    }
}

/// The text the whole work stack renders to, top of the stack first.
spec fn fmt_stack_text(s: Seq<TreeFmt>) -> Seq<char>
    decreases s.len(),
{
    if s.len() == 0 {
        Seq::empty()
    } else {
        fmt_item_text(s.last()) + fmt_stack_text(s.drop_last())
    }
}

/// How much work a tree is to render: rendering always shrinks this measure.
spec fn tree_size(t: TreeV) -> nat
    decreases t,
{
    match t {
        TreeV::Name(_) => 1,
        TreeV::Unary(_, next) => 1 + tree_size(*next),
        TreeV::Binary(_, next_1, next_2) => 7 + tree_size(*next_1) + tree_size(*next_2),
    }
}

/// How much work one pending piece is.
spec fn fmt_item_size(f: TreeFmt) -> nat {
    match f {
        TreeFmt::Text(_) => 1,
        TreeFmt::Node(t) => tree_size(t@),
    }
}

/// How much work the whole stack is.
spec fn fmt_stack_size(s: Seq<TreeFmt>) -> nat
    decreases s.len(),
{
    if s.len() == 0 {
        0
    } else {
        fmt_item_size(s.last()) + fmt_stack_size(s.drop_last())
    }
}

impl Tree {
    /// Show a tree as an infix expression, fully parenthesized, with an
    /// explicit work stack in place of recursion.
    #[verifier::rlimit(60)]
    pub fn to_string(&self) -> (r: String)
        ensures
            r@ == spec_tree_text(self@),
    {
        let mut out = String::new();
        let mut to_format: Vec<TreeFmt> = Vec::new();
        to_format.push(TreeFmt::Node(self));
        proof {
            assert(to_format@.drop_last() =~= Seq::<TreeFmt>::empty());
            assert(fmt_stack_text(to_format@.drop_last()) =~= Seq::<char>::empty());
            assert(out@ + fmt_stack_text(to_format@) =~= spec_tree_text(self@));
        }
        while to_format.len() != 0
            invariant
                out@ + fmt_stack_text(to_format@) == spec_tree_text(self@),
            decreases fmt_stack_size(to_format@),
        {
            let ghost stack_pre = to_format@;
            let item = match to_format.pop() {
                Some(f) => f,
                None => { vstd::pervasive::unreached() },
            };
            proof {
                assert(stack_pre.last() == item);
                assert(to_format@ =~= stack_pre.drop_last());
            }
            match item {
                TreeFmt::Text(s) => {
                    out.append(s);
                    proof {
                        assert(out@ + fmt_stack_text(to_format@) =~= spec_tree_text(self@));
                    }
                },
                TreeFmt::Node(t) => {
                    match t {
                        Tree::Name(s) => {
                            out.append(s.as_str());
                            proof {
                                assert(out@ + fmt_stack_text(to_format@) =~= spec_tree_text(
                                    self@,
                                ));
                            }
                        },
                        Tree::Unary(op, next) => {
                            out.append(op.to_text());
                            to_format.push(TreeFmt::Node(&**next));
                            proof {
                                let s1 = stack_pre.drop_last().push(TreeFmt::Node(&**next));
                                assert(to_format@ =~= s1);
                                assert(s1.drop_last() =~= stack_pre.drop_last());
                                assert(fmt_stack_text(s1) == spec_tree_text((**next)@)
                                    + fmt_stack_text(stack_pre.drop_last()));
                                assert(out@ + fmt_stack_text(to_format@) =~= spec_tree_text(
                                    self@,
                                ));
                            }
                        },
                        Tree::Binary(op, next_1, next_2) => {
                            let op_text = op.to_text();
                            out.append("(");
                            to_format.push(TreeFmt::Text(")"));
                            to_format.push(TreeFmt::Node(&**next_2));
                            to_format.push(TreeFmt::Text(" "));
                            to_format.push(TreeFmt::Text(op_text));
                            to_format.push(TreeFmt::Text(" "));
                            to_format.push(TreeFmt::Node(&**next_1));
                            proof {
                                let s0 = stack_pre.drop_last();
                                let s1 = s0.push(TreeFmt::Text(")"));
                                let s2 = s1.push(TreeFmt::Node(&**next_2));
                                let s3 = s2.push(TreeFmt::Text(" "));
                                let s4 = s3.push(TreeFmt::Text(op_text));
                                let s5 = s4.push(TreeFmt::Text(" "));
                                let s6 = s5.push(TreeFmt::Node(&**next_1));
                                assert(to_format@ =~= s6);
                                assert(s6.drop_last() =~= s5);
                                assert(s5.drop_last() =~= s4);
                                assert(s4.drop_last() =~= s3);
                                assert(s3.drop_last() =~= s2);
                                assert(s2.drop_last() =~= s1);
                                assert(s1.drop_last() =~= s0);
                                reveal_strlit(" ");
                                reveal_strlit("(");
                                reveal_strlit(")");
                                assert(" "@ =~= seq![' ']);
                                assert("("@ =~= seq!['(']);
                                assert(")"@ =~= seq![')']);
                                assert(fmt_stack_text(s1) == ")"@ + fmt_stack_text(s0));
                                assert(fmt_stack_text(s2) == spec_tree_text((**next_2)@)
                                    + fmt_stack_text(s1));
                                assert(fmt_stack_text(s3) == " "@ + fmt_stack_text(s2));
                                assert(fmt_stack_text(s4) == spec_binary_text(*op)
                                    + fmt_stack_text(s3));
                                assert(fmt_stack_text(s5) == " "@ + fmt_stack_text(s4));
                                assert(fmt_stack_text(s6) == spec_tree_text((**next_1)@)
                                    + fmt_stack_text(s5));
                                assert(out@ + fmt_stack_text(to_format@) =~= spec_tree_text(
                                    self@,
                                ));
                                assert(fmt_stack_size(s6.drop_last()) == fmt_stack_size(s5));
                                assert(fmt_stack_size(s5.drop_last()) == fmt_stack_size(s4));
                                assert(fmt_stack_size(s4.drop_last()) == fmt_stack_size(s3));
                                assert(fmt_stack_size(s3.drop_last()) == fmt_stack_size(s2));
                                assert(fmt_stack_size(s2.drop_last()) == fmt_stack_size(s1));
                                assert(fmt_stack_size(s1.drop_last()) == fmt_stack_size(s0));
                                assert(fmt_stack_size(s6) < fmt_stack_size(stack_pre));
                            }
                        },
                    }
                },
            }
        }
        proof {
            assert(fmt_stack_text(to_format@) =~= Seq::<char>::empty());
            assert(out@ =~= out@ + fmt_stack_text(to_format@));
        }
        out
    }
}

} // verus!
