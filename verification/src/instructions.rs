//! The instructions of a parsed expression, in Reverse Polish Notation:
//! a flat list, evaluated left to right against a value stack.
use crate::ops::BinaryOp;
use crate::ops::UnaryOp;
use crate::ops::spec_binary_text;
use crate::ops::spec_unary_text;
use crate::text::push_char;
use vstd::prelude::*;

verus! {

/// Elements that make a list of RPN instruction extracted from a math
/// expression.
#[derive(Debug, PartialEq, Clone)]
pub enum RPN {
    Name(String),
    Unary(UnaryOp),
    Binary(BinaryOp),
}

/// The mathematical face of an [`RPN`] instruction, with the name text
/// abstracted to its character sequence.
pub enum RPNV {
    Name(Seq<char>),
    Unary(UnaryOp),
    Binary(BinaryOp),
}

impl View for RPN {
    type V = RPNV;

    open spec fn view(&self) -> RPNV {
        match self {
            RPN::Name(s) => RPNV::Name(s@),
            RPN::Unary(op) => RPNV::Unary(*op),
            RPN::Binary(op) => RPNV::Binary(*op),
        }
    }
}

/// The views of a list of instructions, in order.
pub open spec fn rpn_seq_view(s: Seq<RPN>) -> Seq<RPNV> {
    s.map_values(|r: RPN| r@)
}

/// The text an instruction is shown as: the name itself, or the operator's
/// sign.
pub open spec fn spec_rpn_text(v: RPNV) -> Seq<char> {
    match v {
        RPNV::Name(s) => s,
        RPNV::Unary(op) => spec_unary_text(op),
        RPNV::Binary(op) => spec_binary_text(op),
    }
}

impl RPN {
    /// Shows one instruction: the name itself, or the operator's sign.
    pub fn to_text(&self) -> (r: String)
        ensures
            r@ == spec_rpn_text(self@),
    {
        match self {
            RPN::Name(s) => s.clone(),
            RPN::Unary(op) => op.to_text().to_owned(),
            RPN::Binary(op) => op.to_text().to_owned(),
        }
    }

    /// A copy of one instruction, equal in view.
    pub fn duplicate(&self) -> (r: RPN)
        ensures
            r@ == self@,
    {
        match self {
            RPN::Name(s) => RPN::Name(s.clone()),
            RPN::Unary(op) => RPN::Unary(*op),
            RPN::Binary(op) => RPN::Binary(*op),
        }
    }
}

/// A copy of a list of instructions, equal in view.
pub fn duplicate_rpn_list(v: &Vec<RPN>) -> (r: Vec<RPN>)
    ensures
        rpn_seq_view(r@) == rpn_seq_view(v@),
{
    let mut out: Vec<RPN> = Vec::new();
    let mut i: usize = 0;
    while i < v.len()
        invariant
            i <= v@.len(),
            out@.len() == i,
            forall|j: int| 0 <= j < i ==> out@[j]@ == v@[j]@,
        decreases v@.len() - i,
    {
        out.push(v[i].duplicate());
        i = i + 1;
    }
    proof {
        assert(rpn_seq_view(out@) =~= rpn_seq_view(v@));
    }
    out
}

/// Shows a representation of an expression formatted into RPN: the texts of
/// the instructions, separated by single spaces.
pub open spec fn spec_rpn_slice_text(s: Seq<RPNV>) -> Seq<char>
    decreases s.len(),
{
    if s.len() == 0 {
        Seq::empty()
    } else if s.len() == 1 {
        spec_rpn_text(s[0])
    } else {
        spec_rpn_slice_text(s.drop_last()).push(' ') + spec_rpn_text(s.last())
    }
}

/// Shows a representation of an expression formatted into RPN.
pub fn rpn_slice_to_string(rpn: &[RPN]) -> (r: String)
    ensures
        r@ == spec_rpn_slice_text(rpn_seq_view(rpn@)),
{
    let mut ret = String::new();
    if rpn.len() == 0 {
        proof {
            assert(ret@ =~= spec_rpn_slice_text(rpn_seq_view(rpn@)));
        }
        return ret;
    }
    ret.append(rpn[0].to_text().as_str());
    proof {
        assert(rpn_seq_view(rpn@).subrange(0, 1).drop_last() =~= Seq::<RPNV>::empty());
        assert(ret@ =~= spec_rpn_slice_text(rpn_seq_view(rpn@).subrange(0, 1)));
    }
    let mut i: usize = 1;
    while i < rpn.len()
        invariant
            1 <= i <= rpn@.len(),
            ret@ == spec_rpn_slice_text(rpn_seq_view(rpn@).subrange(0, i as int)),
        decreases rpn@.len() - i,
    {
        let ghost prefix = rpn_seq_view(rpn@).subrange(0, i as int);
        push_char(&mut ret, ' ');
        ret.append(rpn[i].to_text().as_str());
        proof {
            let next = rpn_seq_view(rpn@).subrange(0, i + 1 as int);
            assert(next.drop_last() =~= prefix);
            assert(next.last() == rpn@[i as int]@);
            assert(ret@ =~= spec_rpn_slice_text(next));
        }
        i = i + 1;
    }
    proof {
        assert(rpn_seq_view(rpn@).subrange(0, rpn@.len() as int) =~= rpn_seq_view(rpn@));
    }
    ret
}

} // verus!
