//! The value stack under the RPN machine: popping operands and applying
//! operators, shared by the solver and the tree builder.
use crate::errors::MathParseErrors;
use crate::numbers::Number;
use crate::ops::BinaryOp;
use crate::ops::UnaryOp;
use crate::solve::compute_binary;
use crate::solve::compute_unary;
use crate::solve::spec_compute_binary;
use crate::solve::spec_compute_unary;
use vstd::prelude::*;

verus! {

/// Pop one number from the stack.
pub fn pop_one<T>(number_stack: &mut Vec<T>) -> (r: Result<T, MathParseErrors>)
    ensures
        old(number_stack)@.len() == 0 ==> (r == Err::<T, MathParseErrors>(
            MathParseErrors::UnbalancedStack,
        ) && final (number_stack)@ == old(number_stack)@),
        old(number_stack)@.len() > 0 ==> (r == Ok::<T, MathParseErrors>(
            old(number_stack)@.last(),
        ) && final (number_stack)@ == old(number_stack)@.drop_last()),
{
    if let Some(num) = number_stack.pop() {
        Ok(num)
    } else {
        Err(MathParseErrors::UnbalancedStack)
    }
}

/// Pop two numbers from the stack; the pair comes back in the order the
/// values were pushed (the top of the stack is the second member).
pub fn pop_two<T>(number_stack: &mut Vec<T>) -> (r: Result<(T, T), MathParseErrors>)
    ensures
        old(number_stack)@.len() == 0 ==> (r == Err::<(T, T), MathParseErrors>(
            MathParseErrors::UnbalancedStack,
        ) && final (number_stack)@ == old(number_stack)@),
        old(number_stack)@.len() == 1 ==> (r == Err::<(T, T), MathParseErrors>(
            MathParseErrors::UnbalancedStack,
        ) && final (number_stack)@ == old(number_stack)@.drop_last()),
        old(number_stack)@.len() >= 2 ==> (r == Ok::<(T, T), MathParseErrors>(
            (
                old(number_stack)@[old(number_stack)@.len() - 2],
                old(number_stack)@[old(number_stack)@.len() - 1],
            ),
        ) && final (number_stack)@ == old(number_stack)@.drop_last().drop_last()),
{
    let num_1 = if let Some(n) = number_stack.pop() {
        n
    } else {
        return Err(MathParseErrors::UnbalancedStack);
    };
    let num_2 = if let Some(n) = number_stack.pop() {
        n
    } else {
        return Err(MathParseErrors::UnbalancedStack);
    };
    Ok((num_2, num_1))
}

/// Execute the given unary operation on the top element of the stack.
pub fn execute_unary(number_stack: &mut Vec<Number>, op: UnaryOp) -> (r: Result<
    (),
    MathParseErrors,
>)
    ensures
        old(number_stack)@.len() == 0 ==> (r == Err::<(), MathParseErrors>(
            MathParseErrors::UnbalancedStack,
        ) && final (number_stack)@ == old(number_stack)@),
        old(number_stack)@.len() > 0 ==> match spec_compute_unary(
            old(number_stack)@.last(),
            op,
        ) {
            Ok(v) => r == Ok::<(), MathParseErrors>(()) && final (number_stack)@ == old(
                number_stack,
            )@.drop_last().push(v),
            Err(e) => r == Err::<(), MathParseErrors>(e) && final (number_stack)@ == old(
                number_stack,
            )@.drop_last(),
        },
{
    let num = pop_one(number_stack)?;
    let computed = compute_unary(num, op)?;
    number_stack.push(computed);
    Ok(())
}

/// Execute the given binary operation on the top two elements of the stack;
/// the element below the top is the operation's left hand side.
pub fn execute_binary(number_stack: &mut Vec<Number>, op: BinaryOp) -> (r: Result<
    (),
    MathParseErrors,
>)
    ensures
        old(number_stack)@.len() < 2 ==> r == Err::<(), MathParseErrors>(
            MathParseErrors::UnbalancedStack,
        ),
        old(number_stack)@.len() >= 2 ==> match spec_compute_binary(
            old(number_stack)@[old(number_stack)@.len() - 2],
            old(number_stack)@[old(number_stack)@.len() - 1],
            op,
        ) {
            Ok(v) => r == Ok::<(), MathParseErrors>(()) && final (number_stack)@ == old(
                number_stack,
            )@.drop_last().drop_last().push(v),
            Err(e) => r == Err::<(), MathParseErrors>(e) && final (number_stack)@ == old(
                number_stack,
            )@.drop_last().drop_last(),
        },
{
    let (num_1, num_2) = pop_two(number_stack)?;
    let computed = compute_binary(num_1, num_2, op)?;
    number_stack.push(computed);
    Ok(())
}

} // verus!
