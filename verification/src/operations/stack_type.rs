//! Operations that rearrange the top of the stack.

use vstd::prelude::*;
use crate::forth_value::{ForthValue, ValueModel};
use crate::operations::forth_operation::{ForthOperation, OperationModel};
use crate::text::same_text;
use crate::errors::ForthError;
use crate::stack::{push_all_spec, push_spec, Stack};

verus! {

/// An operation that rearrange the topmost numbers of the stack.
#[derive(Debug)]
pub enum StackOperation {
    Duplicate,
    Drop,
    Swap,
    Over,
    Rotate,
}

/// What `op` makes of `stack`, and the failure it reports, if any.
///
/// `Swap`, `Over` and `Rotate` take their operands off before putting
/// anything back, so on a stack that holds too few numbers they leave it
/// empty.
pub open spec fn stack_op_spec(op: StackOperation, stack: Seq<i16>, capacity: nat) -> (
    Seq<i16>,
    Result<(), ForthError>,
) {
    let n = stack.len() as int;
    match op {
        StackOperation::Duplicate => if n < 1 {
            (stack, Err(ForthError::StackUnderflow))
        } else {
            push_spec(stack, capacity, stack[n - 1])
        },
        StackOperation::Drop => if n < 1 {
            (stack, Err(ForthError::StackUnderflow))
        } else {
            (stack.take(n - 1), Ok(()))
        },
        StackOperation::Swap => if n < 2 {
            (Seq::empty(), Err(ForthError::StackUnderflow))
        } else {
            push_all_spec(stack.take(n - 2), capacity, seq![stack[n - 1], stack[n - 2]])
        },
        StackOperation::Over => if n < 2 {
            (Seq::empty(), Err(ForthError::StackUnderflow))
        } else {
            push_all_spec(
                stack.take(n - 2),
                capacity,
                seq![stack[n - 2], stack[n - 1], stack[n - 2]],
            )
        },
        StackOperation::Rotate => if n < 3 {
            (Seq::empty(), Err(ForthError::StackUnderflow))
        } else {
            push_all_spec(
                stack.take(n - 3),
                capacity,
                seq![stack[n - 2], stack[n - 1], stack[n - 3]],
            )
        },
    }
}

/// Runs `op` on `stack` and reports the failure, if any.
pub fn execute_stack_op(op: &StackOperation, stack: &mut Stack) -> (result: Result<(), ForthError>)
    ensures
        final(stack).capacity() == old(stack).capacity(),
        (final(stack)@, result) == stack_op_spec(*op, old(stack)@, old(stack).capacity()),
        old(stack).wf() ==> final(stack).wf(),
{
    match op {
        StackOperation::Duplicate => handle_duplicate(stack),
        StackOperation::Drop => handle_drop(stack),
        StackOperation::Swap => handle_swap(stack),
        StackOperation::Over => handle_over(stack),
        StackOperation::Rotate => handle_rotate(stack),
    }
}

/// Puts a copy of the top number on the stack.
fn handle_duplicate(stack: &mut Stack) -> (result: Result<(), ForthError>)
    ensures
        final(stack).capacity() == old(stack).capacity(),
        (final(stack)@, result) == stack_op_spec(
            StackOperation::Duplicate,
            old(stack)@,
            old(stack).capacity(),
        ),
        old(stack).wf() ==> final(stack).wf(),
{
    let top = match stack.peek() {
        Ok(a) => *a,
        Err(e) => {
            return Err(e);
        },
    };
    stack.push(top)
}

/// Takes the top number off the stack.
fn handle_drop(stack: &mut Stack) -> (result: Result<(), ForthError>)
    ensures
        final(stack).capacity() == old(stack).capacity(),
        (final(stack)@, result) == stack_op_spec(
            StackOperation::Drop,
            old(stack)@,
            old(stack).capacity(),
        ),
        old(stack).wf() ==> final(stack).wf(),
{
    match stack.pop() {
        Ok(_) => Ok(()),
        Err(e) => Err(e),
    }
}

/// Exchanges the two topmost numbers.
fn handle_swap(stack: &mut Stack) -> (result: Result<(), ForthError>)
    ensures
        final(stack).capacity() == old(stack).capacity(),
        (final(stack)@, result) == stack_op_spec(
            StackOperation::Swap,
            old(stack)@,
            old(stack).capacity(),
        ),
        old(stack).wf() ==> final(stack).wf(),
{
    let a = match stack.pop() {
        Ok(value) => value,
        Err(e) => {
            return Err(e);
        },
    };
    let b = match stack.pop() {
        Ok(value) => value,
        Err(e) => {
            return Err(e);
        },
    };
    assert(stack@ =~= old(stack)@.take(old(stack)@.len() - 2));
    put_back(stack, &[a, b])
}

/// Puts a copy of the number under the top on the stack.
fn handle_over(stack: &mut Stack) -> (result: Result<(), ForthError>)
    ensures
        final(stack).capacity() == old(stack).capacity(),
        (final(stack)@, result) == stack_op_spec(
            StackOperation::Over,
            old(stack)@,
            old(stack).capacity(),
        ),
        old(stack).wf() ==> final(stack).wf(),
{
    let a = match stack.pop() {
        Ok(value) => value,
        Err(e) => {
            return Err(e);
        },
    };
    let b = match stack.pop() {
        Ok(value) => value,
        Err(e) => {
            return Err(e);
        },
    };
    assert(stack@ =~= old(stack)@.take(old(stack)@.len() - 2));
    put_back(stack, &[b, a, b])
}

/// Brings the third number from the top to the top.
fn handle_rotate(stack: &mut Stack) -> (result: Result<(), ForthError>)
    ensures
        final(stack).capacity() == old(stack).capacity(),
        (final(stack)@, result) == stack_op_spec(
            StackOperation::Rotate,
            old(stack)@,
            old(stack).capacity(),
        ),
        old(stack).wf() ==> final(stack).wf(),
{
    let a = match stack.pop() {
        Ok(value) => value,
        Err(e) => {
            return Err(e);
        },
    };
    let b = match stack.pop() {
        Ok(value) => value,
        Err(e) => {
            return Err(e);
        },
    };
    let c = match stack.pop() {
        Ok(value) => value,
        Err(e) => {
            return Err(e);
        },
    };
    assert(stack@ =~= old(stack)@.take(old(stack)@.len() - 3));
    put_back(stack, &[b, a, c])
}

/// Pushes `values` in order and stops at the first that does not fit.
fn put_back(stack: &mut Stack, values: &[i16]) -> (result: Result<(), ForthError>)
    ensures
        final(stack).capacity() == old(stack).capacity(),
        (final(stack)@, result) == push_all_spec(old(stack)@, old(stack).capacity(), values@),
        old(stack).wf() ==> final(stack).wf(),
{
    let mut i: usize = 0;
    while i < values.len()
        invariant
            i <= values@.len(),
            stack.capacity() == old(stack).capacity(),
            stack@ == old(stack)@ + values@.take(i as int),
            i > 0 ==> stack@.len() <= stack.capacity(),
            old(stack).wf() ==> stack.wf(),
        decreases values@.len() - i,
    {
        match stack.push(values[i]) {
            Ok(()) => {
                assert(stack@ =~= old(stack)@ + values@.take(i + 1));
            },
            Err(e) => {
                assert(i == 0 ==> values@.take(0) =~= Seq::<i16>::empty());
                return Err(e);
            },
        }
        i += 1;
    }
    assert(values@.take(i as int) =~= values@);
    Ok(())
}

/// The stack operation that `token` names, if it names one.
pub open spec fn stack_token(token: Seq<char>) -> Option<StackOperation> {
    if token == "DUP"@ {
        Some(StackOperation::Duplicate)
    } else if token == "DROP"@ {
        Some(StackOperation::Drop)
    } else if token == "SWAP"@ {
        Some(StackOperation::Swap)
    } else if token == "OVER"@ {
        Some(StackOperation::Over)
    } else if token == "ROT"@ {
        Some(StackOperation::Rotate)
    } else {
        None
    }
}

/// Reads `token` as a stack operation: `DUP`, `DROP`, `SWAP`, `OVER` or
/// `ROT`.
pub fn parse_stack_op(token: &str) -> (value: Option<ForthValue>)
    ensures
        value.deep_view() == match stack_token(token@) {
            Some(op) => Some(ValueModel::Operation(OperationModel::StackTypeOp(op))),
            None => None,
        },
{
    if same_text(token, "DUP") {
        Some(ForthValue::Operation(ForthOperation::StackTypeOp(StackOperation::Duplicate)))
    } else if same_text(token, "DROP") {
        Some(ForthValue::Operation(ForthOperation::StackTypeOp(StackOperation::Drop)))
    } else if same_text(token, "SWAP") {
        Some(ForthValue::Operation(ForthOperation::StackTypeOp(StackOperation::Swap)))
    } else if same_text(token, "OVER") {
        Some(ForthValue::Operation(ForthOperation::StackTypeOp(StackOperation::Over)))
    } else if same_text(token, "ROT") {
        Some(ForthValue::Operation(ForthOperation::StackTypeOp(StackOperation::Rotate)))
    } else {
        None
    }
}

} // verus!
