//! Comparisons and logic on the top of the stack.
//!
//! Truth is the number -1 and falsehood the number 0.

use vstd::prelude::*;
use crate::forth_value::{ForthValue, ValueModel};
use crate::operations::forth_operation::{ForthOperation, OperationModel};
use crate::text::same_text;
use crate::errors::ForthError;
use crate::stack::{push_spec, Stack};

verus! {

/// A comparison or a logical operation.
#[derive(Debug)]
pub enum BooleanOperation {
    Equal,
    Less,
    Greater,
    And,
    Or,
    Not,
}

/// The number that stands for `truth`.
pub open spec fn flag(truth: bool) -> i16 {
    if truth {
        -1i16
    } else {
        0i16
    }
}

/// The number that `op`, an operation on two numbers, makes of `top`, the
/// topmost number, and `below`, the one under it.
///
/// `Less` holds when the number below is less than the one on top, and
/// `Greater` when it is greater. `And` and `Or` take only -1 for truth.
pub open spec fn boolean_value(op: BooleanOperation, top: i16, below: i16) -> i16 {
    match op {
        BooleanOperation::Equal => flag(top == below),
        BooleanOperation::Less => flag(below < top),
        BooleanOperation::Greater => flag(below > top),
        BooleanOperation::And => flag(top == -1 && below == -1),
        BooleanOperation::Or => flag(top == -1 || below == -1),
        BooleanOperation::Not => flag(false),
    }
}

/// What `op` makes of `stack`, and the failure it reports, if any.
///
/// `Not` turns zero into -1 and every other number into 0. The other
/// operations take both operands off before anything is checked, so with
/// fewer than two numbers the stack ends empty.
pub open spec fn boolean_spec(op: BooleanOperation, stack: Seq<i16>, capacity: nat) -> (
    Seq<i16>,
    Result<(), ForthError>,
) {
    let n = stack.len() as int;
    if op is Not {
        if n < 1 {
            (stack, Err(ForthError::StackUnderflow))
        } else {
            push_spec(stack.take(n - 1), capacity, flag(stack[n - 1] == 0))
        }
    } else {
        if n < 2 {
            (Seq::empty(), Err(ForthError::StackUnderflow))
        } else {
            push_spec(stack.take(n - 2), capacity, boolean_value(op, stack[n - 1], stack[n - 2]))
        }
    }
}

/// Runs `op` on `stack` and reports the failure, if any.
pub fn execute_boolean_op(op: &BooleanOperation, stack: &mut Stack) -> (result: Result<
    (),
    ForthError,
>)
    ensures
        final(stack).capacity() == old(stack).capacity(),
        (final(stack)@, result) == boolean_spec(*op, old(stack)@, old(stack).capacity()),
        old(stack).wf() ==> final(stack).wf(),
{
    match op {
        BooleanOperation::Not => handle_not_operation(stack),
        _ => handle_other_boolean_ops(op, stack),
    }
}

/// Replaces the top number by its negation as a truth value.
fn handle_not_operation(stack: &mut Stack) -> (result: Result<(), ForthError>)
    ensures
        final(stack).capacity() == old(stack).capacity(),
        (final(stack)@, result) == boolean_spec(
            BooleanOperation::Not,
            old(stack)@,
            old(stack).capacity(),
        ),
        old(stack).wf() ==> final(stack).wf(),
{
    match stack.pop() {
        Ok(a) => {
            assert(stack@ =~= old(stack)@.take(old(stack)@.len() - 1));
            let result: i16 = if a != 0 {
                0
            } else {
                -1
            };
            push_boolean_result(stack, result)
        },
        Err(e) => Err(e),
    }
}

/// Replaces the two topmost numbers by what `op` makes of them.
fn handle_other_boolean_ops(op: &BooleanOperation, stack: &mut Stack) -> (result: Result<
    (),
    ForthError,
>)
    requires
        !(op is Not),
    ensures
        final(stack).capacity() == old(stack).capacity(),
        (final(stack)@, result) == boolean_spec(*op, old(stack)@, old(stack).capacity()),
        old(stack).wf() ==> final(stack).wf(),
{
    let first = stack.pop();
    let second = stack.pop();
    let (a, b) = match (first, second) {
        (Ok(a), Ok(b)) => (a, b),
        (Err(e), _) => {
            return Err(e);
        },
        (_, Err(e)) => {
            assert(stack@ =~= Seq::<i16>::empty());
            return Err(e);
        },
    };
    assert(stack@ =~= old(stack)@.take(old(stack)@.len() - 2));
    let result = match op {
        BooleanOperation::Equal => a == b,
        BooleanOperation::Greater => a < b,
        BooleanOperation::Less => a > b,
        BooleanOperation::And => a == -1 && b == -1,
        BooleanOperation::Or => a == -1 || b == -1,
        BooleanOperation::Not => false,
    };
    push_boolean_result(
        stack,
        if result {
            -1
        } else {
            0
        },
    )
}

/// Puts a truth value on the stack.
fn push_boolean_result(stack: &mut Stack, value: i16) -> (result: Result<(), ForthError>)
    ensures
        final(stack).capacity() == old(stack).capacity(),
        (final(stack)@, result) == push_spec(old(stack)@, old(stack).capacity(), value),
        old(stack).wf() ==> final(stack).wf(),
{
    stack.push(value)
}

/// The comparison or logical operation that `token` names, if it names
/// one.
pub open spec fn boolean_token(token: Seq<char>) -> Option<BooleanOperation> {
    if token == "="@ {
        Some(BooleanOperation::Equal)
    } else if token == "<"@ {
        Some(BooleanOperation::Less)
    } else if token == ">"@ {
        Some(BooleanOperation::Greater)
    } else if token == "AND"@ {
        Some(BooleanOperation::And)
    } else if token == "OR"@ {
        Some(BooleanOperation::Or)
    } else if token == "NOT"@ {
        Some(BooleanOperation::Not)
    } else {
        None
    }
}

/// Reads `token` as a comparison or a logical operation: `=`, `<`, `>`,
/// `AND`, `OR` or `NOT`.
pub fn parse_boolean(token: &str) -> (value: Option<ForthValue>)
    ensures
        value.deep_view() == match boolean_token(token@) {
            Some(op) => Some(ValueModel::Operation(OperationModel::Boolean(op))),
            None => None,
        },
{
    if same_text(token, "=") {
        Some(ForthValue::Operation(ForthOperation::Boolean(BooleanOperation::Equal)))
    } else if same_text(token, "<") {
        Some(ForthValue::Operation(ForthOperation::Boolean(BooleanOperation::Less)))
    } else if same_text(token, ">") {
        Some(ForthValue::Operation(ForthOperation::Boolean(BooleanOperation::Greater)))
    } else if same_text(token, "AND") {
        Some(ForthValue::Operation(ForthOperation::Boolean(BooleanOperation::And)))
    } else if same_text(token, "OR") {
        Some(ForthValue::Operation(ForthOperation::Boolean(BooleanOperation::Or)))
    } else if same_text(token, "NOT") {
        Some(ForthValue::Operation(ForthOperation::Boolean(BooleanOperation::Not)))
    } else {
        None
    }
}

} // verus!
