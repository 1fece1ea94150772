//! The words `IF`, `ELSE` and `THEN`.
//!
//! One stage is kept for each `IF` that is open; the last one is that of
//! the innermost.

use vstd::prelude::*;
use crate::forth_value::{ForthValue, ValueModel};
use crate::operations::forth_operation::{ForthOperation, OperationModel};
use crate::text::same_text;
use crate::errors::ForthError;
use crate::executions::ExecutionStage;
use crate::stack::Stack;

verus! {

/// A word that steers conditional execution.
#[derive(Debug)]
pub enum ConditionalOperation {
    If,
    Then,
    Else,
}

/// The stages after an `ELSE`.
///
/// While running, the branch that follows is to be skipped. While
/// skipping, the branch that follows is to be run if the `ELSE` belongs to
/// the `IF` at which skipping began. With no `IF` open nothing changes.
pub open spec fn else_spec(stages: Seq<ExecutionStage>) -> Seq<ExecutionStage> {
    if stages.len() == 0 {
        stages
    } else {
        match stages.last() {
            ExecutionStage::Executing => stages.update(
                stages.len() - 1,
                ExecutionStage::Skipping(1),
            ),
            ExecutionStage::Skipping(depth) => if depth == 1 {
                stages.update(stages.len() - 1, ExecutionStage::Executing)
            } else {
                stages
            },
        }
    }
}

/// The stages after a `THEN`.
///
/// The innermost `IF` is closed, unless skipping began further out: then
/// one `IF` less is open inside the skipped part. With no `IF` open nothing
/// changes.
pub open spec fn then_spec(stages: Seq<ExecutionStage>) -> Seq<ExecutionStage> {
    if stages.len() == 0 {
        stages
    } else {
        match stages.last() {
            ExecutionStage::Skipping(depth) => if depth > 1 {
                stages.update(stages.len() - 1, ExecutionStage::Skipping((depth - 1) as usize))
            } else {
                stages.drop_last()
            },
            ExecutionStage::Executing => stages.drop_last(),
        }
    }
}

/// What `op` makes of `stack` and of `stages`, and the failure it
/// reports, if any.
///
/// `IF` takes the top number off and opens a stage: skipping if the
/// number is zero, running otherwise. On an empty stack it reports
/// `StackUnderflow` and opens nothing.
pub open spec fn conditional_spec(
    op: ConditionalOperation,
    stack: Seq<i16>,
    stages: Seq<ExecutionStage>,
) -> (Seq<i16>, Seq<ExecutionStage>, Result<(), ForthError>) {
    match op {
        ConditionalOperation::If => if stack.len() == 0 {
            (stack, stages, Err(ForthError::StackUnderflow))
        } else {
            (
                stack.drop_last(),
                stages.push(
                    if stack.last() == 0 {
                        ExecutionStage::Skipping(1)
                    } else {
                        ExecutionStage::Executing
                    },
                ),
                Ok(()),
            )
        },
        ConditionalOperation::Else => (stack, else_spec(stages), Ok(())),
        ConditionalOperation::Then => (stack, then_spec(stages), Ok(())),
    }
}

/// Runs `op` on `stack` and on the stages of the `IF`s that are open,
/// and reports the failure, if any.
pub fn execute_conditional_op(
    op: &ConditionalOperation,
    stack: &mut Stack,
    execution_mode: &mut Vec<ExecutionStage>,
) -> (result: Result<(), ForthError>)
    ensures
        final(stack).capacity() == old(stack).capacity(),
        (final(stack)@, final(execution_mode)@, result) == conditional_spec(
            *op,
            old(stack)@,
            old(execution_mode)@,
        ),
        old(stack).wf() ==> final(stack).wf(),
{
    match op {
        ConditionalOperation::If => handle_if(stack, execution_mode),
        ConditionalOperation::Else => {
            handle_else(execution_mode);
            Ok(())
        },
        ConditionalOperation::Then => {
            handle_then(execution_mode);
            Ok(())
        },
    }
}

/// Opens a stage for an `IF`, chosen by the number on top of the stack.
fn handle_if(stack: &mut Stack, execution_mode: &mut Vec<ExecutionStage>) -> (result: Result<
    (),
    ForthError,
>)
    ensures
        final(stack).capacity() == old(stack).capacity(),
        (final(stack)@, final(execution_mode)@, result) == conditional_spec(
            ConditionalOperation::If,
            old(stack)@,
            old(execution_mode)@,
        ),
        old(stack).wf() ==> final(stack).wf(),
{
    match stack.pop() {
        Ok(condition) => {
            let stage = if condition == 0 {
                ExecutionStage::Skipping(1)
            } else {
                ExecutionStage::Executing
            };
            execution_mode.push(stage);
            Ok(())
        },
        Err(e) => Err(e),
    }
}

/// Turns the innermost stage over at an `ELSE`.
fn handle_else(execution_mode: &mut Vec<ExecutionStage>)
    ensures
        final(execution_mode)@ == else_spec(old(execution_mode)@),
{
    let n = execution_mode.len();
    if n > 0 {
        match execution_mode[n - 1] {
            ExecutionStage::Executing => {
                execution_mode[n - 1] = ExecutionStage::Skipping(1);
            },
            ExecutionStage::Skipping(depth) => {
                if depth == 1 {
                    execution_mode[n - 1] = ExecutionStage::Executing;
                }
            },
        }
    }
}

/// Closes the innermost `IF` at a `THEN`, or one inside a skipped part.
fn handle_then(execution_mode: &mut Vec<ExecutionStage>)
    ensures
        final(execution_mode)@ == then_spec(old(execution_mode)@),
{
    let n = execution_mode.len();
    if n > 0 {
        match execution_mode[n - 1] {
            ExecutionStage::Skipping(depth) => {
                if depth > 1 {
                    execution_mode[n - 1] = ExecutionStage::Skipping(depth - 1);
                } else {
                    execution_mode.pop();
                }
            },
            ExecutionStage::Executing => {
                execution_mode.pop();
            },
        }
    }
}

/// The conditional word that `token` names, if it names one.
pub open spec fn conditional_token(token: Seq<char>) -> Option<ConditionalOperation> {
    if token == "IF"@ {
        Some(ConditionalOperation::If)
    } else if token == "THEN"@ {
        Some(ConditionalOperation::Then)
    } else if token == "ELSE"@ {
        Some(ConditionalOperation::Else)
    } else {
        None
    }
}

/// Reads `token` as a conditional word: `IF`, `THEN` or `ELSE`.
pub fn parse_conditional(token: &str) -> (value: Option<ForthValue>)
    ensures
        value.deep_view() == match conditional_token(token@) {
            Some(op) => Some(ValueModel::Operation(OperationModel::Conditional(op))),
            None => None,
        },
{
    if same_text(token, "IF") {
        Some(ForthValue::Operation(ForthOperation::Conditional(ConditionalOperation::If)))
    } else if same_text(token, "THEN") {
        Some(ForthValue::Operation(ForthOperation::Conditional(ConditionalOperation::Then)))
    } else if same_text(token, "ELSE") {
        Some(ForthValue::Operation(ForthOperation::Conditional(ConditionalOperation::Else)))
    } else {
        None
    }
}

} // verus!
