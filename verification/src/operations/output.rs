//! Operations that put something on the console.

use vstd::prelude::*;
use crate::forth_value::{ForthValue, ValueModel};
use crate::operations::forth_operation::{ForthOperation, OperationModel};
use crate::text::same_text;
use crate::effects::{Effect, EffectModel};
use crate::errors::ForthError;
use crate::stack::Stack;

verus! {

/// An operation that prints.
#[derive(Debug)]
pub enum OutputOperation {
    /// Takes the top number off and prints it.
    Dot,
    /// Takes the top number off and prints the character of its low byte.
    Emit,
    /// Prints a line break.
    Cr,
    /// Prints the text it holds.
    DotQuote(String),
}

/// The mathematical value of an [`OutputOperation`].
pub enum OutputModel {
    Dot,
    Emit,
    Cr,
    DotQuote(Seq<char>),
}

impl View for OutputOperation {
    type V = OutputModel;

    open spec fn view(&self) -> OutputModel {
        match self {
            OutputOperation::Dot => OutputModel::Dot,
            OutputOperation::Emit => OutputModel::Emit,
            OutputOperation::Cr => OutputModel::Cr,
            OutputOperation::DotQuote(text) => OutputModel::DotQuote(text@),
        }
    }
}

impl DeepView for OutputOperation {
    type V = OutputModel;

    open spec fn deep_view(&self) -> OutputModel {
        self@
    }
}

/// The low eight bits of `n`, as a number from 0 to 255.
pub open spec fn low_byte(n: i16) -> u8 {
    (n as int % 256) as u8
}

/// What `op` makes of `stack`, and the line it puts out: what it prints,
/// or `StackUnderflow` when it needs a number and finds none.
pub open spec fn output_spec(op: OutputModel, stack: Seq<i16>) -> (Seq<i16>, EffectModel) {
    match op {
        OutputModel::Dot => if stack.len() == 0 {
            (stack, EffectModel::Failure(ForthError::StackUnderflow))
        } else {
            (stack.drop_last(), EffectModel::Number(stack.last()))
        },
        OutputModel::Emit => if stack.len() == 0 {
            (stack, EffectModel::Failure(ForthError::StackUnderflow))
        } else {
            (stack.drop_last(), EffectModel::Character(low_byte(stack.last())))
        },
        OutputModel::Cr => (stack, EffectModel::NewLine),
        OutputModel::DotQuote(text) => (stack, EffectModel::Text(text)),
    }
}

/// Runs `op` on `stack` and returns the line it puts out.
pub fn execute_output_op(op: &OutputOperation, stack: &mut Stack) -> (effect: Effect)
    ensures
        final(stack).capacity() == old(stack).capacity(),
        (final(stack)@, effect@) == output_spec(op@, old(stack)@),
        old(stack).wf() ==> final(stack).wf(),
{
    match op {
        OutputOperation::Dot => match stack.pop() {
            Ok(a) => Effect::Number(a),
            Err(e) => Effect::Failure(e),
        },
        OutputOperation::Cr => Effect::NewLine,
        OutputOperation::Emit => match stack.pop() {
            Ok(a) => {
                let code: i32 = (a as i32 + 0x8000) % 256;
                Effect::Character(code as u8)
            },
            Err(e) => Effect::Failure(e),
        },
        OutputOperation::DotQuote(text) => Effect::Text(text.clone()),
    }
}

/// The printing operation that `token` names, if it names one. A text to
/// print is not named by a token of this kind.
pub open spec fn output_token(token: Seq<char>) -> Option<OutputModel> {
    if token == "."@ {
        Some(OutputModel::Dot)
    } else if token == "EMIT"@ {
        Some(OutputModel::Emit)
    } else if token == "CR"@ {
        Some(OutputModel::Cr)
    } else {
        None
    }
}

/// Reads `token` as a printing operation: `.`, `EMIT` or `CR`.
pub fn parse_output(token: &str) -> (value: Option<ForthValue>)
    ensures
        value.deep_view() == match output_token(token@) {
            Some(op) => Some(ValueModel::Operation(OperationModel::Output(op))),
            None => None,
        },
{
    if same_text(token, ".") {
        Some(ForthValue::Operation(ForthOperation::Output(OutputOperation::Dot)))
    } else if same_text(token, "EMIT") {
        Some(ForthValue::Operation(ForthOperation::Output(OutputOperation::Emit)))
    } else if same_text(token, "CR") {
        Some(ForthValue::Operation(ForthOperation::Output(OutputOperation::Cr)))
    } else {
        None
    }
}

} // verus!
