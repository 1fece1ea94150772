//! Copies of instructions, and a stack filled with given numbers.

use vstd::prelude::*;
use crate::forth_value::ForthValue;
use crate::operations::arithmetic::ArithmeticOperation;
use crate::operations::boolean::BooleanOperation;
use crate::operations::conditional::ConditionalOperation;
use crate::operations::forth_operation::ForthOperation;
use crate::operations::output::OutputOperation;
use crate::operations::stack_type::StackOperation;
use crate::stack::{Stack, DEFAULT_STACK_SIZE};
use crate::words::word::ForthWord;

verus! {

/// A copy of `value` that shares nothing with it.
pub fn get_copy_forth_value(value: &ForthValue) -> (copy: ForthValue)
    ensures
        copy == *value,
        copy@ == value@,
{
    match value {
        ForthValue::Operation(op) => ForthValue::Operation(
            match op {
                ForthOperation::Arithmetic(a) => ForthOperation::Arithmetic(
                    get_arithmetic_operation_value(a),
                ),
                ForthOperation::StackTypeOp(s) => ForthOperation::StackTypeOp(
                    get_stack_operation_value(s),
                ),
                ForthOperation::Output(o) => ForthOperation::Output(get_output_operation_value(o)),
                ForthOperation::Boolean(b) => ForthOperation::Boolean(
                    get_boolean_operation_value(b),
                ),
                ForthOperation::Conditional(c) => ForthOperation::Conditional(
                    get_conditional_operation_value(c),
                ),
            },
        ),
        ForthValue::Word(w) => ForthValue::Word(
            match w {
                ForthWord::Start(s) => ForthWord::Start(s.clone()),
                ForthWord::Definition => ForthWord::Definition,
                ForthWord::End => ForthWord::End,
            },
        ),
        ForthValue::Number(n) => ForthValue::Number(*n),
    }
}

fn get_arithmetic_operation_value(arithmetic_op: &ArithmeticOperation) -> (copy:
    ArithmeticOperation)
    ensures
        copy == *arithmetic_op,
{
    match arithmetic_op {
        ArithmeticOperation::Add => ArithmeticOperation::Add,
        ArithmeticOperation::Substract => ArithmeticOperation::Substract,
        ArithmeticOperation::Multiply => ArithmeticOperation::Multiply,
        ArithmeticOperation::Divide => ArithmeticOperation::Divide,
    }
}

fn get_stack_operation_value(stack_op: &StackOperation) -> (copy: StackOperation)
    ensures
        copy == *stack_op,
{
    match stack_op {
        StackOperation::Duplicate => StackOperation::Duplicate,
        StackOperation::Drop => StackOperation::Drop,
        StackOperation::Swap => StackOperation::Swap,
        StackOperation::Over => StackOperation::Over,
        StackOperation::Rotate => StackOperation::Rotate,
    }
}

fn get_output_operation_value(output_op: &OutputOperation) -> (copy: OutputOperation)
    ensures
        copy == *output_op,
{
    match output_op {
        OutputOperation::Dot => OutputOperation::Dot,
        OutputOperation::Emit => OutputOperation::Emit,
        OutputOperation::Cr => OutputOperation::Cr,
        OutputOperation::DotQuote(text) => OutputOperation::DotQuote(text.clone()),
    }
}

fn get_boolean_operation_value(boolean_op: &BooleanOperation) -> (copy: BooleanOperation)
    ensures
        copy == *boolean_op,
{
    match boolean_op {
        BooleanOperation::Equal => BooleanOperation::Equal,
        BooleanOperation::Less => BooleanOperation::Less,
        BooleanOperation::Greater => BooleanOperation::Greater,
        BooleanOperation::And => BooleanOperation::And,
        BooleanOperation::Or => BooleanOperation::Or,
        BooleanOperation::Not => BooleanOperation::Not,
    }
}

fn get_conditional_operation_value(conditional_op: &ConditionalOperation) -> (copy:
    ConditionalOperation)
    ensures
        copy == *conditional_op,
{
    match conditional_op {
        ConditionalOperation::If => ConditionalOperation::If,
        ConditionalOperation::Then => ConditionalOperation::Then,
        ConditionalOperation::Else => ConditionalOperation::Else,
    }
}

/// A stack of 65536 places that holds `values_to_push`, the last on top.
/// There must be no more than 65536 of them.
pub fn init_stack(values_to_push: &[i16]) -> (stack: Stack)
    requires
        values_to_push@.len() <= 65536,
    ensures
        stack@ == values_to_push@,
        stack.capacity() == 65536,
        stack.wf(),
{
    let mut stack = Stack::new(DEFAULT_STACK_SIZE);
    let mut i: usize = 0;
    while i < values_to_push.len()
        invariant
            i <= values_to_push@.len() <= 65536,
            stack.capacity() == 65536,
            stack@ == values_to_push@.take(i as int),
        decreases values_to_push@.len() - i,
    {
        let _ = stack.push(values_to_push[i]);
        assert(values_to_push@.take(i + 1) =~= values_to_push@.take(i as int).push(
            values_to_push@[i as int],
        ));
        i += 1;
    }
    assert(values_to_push@.take(i as int) =~= values_to_push@);
    stack
}

} // verus!
