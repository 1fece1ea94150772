//! Arithmetic on the two topmost numbers of the stack.

use vstd::prelude::*;
use crate::forth_value::{ForthValue, ValueModel};
use crate::operations::forth_operation::{ForthOperation, OperationModel};
use crate::text::same_text;
use crate::errors::ForthError;
use crate::stack::{push_spec, Stack};

verus! {

/// An arithmetic operation on two numbers.
#[derive(Debug)]
pub enum ArithmeticOperation {
    Add,
    Substract,
    Multiply,
    Divide,
}

/// The 16-bit number that differs from `n` by a multiple of 65536.
pub open spec fn wrap16(n: int) -> i16 {
    ((n + 32768) % 65536 - 32768) as i16
}

/// The quotient of `dividend` by `divisor`, rounded towards zero.
pub open spec fn quotient(dividend: int, divisor: int) -> int
    recommends
        divisor != 0,
{
    if dividend >= 0 {
        if divisor > 0 {
            dividend / divisor
        } else {
            -(dividend / (-divisor))
        }
    } else {
        if divisor > 0 {
            -((-dividend) / divisor)
        } else {
            (-dividend) / (-divisor)
        }
    }
}

/// The number that `op` makes of `top`, the topmost number, and `below`,
/// the one under it. Results that do not fit in 16 bits wrap around.
pub open spec fn arithmetic_value(op: ArithmeticOperation, top: i16, below: i16) -> i16
    recommends
        op is Divide ==> top != 0,
{
    match op {
        ArithmeticOperation::Add => wrap16(top + below),
        ArithmeticOperation::Substract => wrap16(below - top),
        ArithmeticOperation::Multiply => wrap16(top * below),
        ArithmeticOperation::Divide => wrap16(quotient(below as int, top as int)),
    }
}

/// What `op` makes of `stack`, and the failure it reports, if any.
///
/// The operands are taken off before anything is checked, so a failure
/// leaves the stack without them: with fewer than two numbers it ends
/// empty.
pub open spec fn arithmetic_spec(op: ArithmeticOperation, stack: Seq<i16>, capacity: nat) -> (
    Seq<i16>,
    Result<(), ForthError>,
) {
    if stack.len() < 2 {
        (Seq::empty(), Err(ForthError::StackUnderflow))
    } else {
        let top = stack[stack.len() - 1];
        let below = stack[stack.len() - 2];
        let rest = stack.take(stack.len() - 2);
        if op is Divide && top == 0 {
            (rest, Err(ForthError::DivisionByZero))
        } else {
            push_spec(rest, capacity, arithmetic_value(op, top, below))
        }
    }
}

/// Brings a wide intermediate result back into 16 bits.
fn narrow(wide: i64) -> (value: i16)
    requires
        -0x4000_0000 <= wide <= 0x4000_0000,
    ensures
        value == wrap16(wide as int),
{
    let shifted: i64 = (wide + 0x4000_8000) % 0x1_0000;
    (shifted - 0x8000) as i16
}

/// Divides `dividend` by a `divisor` other than zero, rounding towards zero.
fn divide(dividend: i64, divisor: i64) -> (result: i64)
    requires
        divisor != 0,
        -0x8000 <= dividend <= 0x8000,
        -0x8000 <= divisor <= 0x8000,
    ensures
        result == quotient(dividend as int, divisor as int),
        -0x8000 <= result <= 0x8000,
{
    let result: i64 = if dividend >= 0 {
        if divisor > 0 {
            dividend / divisor
        } else {
            -(dividend / (-divisor))
        }
    } else {
        if divisor > 0 {
            -((-dividend) / divisor)
        } else {
            (-dividend) / (-divisor)
        }
    };
    proof {
        lemma_quotient_bound(dividend as int, divisor as int);
    }
    result
}

/// A quotient is no larger in magnitude than its dividend.
proof fn lemma_quotient_bound(dividend: int, divisor: int)
    requires
        divisor != 0,
    ensures
        dividend >= 0 ==> -dividend <= quotient(dividend, divisor) <= dividend,
        dividend < 0 ==> dividend <= quotient(dividend, divisor) <= -dividend,
{
    let n = if dividend >= 0 { dividend } else { -dividend };
    let d = if divisor > 0 { divisor } else { -divisor };
    assert(0 <= n / d <= n) by (nonlinear_arith)
        requires
            n >= 0,
            d > 0,
    ;
}

/// Runs `op` on `stack`: takes the top two numbers off and puts the result
/// on. Reports `StackUnderflow` when fewer than two numbers are there and
/// `DivisionByZero` when the divisor is zero; the operands stay taken.
pub fn execute_arithmetic_op(op: &ArithmeticOperation, stack: &mut Stack) -> (result: Result<
    (),
    ForthError,
>)
    ensures
        final(stack).capacity() == old(stack).capacity(),
        (final(stack)@, result) == arithmetic_spec(*op, old(stack)@, old(stack).capacity()),
        old(stack).wf() ==> final(stack).wf(),
        old(stack)@.len() < 2 ==> final(stack)@.len() == 0 && result == Err::<(), ForthError>(
            ForthError::StackUnderflow,
        ),
{
    let a = match stack.pop() {
        Ok(value) => value,
        Err(e) => {
            return Err(e);
        },
    };
    let b = match stack.pop() {
        Ok(value) => value,
        Err(e) => {
            return Err(e);
        },
    };
    assert(stack@ =~= old(stack)@.take(old(stack)@.len() - 2));
    let top: i64 = a as i64;
    let below: i64 = b as i64;
    let wide: i64 = match op {
        ArithmeticOperation::Add => top + below,
        ArithmeticOperation::Substract => below - top,
        ArithmeticOperation::Multiply => {
            assert(-0x4000_0000 <= top * below <= 0x4000_0000) by (nonlinear_arith)
                requires
                    -0x8000 <= top <= 0x7fff,
                    -0x8000 <= below <= 0x7fff,
            ;
            top * below
        },
        ArithmeticOperation::Divide => {
            if a != 0 {
                divide(below, top)
            } else {
                return Err(ForthError::DivisionByZero);
            }
        },
    };
    stack.push(narrow(wide))
}

/// The arithmetic operation that `token` names, if it names one.
pub open spec fn arithmetic_token(token: Seq<char>) -> Option<ArithmeticOperation> {
    if token == "+"@ {
        Some(ArithmeticOperation::Add)
    } else if token == "-"@ {
        Some(ArithmeticOperation::Substract)
    } else if token == "*"@ {
        Some(ArithmeticOperation::Multiply)
    } else if token == "/"@ {
        Some(ArithmeticOperation::Divide)
    } else {
        None
    }
}

/// Reads `token` as an arithmetic operation: `+`, `-`, `*` or `/`.
pub fn parse_arithmetic(token: &str) -> (value: Option<ForthValue>)
    ensures
        value.deep_view() == match arithmetic_token(token@) {
            Some(op) => Some(ValueModel::Operation(OperationModel::Arithmetic(op))),
            None => None,
        },
{
    if same_text(token, "+") {
        Some(ForthValue::Operation(ForthOperation::Arithmetic(ArithmeticOperation::Add)))
    } else if same_text(token, "-") {
        Some(ForthValue::Operation(ForthOperation::Arithmetic(ArithmeticOperation::Substract)))
    } else if same_text(token, "*") {
        Some(ForthValue::Operation(ForthOperation::Arithmetic(ArithmeticOperation::Multiply)))
    } else if same_text(token, "/") {
        Some(ForthValue::Operation(ForthOperation::Arithmetic(ArithmeticOperation::Divide)))
    } else {
        None
    }
}

} // verus!
