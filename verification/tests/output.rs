use rust_the_forth::operations::output::{execute_output_op, OutputOperation};
use rust_the_forth::utils::init_stack;

#[test]
fn test_dot_without_leftover() {
    let mut test_stack = init_stack(&[1, 2]);
    let _ = execute_output_op(&OutputOperation::Dot, &mut test_stack);
    let _ = execute_output_op(&OutputOperation::Dot, &mut test_stack);
    assert_eq!(test_stack.data, &[]);
}

#[test]
fn test_dot_with_leftover() {
    let mut test_stack = init_stack(&[1, 2, 3, 4, 5]);
    let _ = execute_output_op(&OutputOperation::Dot, &mut test_stack);
    let _ = execute_output_op(&OutputOperation::Dot, &mut test_stack);
    let _ = execute_output_op(&OutputOperation::Dot, &mut test_stack);
    assert_eq!(test_stack.data, &[1, 2]);
}

#[test]
fn test_cr_1() {
    let mut test_stack = init_stack(&[]);
    let _ = execute_output_op(&OutputOperation::Cr, &mut test_stack);
    assert_eq!(test_stack.data, &[]);
}

#[test]
fn test_cr_2() {
    let mut test_stack = init_stack(&[]);
    let _ = execute_output_op(&OutputOperation::Cr, &mut test_stack);
    let _ = execute_output_op(&OutputOperation::Cr, &mut test_stack);
    assert_eq!(test_stack.data, &[]);
}

#[test]
fn test_dot_and_cr() {
    let mut test_stack = init_stack(&[1, 2]);
    let _ = execute_output_op(&OutputOperation::Dot, &mut test_stack);
    let _ = execute_output_op(&OutputOperation::Cr, &mut test_stack);
    let _ = execute_output_op(&OutputOperation::Cr, &mut test_stack);
    let _ = execute_output_op(&OutputOperation::Dot, &mut test_stack);
    assert_eq!(test_stack.data, &[]);
}

#[test]
fn test_emit_uppercase() {
    let mut test_stack = init_stack(&[65]);
    let _ = execute_output_op(&OutputOperation::Emit, &mut test_stack);
    assert_eq!(test_stack.data, &[]);
}

#[test]
fn test_emit_lowercase() {
    let mut test_stack = init_stack(&[97]);
    let _ = execute_output_op(&OutputOperation::Emit, &mut test_stack);
    assert_eq!(test_stack.data, &[]);
}

#[test]
fn test_emit_multiple() {
    let mut test_stack = init_stack(&[68, 67, 66, 65]);
    let _ = execute_output_op(&OutputOperation::Emit, &mut test_stack);
    let _ = execute_output_op(&OutputOperation::Emit, &mut test_stack);
    let _ = execute_output_op(&OutputOperation::Emit, &mut test_stack);
    let _ = execute_output_op(&OutputOperation::Emit, &mut test_stack);
    assert_eq!(test_stack.data, &[]);
}

#[test]
fn test_dot_quote_hello_world() {
    let mut test_stack = init_stack(&[]);
    let _ = execute_output_op(
        &OutputOperation::DotQuote("hello world".to_string()),
        &mut test_stack,
    );
    assert_eq!(test_stack.data, &[]);
}

#[test]
fn test_dot_quote_multiple_whitespace() {
    let mut test_stack = init_stack(&[]);
    let _ = execute_output_op(
        &OutputOperation::DotQuote("hello      world!".to_string()),
        &mut test_stack,
    );
    assert_eq!(test_stack.data, &[]);
}

#[test]
fn test_dot_quote_multiples() {
    let mut test_stack = init_stack(&[]);
    let _ = execute_output_op(
        &OutputOperation::DotQuote("hello".to_string()),
        &mut test_stack,
    );
    let _ = execute_output_op(
        &OutputOperation::DotQuote("world".to_string()),
        &mut test_stack,
    );
    assert_eq!(test_stack.data, &[]);
}

#[test]
fn test_dot_quote_and_cr() {
    let mut test_stack = init_stack(&[]);
    let _ = execute_output_op(
        &OutputOperation::DotQuote("hello".to_string()),
        &mut test_stack,
    );
    let _ = execute_output_op(&OutputOperation::Cr, &mut test_stack);
    let _ = execute_output_op(
        &OutputOperation::DotQuote("world".to_string()),
        &mut test_stack,
    );
    assert_eq!(test_stack.data, &[]);
}
