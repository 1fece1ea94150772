use rust_the_forth::operations::stack_type::{execute_stack_op, StackOperation};
use rust_the_forth::utils::init_stack;

#[test]
fn test_dup_1() {
    let mut test_stack = init_stack(&[1]);
    let _ = execute_stack_op(&StackOperation::Duplicate, &mut test_stack);
    assert_eq!(test_stack.data, &[1, 1]);
}

#[test]
fn test_dup_2() {
    let mut test_stack = init_stack(&[1, 2]);
    let _ = execute_stack_op(&StackOperation::Duplicate, &mut test_stack);
    assert_eq!(test_stack.data, &[1, 2, 2]);
}

#[test]
fn test_drop_1() {
    let mut test_stack = init_stack(&[1]);
    let _ = execute_stack_op(&StackOperation::Drop, &mut test_stack);
    assert_eq!(test_stack.data, &[]);
}

#[test]
fn test_drop_2() {
    let mut test_stack = init_stack(&[1, 2]);
    let _ = execute_stack_op(&StackOperation::Drop, &mut test_stack);
    assert_eq!(test_stack.data, &[1]);
}

#[test]
fn test_swap_1() {
    let mut test_stack = init_stack(&[1, 2]);
    let _ = execute_stack_op(&StackOperation::Swap, &mut test_stack);
    assert_eq!(test_stack.data, &[2, 1]);
}

#[test]
fn test_swap_2() {
    let mut test_stack = init_stack(&[1, 2, 3]);
    let _ = execute_stack_op(&StackOperation::Swap, &mut test_stack);
    assert_eq!(test_stack.data, &[1, 3, 2]);
}

#[test]
fn test_over_1() {
    let mut test_stack = init_stack(&[1, 2]);
    let _ = execute_stack_op(&StackOperation::Over, &mut test_stack);
    assert_eq!(test_stack.data, &[1, 2, 1]);
}

#[test]
fn test_over_2() {
    let mut test_stack = init_stack(&[1, 2, 3]);
    let _ = execute_stack_op(&StackOperation::Over, &mut test_stack);
    assert_eq!(test_stack.data, &[1, 2, 3, 2]);
}

#[test]
fn test_rot_1() {
    let mut test_stack = init_stack(&[1, 2, 3]);
    let _ = execute_stack_op(&StackOperation::Rotate, &mut test_stack);
    assert_eq!(test_stack.data, &[2, 3, 1]);
}

#[test]
fn test_rot_2() {
    let mut test_stack = init_stack(&[1, 2, 3]);
    let _ = execute_stack_op(&StackOperation::Rotate, &mut test_stack);
    let _ = execute_stack_op(&StackOperation::Rotate, &mut test_stack);
    let _ = execute_stack_op(&StackOperation::Rotate, &mut test_stack);
    assert_eq!(test_stack.data, &[1, 2, 3]);
}

#[test]
fn test_drop_empty_stack() {
    let mut test_stack = init_stack(&[]);
    let _ = execute_stack_op(&StackOperation::Drop, &mut test_stack);
    assert_eq!(test_stack.data, &[]);
}

#[test]
fn test_dup_empty_stack() {
    let mut test_stack = init_stack(&[]);
    let _ = execute_stack_op(&StackOperation::Duplicate, &mut test_stack);
    assert_eq!(test_stack.data, &[]);
}
