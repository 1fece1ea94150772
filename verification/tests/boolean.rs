use rust_the_forth::operations::boolean::{execute_boolean_op, BooleanOperation};
use rust_the_forth::utils::init_stack;

#[test]
fn test_equals_true() {
    let mut test_stack = init_stack(&[1, 1]);
    let _ = execute_boolean_op(&BooleanOperation::Equal, &mut test_stack);
    assert_eq!(test_stack.data, &[-1]);
}

#[test]
fn test_equals_false() {
    let mut test_stack = init_stack(&[1, 2]);
    let _ = execute_boolean_op(&BooleanOperation::Equal, &mut test_stack);
    assert_eq!(test_stack.data, &[0]);
}

#[test]
fn test_less_true() {
    let mut test_stack = init_stack(&[1, 2]);
    let _ = execute_boolean_op(&BooleanOperation::Less, &mut test_stack);
    assert_eq!(test_stack.data, &[-1]);
}

#[test]
fn test_less_false() {
    let mut test_stack = init_stack(&[2, 1]);
    let _ = execute_boolean_op(&BooleanOperation::Less, &mut test_stack);
    assert_eq!(test_stack.data, &[0]);
}

#[test]
fn test_less_equals() {
    let mut test_stack = init_stack(&[2, 2]);
    let _ = execute_boolean_op(&BooleanOperation::Less, &mut test_stack);
    assert_eq!(test_stack.data, &[0]);
}

#[test]
fn test_greater_true() {
    let mut test_stack = init_stack(&[2, 1]);
    let _ = execute_boolean_op(&BooleanOperation::Greater, &mut test_stack);
    assert_eq!(test_stack.data, &[-1]);
}

#[test]
fn test_greater_false() {
    let mut test_stack = init_stack(&[1, 2]);
    let _ = execute_boolean_op(&BooleanOperation::Greater, &mut test_stack);
    assert_eq!(test_stack.data, &[0]);
}

#[test]
fn test_greater_equals() {
    let mut test_stack = init_stack(&[2, 2]);
    let _ = execute_boolean_op(&BooleanOperation::Greater, &mut test_stack);
    assert_eq!(test_stack.data, &[0]);
}

#[test]
fn test_and_none() {
    let mut test_stack = init_stack(&[0, 0]);
    let _ = execute_boolean_op(&BooleanOperation::And, &mut test_stack);
    assert_eq!(test_stack.data, &[0]);
}

#[test]
fn test_and_one() {
    let mut test_stack = init_stack(&[-1, 0]);
    let _ = execute_boolean_op(&BooleanOperation::And, &mut test_stack);
    assert_eq!(test_stack.data, &[0]);
}

#[test]
fn test_and_both() {
    let mut test_stack = init_stack(&[-1, -1]);
    let _ = execute_boolean_op(&BooleanOperation::And, &mut test_stack);
    assert_eq!(test_stack.data, &[-1]);
}

#[test]
fn test_or_none() {
    let mut test_stack = init_stack(&[0, 0]);
    let _ = execute_boolean_op(&BooleanOperation::Or, &mut test_stack);
    assert_eq!(test_stack.data, &[0]);
}

#[test]
fn test_or_one() {
    let mut test_stack = init_stack(&[-1, 0]);
    let _ = execute_boolean_op(&BooleanOperation::Or, &mut test_stack);
    assert_eq!(test_stack.data, &[-1]);
}

#[test]
fn test_or_both() {
    let mut test_stack = init_stack(&[-1, -1]);
    let _ = execute_boolean_op(&BooleanOperation::Or, &mut test_stack);
    assert_eq!(test_stack.data, &[-1]);
}

#[test]
fn test_not_true() {
    let mut test_stack = init_stack(&[-1]);
    let _ = execute_boolean_op(&BooleanOperation::Not, &mut test_stack);
    assert_eq!(test_stack.data, &[0]);
}

#[test]
fn test_not_false() {
    let mut test_stack = init_stack(&[0]);
    let _ = execute_boolean_op(&BooleanOperation::Not, &mut test_stack);
    assert_eq!(test_stack.data, &[-1]);
}

#[test]
fn test_not_not() {
    let mut test_stack = init_stack(&[10]);
    let _ = execute_boolean_op(&BooleanOperation::Not, &mut test_stack);
    let _ = execute_boolean_op(&BooleanOperation::Not, &mut test_stack);
    assert_eq!(test_stack.data, &[-1]);
}
