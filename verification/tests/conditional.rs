use rust_the_forth::stack::Stack;
use rust_the_forth::tokens::{read_tokens, tokenize};
use rust_the_forth::words::dictionary::WordsDictionary;

#[test]
fn test_if_simple() {
    let mut dict = WordsDictionary::new();
    let mut test_stack = Stack::new(100);

    read_tokens(&tokenize(": f if 2 then ;"), &mut test_stack, &mut dict);

    test_stack.push(-1).unwrap();
    read_tokens(&tokenize("f"), &mut test_stack, &mut dict);

    assert_eq!(test_stack.data, &[2]);
}

#[test]
fn test_if_else() {
    let mut dict = WordsDictionary::new();
    let mut test_stack = Stack::new(100);

    read_tokens(
        &tokenize(": f if 2 else 3 then ;"),
        &mut test_stack,
        &mut dict,
    );

    test_stack.push(-1).unwrap();
    read_tokens(&tokenize("f"), &mut test_stack, &mut dict);

    test_stack.push(0).unwrap();
    read_tokens(&tokenize("f"), &mut test_stack, &mut dict);

    assert_eq!(test_stack.data, &[2, 3]);
}

#[test]
fn test_nested_if_inline() {
    let mut dict = WordsDictionary::new();
    let mut test_stack = Stack::new(100);

    read_tokens(
        &tokenize(": f if if 1 else 2 then else drop 3 then ;"),
        &mut test_stack,
        &mut dict,
    );

    test_stack.push(-1).unwrap();
    test_stack.push(-1).unwrap();
    read_tokens(&tokenize("f"), &mut test_stack, &mut dict);

    test_stack.push(0).unwrap();
    test_stack.push(-1).unwrap();
    read_tokens(&tokenize("f"), &mut test_stack, &mut dict);

    test_stack.push(0).unwrap();
    test_stack.push(0).unwrap();
    read_tokens(&tokenize("f"), &mut test_stack, &mut dict);

    assert_eq!(test_stack.data, &[1, 2, 3]);
}

#[test]
fn test_nested_if_else() {
    let mut dict = WordsDictionary::new();
    let mut test_stack = Stack::new(100);

    read_tokens(
        &tokenize(": f dup 0 = if drop 2 else dup 1 = if drop 3 else drop 4 then then ;"),
        &mut test_stack,
        &mut dict,
    );

    test_stack.push(0).unwrap();
    read_tokens(&tokenize("f"), &mut test_stack, &mut dict);

    test_stack.push(1).unwrap();
    read_tokens(&tokenize("f"), &mut test_stack, &mut dict);

    test_stack.push(2).unwrap();
    read_tokens(&tokenize("f"), &mut test_stack, &mut dict);

    assert_eq!(test_stack.data, &[2, 3, 4]);
}

#[test]
fn test_if_non_canonical() {
    let mut dict = WordsDictionary::new();
    let mut test_stack = Stack::new(100);

    read_tokens(&tokenize(": f if 10 then ;"), &mut test_stack, &mut dict);

    test_stack.push(5).unwrap();
    read_tokens(&tokenize("f"), &mut test_stack, &mut dict);

    assert_eq!(test_stack.data, &[10]);
}
