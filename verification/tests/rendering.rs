use rust_the_forth::stack::Stack;
use rust_the_forth::text::{number_to_text, parse_number};
use rust_the_forth::tokens::{read_tokens, tokenize};
use rust_the_forth::utils::init_stack;
use rust_the_forth::words::dictionary::WordsDictionary;

#[test]
fn number_to_text_writes_decimal() {
    assert_eq!(number_to_text(0), "0");
    assert_eq!(number_to_text(7), "7");
    assert_eq!(number_to_text(10), "10");
    assert_eq!(number_to_text(-10), "-10");
    assert_eq!(number_to_text(1005), "1005");
    assert_eq!(number_to_text(32767), "32767");
    assert_eq!(number_to_text(-32768), "-32768");
}

#[test]
fn number_to_text_agrees_with_the_standard_library() {
    for n in i16::MIN..=i16::MAX {
        assert_eq!(number_to_text(n), n.to_string());
    }
}

#[test]
fn a_number_written_and_read_again_is_the_same() {
    for n in i16::MIN..=i16::MAX {
        assert_eq!(parse_number(&number_to_text(n)), Some(n));
    }
}

#[test]
fn render_lists_the_stack_with_the_top_last() {
    assert_eq!(Stack::new(10).render(), "");
    assert_eq!(init_stack(&[5]).render(), "5");
    assert_eq!(init_stack(&[1, -2, 30, 0, -32768]).render(), "1 -2 30 0 -32768");
}

#[test]
fn render_shows_what_a_program_left() {
    let mut dict = WordsDictionary::new();
    let mut stack = Stack::new(100);
    read_tokens(&tokenize(": square dup * ;"), &mut stack, &mut dict);
    read_tokens(&tokenize("3 square 0 1 - 300 square"), &mut stack, &mut dict);
    assert_eq!(stack.render(), "9 -1 24464");
}
