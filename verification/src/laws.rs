//! Laws that hold of the library as a whole, each with its proof.

use vstd::prelude::*;
use crate::effects::EffectModel;
use crate::errors::ForthError;
use crate::executions::{
    call_spec,
    current_stage,
    depth_bounded,
    depths_positive,
    fresh_stages,
    lemma_pending_shrinks,
    pending,
    plain_spec,
    run_spec,
    step_spec,
    Machine,
    Words,
};
use crate::forth_value::ValueModel;
use crate::operations::arithmetic::{arithmetic_spec, ArithmeticOperation};
use crate::operations::boolean::boolean_spec;
use crate::operations::conditional::conditional_spec;
use crate::operations::forth_operation::OperationModel;
use crate::operations::output::output_spec;
use crate::operations::stack_type::stack_op_spec;
use crate::text::{
    all_digits,
    digits_value,
    has_sign,
    is_digit,
    natural_text,
    number_spec,
    number_text,
    unsigned_part,
    upper_case,
};
use crate::tokens::{
    after_text,
    is_blank,
    is_quote,
    is_quote_token,
    is_word_token,
    join_spec,
    lemma_scan_bounds,
    lemma_word_end_at,
    other_token_spec,
    quote_at,
    quote_mark,
    read_spec,
    spaces_end,
    text_end,
    token_value,
    tokenize_spec,
    tokens_from,
    word_end,
    Session,
};
use crate::words::word::{
    bodies_marker_free,
    inline_spec,
    lemma_inline_marker_free,
    marker_free,
    WordModel,
};

verus! {

/// A word holds neither a blank nor a `."` before its end, and one of them
/// or the end of the line stands at its end.
proof fn lemma_word_region(line: Seq<char>, i: int)
    requires
        0 <= i <= line.len(),
    ensures
        forall|k: int|
            i <= k < word_end(line, i) ==> !is_blank(#[trigger] line[k]) && !quote_at(line, k),
        word_end(line, i) == line.len() || is_blank(line[word_end(line, i)]) || quote_at(
            line,
            word_end(line, i),
        ),
    decreases line.len() - i,
{
    lemma_scan_bounds(line, i);
    if i < line.len() && !is_blank(line[i]) && !quote_at(line, i) {
        lemma_word_region(line, i + 1);
    }
}

/// After the spaces that follow `."` no space stands.
proof fn lemma_spaces_region(line: Seq<char>, i: int)
    requires
        0 <= i <= line.len(),
    ensures
        spaces_end(line, i) == line.len() || line[spaces_end(line, i)] != ' ',
    decreases line.len() - i,
{
    lemma_scan_bounds(line, i);
    if i < line.len() && line[i] == ' ' {
        lemma_spaces_region(line, i + 1);
    }
}

/// A text to print holds no double quote.
proof fn lemma_text_region(line: Seq<char>, i: int)
    requires
        0 <= i <= line.len(),
    ensures
        forall|k: int| i <= k < text_end(line, i) ==> #[trigger] line[k] != '"',
    decreases line.len() - i,
{
    lemma_scan_bounds(line, i);
    if i < line.len() && line[i] != '"' {
        lemma_text_region(line, i + 1);
    }
}

/// Every token of a line is a word or a text to print, of the shape that
/// the tokenizer gives them.
pub proof fn lemma_tokens_shape(line: Seq<char>, i: int)
    requires
        0 <= i <= line.len(),
    ensures
        forall|t: int|
            0 <= t < tokens_from(line, i).len() ==> is_word_token(#[trigger] tokens_from(line, i)[t])
                || is_quote_token(tokens_from(line, i)[t]),
    decreases line.len() - i,
{
    if i >= line.len() {
        assert(tokens_from(line, i).len() == 0);
    } else {
        lemma_scan_bounds(line, i);
        if quote_at(line, i) {
            let from = spaces_end(line, i + 2);
            lemma_scan_bounds(line, i + 2);
            lemma_scan_bounds(line, from);
            lemma_spaces_region(line, i + 2);
            lemma_text_region(line, from);
            let to = text_end(line, from);
            let token = quote_mark() + line.subrange(from, to);
            assert(is_quote_token(token)) by {
                assert(token[0] == '.' && token[1] == '"');
                assert forall|k: int| 2 <= k < token.len() implies #[trigger] token[k] != '"' by {
                    assert(token[k] == line[from + k - 2]);
                }
                if token.len() > 2 {
                    assert(token[2] == line[from]);
                }
            }
            lemma_tokens_shape(line, after_text(line, to));
            let rest = tokens_from(line, after_text(line, to));
            assert(tokens_from(line, i) == seq![token] + rest);
            assert forall|t: int| 0 <= t < tokens_from(line, i).len() implies is_word_token(
                #[trigger] tokens_from(line, i)[t],
            ) || is_quote_token(tokens_from(line, i)[t]) by {
                if t > 0 {
                    assert(tokens_from(line, i)[t] == rest[t - 1]);
                } else {
                    assert(tokens_from(line, i)[t] == token);
                }
            }
        } else if is_blank(line[i]) {
            lemma_tokens_shape(line, i + 1);
            assert(tokens_from(line, i) == tokens_from(line, i + 1));
        } else {
            let end = word_end(line, i);
            lemma_word_region(line, i);
            let token = line.subrange(i, end);
            assert(is_word_token(token)) by {
                assert forall|k: int| 0 <= k < token.len() implies !is_blank(#[trigger] token[k])
                    && !quote_at(token, k) by {
                    assert(token[k] == line[i + k]);
                    assert(!is_blank(line[i + k]) && !quote_at(line, i + k));
                    if k + 1 < token.len() {
                        assert(token[k + 1] == line[i + k + 1]);
                    }
                }
            }
            lemma_tokens_shape(line, end);
            let rest = tokens_from(line, end);
            assert(tokens_from(line, i) == seq![token] + rest);
            assert forall|t: int| 0 <= t < tokens_from(line, i).len() implies is_word_token(
                #[trigger] tokens_from(line, i)[t],
            ) || is_quote_token(tokens_from(line, i)[t]) by {
                if t > 0 {
                    assert(tokens_from(line, i)[t] == rest[t - 1]);
                } else {
                    assert(tokens_from(line, i)[t] == token);
                }
            }
        }
    }
}

/// A text that holds no double quote from position `i` on ends with the
/// line.
proof fn lemma_text_end_at(line: Seq<char>, i: int)
    requires
        0 <= i <= line.len(),
        forall|k: int| i <= k < line.len() ==> #[trigger] line[k] != '"',
    ensures
        text_end(line, i) == line.len(),
    decreases line.len() - i,
{
    if i < line.len() {
        assert(line[i] != '"');
        lemma_text_end_at(line, i + 1);
    }
}

/// The scans of a line from a position on are those of the rest of the
/// line, counted from where the rest begins.
proof fn lemma_scans_of_rest(line: Seq<char>, d: int, j: int)
    requires
        0 <= d <= line.len(),
        0 <= j <= line.len() - d,
    ensures
        quote_at(line.skip(d), j) == quote_at(line, d + j),
        word_end(line.skip(d), j) + d == word_end(line, d + j),
        spaces_end(line.skip(d), j) + d == spaces_end(line, d + j),
        text_end(line.skip(d), j) + d == text_end(line, d + j),
    decreases line.len() - d - j,
{
    let rest = line.skip(d);
    if j < rest.len() {
        assert(rest[j] == line[d + j]);
        if j + 1 < rest.len() {
            assert(rest[j + 1] == line[d + j + 1]);
        }
        lemma_scans_of_rest(line, d, j + 1);
    }
}

/// The tokens of a line from a position on are those of the rest of the
/// line, counted from where the rest begins.
proof fn lemma_tokens_of_rest(line: Seq<char>, d: int, j: int)
    requires
        0 <= d <= line.len(),
        0 <= j <= line.len() - d,
    ensures
        tokens_from(line.skip(d), j) == tokens_from(line, d + j),
    decreases line.len() - d - j,
{
    let rest = line.skip(d);
    if j < rest.len() {
        lemma_scans_of_rest(line, d, j);
        lemma_scan_bounds(rest, j);
        assert(rest[j] == line[d + j]);
        if quote_at(rest, j) {
            lemma_scans_of_rest(line, d, j + 2);
            lemma_scan_bounds(rest, j + 2);
            let from = spaces_end(rest, j + 2);
            lemma_scans_of_rest(line, d, from);
            lemma_scan_bounds(rest, from);
            let to = text_end(rest, from);
            assert(rest.subrange(from, to) =~= line.subrange(d + from, d + to));
            lemma_tokens_of_rest(line, d, after_text(rest, to));
        } else if is_blank(rest[j]) {
            lemma_tokens_of_rest(line, d, j + 1);
        } else {
            let end = word_end(rest, j);
            assert(rest.subrange(j, end) =~= line.subrange(d + j, d + end));
            lemma_tokens_of_rest(line, d, end);
        }
    }
}

/// Tokens of the shape that the tokenizer gives them, joined by single
/// spaces, are found again by the tokenizer, provided that no text to
/// print stands before the last of them.
pub proof fn lemma_join_then_tokenize(tokens: Seq<Seq<char>>)
    requires
        forall|t: int|
            0 <= t < tokens.len() ==> is_word_token(#[trigger] tokens[t]) || is_quote_token(
                tokens[t],
            ),
        forall|t: int| 0 <= t < tokens.len() - 1 ==> !is_quote(#[trigger] tokens[t]),
    ensures
        tokenize_spec(join_spec(tokens)) == tokens,
    decreases tokens.len(),
{
    let line = join_spec(tokens);
    if tokens.len() == 0 {
        assert(tokenize_spec(line) =~= tokens);
    } else if tokens.len() == 1 {
        let token = tokens[0];
        assert(line == token);
        if is_quote_token(token) {
            assert(quote_at(line, 0));
            lemma_text_end_at(line, 2);
            assert(spaces_end(line, 2) == 2);
            assert(quote_mark() + line.subrange(2, line.len() as int) =~= token);
            assert(tokens_from(line, line.len() as int) =~= Seq::<Seq<char>>::empty());
            assert(tokenize_spec(line) =~= tokens);
        } else {
            assert(!quote_at(line, 0));
            lemma_word_end_at(line, 0, line.len() as int);
            assert(line.subrange(0, line.len() as int) =~= token);
            assert(tokens_from(line, line.len() as int) =~= Seq::<Seq<char>>::empty());
            assert(tokenize_spec(line) =~= tokens);
        }
    } else {
        let word = tokens[0];
        let rest = tokens.skip(1);
        let n = word.len() as int;
        assert(!is_quote(word));
        assert(is_word_token(word));
        assert(line == word + seq![' '] + join_spec(rest));
        assert(line[n] == ' ');
        assert forall|k: int| 0 <= k < n implies !is_blank(#[trigger] line[k]) && !quote_at(
            line,
            k,
        ) by {
            assert(line[k] == word[k]);
            assert(!is_blank(word[k]) && !quote_at(word, k));
            if k + 1 < n {
                assert(line[k + 1] == word[k + 1]);
            }
        }
        lemma_word_end_at(line, 0, n);
        assert(line.subrange(0, n) =~= word);
        assert(tokens_from(line, 0) == seq![word] + tokens_from(line, n));
        assert(!quote_at(line, n));
        assert(tokens_from(line, n) == tokens_from(line, n + 1));
        lemma_tokens_of_rest(line, n + 1, 0);
        assert(line.skip(n + 1) =~= join_spec(rest));
        assert forall|t: int| 0 <= t < rest.len() implies is_word_token(#[trigger] rest[t])
            || is_quote_token(rest[t]) by {
            assert(rest[t] == tokens[t + 1]);
        }
        assert forall|t: int| 0 <= t < rest.len() - 1 implies !is_quote(#[trigger] rest[t]) by {
            assert(rest[t] == tokens[t + 1]);
        }
        lemma_join_then_tokenize(rest);
        assert(seq![word] + rest =~= tokens);
    }
}

/// Tokenizing is idempotent: the tokens of a line, joined by single
/// spaces and tokenized again, are the same tokens.
///
/// This holds of every line in which no text to print stands before the
/// last token. A text to print loses its closing quote when it becomes a
/// token, so in the joined text it would run on into the tokens that
/// follow it.
pub proof fn lemma_tokenize_idempotent(line: Seq<char>)
    requires
        forall|t: int|
            0 <= t < tokenize_spec(line).len() - 1 ==> !is_quote(#[trigger] tokenize_spec(line)[t]),
    ensures
        tokenize_spec(join_spec(tokenize_spec(line))) == tokenize_spec(line),
{
    lemma_tokens_shape(line, 0);
    lemma_join_then_tokenize(tokenize_spec(line));
}

/// No stored body ever holds a marker: reading tokens in a session whose
/// bodies, the open one included, hold none leaves a dictionary whose
/// bodies hold none.
pub proof fn lemma_read_keeps_bodies_marker_free(
    tokens: Seq<Seq<char>>,
    i: int,
    session: Session,
    capacity: nat,
)
    requires
        bodies_marker_free(session.words),
        marker_free(session.definition),
    ensures
        bodies_marker_free(read_spec(tokens, i, session, capacity).words),
    decreases tokens.len() - i,
{
    if 0 <= i < tokens.len() {
        let value = token_value(tokens[i], upper_case(tokens[i]), session.words);
        if value == ValueModel::Word(WordModel::Definition) {
            if session.defining {
                lemma_read_keeps_bodies_marker_free(tokens, i + 1, session.rejected(), capacity);
            } else if i + 1 >= tokens.len() || number_spec(tokens[i + 1]) is Some {
            } else {
                let opened = Session {
                    defining: true,
                    name: tokens[i + 1],
                    definition: Seq::empty(),
                    machine: session.machine,
                    words: session.words,
                };
                lemma_read_keeps_bodies_marker_free(tokens, i + 2, opened, capacity);
            }
        } else if value == ValueModel::Word(WordModel::End) {
            if session.defining {
                lemma_inline_marker_free(session.definition, session.words);
                lemma_read_keeps_bodies_marker_free(tokens, i + 1, session.closed(), capacity);
            }
        } else {
            let next = other_token_spec(value, session, capacity);
            if session.defining {
                assert forall|k: int| 0 <= k < next.definition.len() implies !(
                #[trigger] next.definition[k]).is_marker() by {
                    if k < session.definition.len() {
                        assert(next.definition[k] == session.definition[k]);
                    }
                }
            }
            lemma_read_keeps_bodies_marker_free(tokens, i + 1, next, capacity);
        }
    }
}

/// A definition is a snapshot: closing a definition changes the dictionary
/// in the one word that it defines. The body of every other word stays as
/// it was, whatever the words it was built from have become.
pub proof fn lemma_definition_changes_one_word(session: Session, other: Seq<char>)
    requires
        other != upper_case(session.name),
    ensures
        session.closed().words.contains_key(other) == session.words.contains_key(other),
        session.closed().words[other] == session.words[other],
        session.closed().words[upper_case(session.name)] == inline_spec(
            session.definition,
            session.words,
        ),
{
}

/// Reading tokens changes no word whose name is not written among them:
/// such a word is defined afterwards if and only if it was before, with
/// the body it had.
pub proof fn lemma_read_keeps_unnamed_words(
    tokens: Seq<Seq<char>>,
    i: int,
    session: Session,
    capacity: nat,
    other: Seq<char>,
)
    requires
        other != upper_case(session.name),
        forall|k: int| 0 <= k < tokens.len() ==> upper_case(#[trigger] tokens[k]) != other,
    ensures
        read_spec(tokens, i, session, capacity).words.contains_key(other)
            == session.words.contains_key(other),
        read_spec(tokens, i, session, capacity).words[other] == session.words[other],
    decreases tokens.len() - i,
{
    if 0 <= i < tokens.len() {
        let value = token_value(tokens[i], upper_case(tokens[i]), session.words);
        if value == ValueModel::Word(WordModel::Definition) {
            if session.defining {
                lemma_read_keeps_unnamed_words(tokens, i + 1, session.rejected(), capacity, other);
            } else if i + 1 >= tokens.len() || number_spec(tokens[i + 1]) is Some {
            } else {
                let opened = Session {
                    defining: true,
                    name: tokens[i + 1],
                    definition: Seq::empty(),
                    machine: session.machine,
                    words: session.words,
                };
                lemma_read_keeps_unnamed_words(tokens, i + 2, opened, capacity, other);
            }
        } else if value == ValueModel::Word(WordModel::End) {
            if session.defining {
                lemma_read_keeps_unnamed_words(tokens, i + 1, session.closed(), capacity, other);
            }
        } else {
            lemma_read_keeps_unnamed_words(
                tokens,
                i + 1,
                other_token_spec(value, session, capacity),
                capacity,
                other,
            );
        }
    }
}

/// A word that is defined stays defined: reading tokens takes no word out
/// of the dictionary.
pub proof fn lemma_read_keeps_words_defined(
    tokens: Seq<Seq<char>>,
    i: int,
    session: Session,
    capacity: nat,
    name: Seq<char>,
)
    requires
        session.words.contains_key(name),
    ensures
        read_spec(tokens, i, session, capacity).words.contains_key(name),
    decreases tokens.len() - i,
{
    if 0 <= i < tokens.len() {
        let value = token_value(tokens[i], upper_case(tokens[i]), session.words);
        if value == ValueModel::Word(WordModel::Definition) {
            if session.defining {
                lemma_read_keeps_words_defined(tokens, i + 1, session.rejected(), capacity, name);
            } else if i + 1 >= tokens.len() || number_spec(tokens[i + 1]) is Some {
            } else {
                let opened = Session {
                    defining: true,
                    name: tokens[i + 1],
                    definition: Seq::empty(),
                    machine: session.machine,
                    words: session.words,
                };
                lemma_read_keeps_words_defined(tokens, i + 2, opened, capacity, name);
            }
        } else if value == ValueModel::Word(WordModel::End) {
            if session.defining {
                lemma_read_keeps_words_defined(tokens, i + 1, session.closed(), capacity, name);
            }
        } else {
            lemma_read_keeps_words_defined(
                tokens,
                i + 1,
                other_token_spec(value, session, capacity),
                capacity,
                name,
            );
        }
    }
}

/// Tokens that close no definition leave the dictionary as it is.
pub proof fn lemma_read_without_closing_keeps_words(
    tokens: Seq<Seq<char>>,
    i: int,
    session: Session,
    capacity: nat,
)
    requires
        forall|k: int|
            i <= k < tokens.len() ==> #[trigger] token_value(
                tokens[k],
                upper_case(tokens[k]),
                session.words,
            ) != ValueModel::Word(WordModel::End),
    ensures
        read_spec(tokens, i, session, capacity).words == session.words,
    decreases tokens.len() - i,
{
    if 0 <= i < tokens.len() {
        let value = token_value(tokens[i], upper_case(tokens[i]), session.words);
        if value == ValueModel::Word(WordModel::Definition) {
            if session.defining {
                lemma_read_without_closing_keeps_words(tokens, i + 1, session.rejected(), capacity);
            } else if i + 1 >= tokens.len() || number_spec(tokens[i + 1]) is Some {
            } else {
                let opened = Session {
                    defining: true,
                    name: tokens[i + 1],
                    definition: Seq::empty(),
                    machine: session.machine,
                    words: session.words,
                };
                lemma_read_without_closing_keeps_words(tokens, i + 2, opened, capacity);
            }
        } else {
            lemma_read_without_closing_keeps_words(
                tokens,
                i + 1,
                other_token_spec(value, session, capacity),
                capacity,
            );
        }
    }
}

/// An arithmetic operation on a stack of fewer than two numbers takes
/// what is there, leaves the stack empty and reports `StackUnderflow`.
pub proof fn lemma_arithmetic_underflow(op: ArithmeticOperation, stack: Seq<i16>, capacity: nat)
    requires
        stack.len() < 2,
    ensures
        arithmetic_spec(op, stack, capacity) == (
            Seq::<i16>::empty(),
            Err::<(), ForthError>(ForthError::StackUnderflow),
        ),
{
}

/// The case of a token does not matter: two tokens with the same
/// upper-case form resolve to the same value, unless one of them is a text
/// to print or writes a number.
pub proof fn lemma_case_insensitive(first: Seq<char>, second: Seq<char>, words: Words)
    requires
        upper_case(first) == upper_case(second),
        !is_quote(first) && !is_quote(second),
        number_spec(first) is None && number_spec(second) is None,
    ensures
        token_value(first, upper_case(first), words) == token_value(
            second,
            upper_case(second),
            words,
        ),
{
}

/// The digits that write a number are digits, there is at least one of
/// them, and they write that number.
proof fn lemma_natural_text(n: nat)
    ensures
        natural_text(n).len() > 0,
        all_digits(natural_text(n)),
        digits_value(natural_text(n)) == n,
    decreases n,
{
    let text = natural_text(n);
    if n < 10 {
        assert(text.drop_last() =~= Seq::<char>::empty());
        assert(digits_value(text.drop_last()) == 0);
        assert(is_digit(text[0]));
    } else {
        lemma_natural_text(n / 10);
        assert(text.drop_last() =~= natural_text(n / 10));
        assert(is_digit(text.last()));
        assert forall|i: int| 0 <= i < text.len() implies is_digit(#[trigger] text[i]) by {
            if i < text.len() - 1 {
                assert(text[i] == natural_text(n / 10)[i]);
            }
        }
    }
}

/// A number that is written out and read again is the same number.
pub proof fn lemma_number_text_round_trip(n: i16)
    ensures
        number_spec(number_text(n as int)) == Some(n),
{
    let text = number_text(n as int);
    if n < 0 {
        let digits = natural_text((-n) as nat);
        lemma_natural_text((-n) as nat);
        assert(text[0] == '-');
        assert(has_sign(text));
        assert(text.skip(1) =~= digits);
        assert(unsigned_part(text) == digits);
    } else {
        lemma_natural_text(n as nat);
        assert(is_digit(text[0]));
        assert(!has_sign(text));
        assert(unsigned_part(text) == text);
    }
}

/// A stage that skips always counts at least the `IF` at which skipping
/// began: no instruction makes the count of a skipping stage zero.
pub proof fn lemma_step_keeps_depths_positive(
    value: ValueModel,
    machine: Machine,
    capacity: nat,
    words: Words,
    chain: Seq<Seq<char>>,
)
    requires
        words.dom().finite(),
        depths_positive(machine.stages),
        depth_bounded(machine.stages, usize::MAX - 1),
    ensures
        depths_positive(step_spec(value, machine, capacity, words, chain).stages),
{
}

/// The call of a word leaves the stages of its caller as they were: what
/// the conditionals of a word come to stays inside the word.
pub proof fn lemma_call_keeps_stages(
    name: Seq<char>,
    machine: Machine,
    capacity: nat,
    words: Words,
    chain: Seq<Seq<char>>,
)
    requires
        words.dom().finite(),
        current_stage(machine.stages) is Executing,
    ensures
        step_spec(
            ValueModel::Word(WordModel::Start(name)),
            machine,
            capacity,
            words,
            chain,
        ).stages == machine.stages,
{
}

/// While instructions are passed over, the stack and the lines put out
/// stay as they are.
pub proof fn lemma_skipping_runs_nothing(
    value: ValueModel,
    machine: Machine,
    capacity: nat,
    words: Words,
    chain: Seq<Seq<char>>,
)
    requires
        words.dom().finite(),
        current_stage(machine.stages) is Skipping,
    ensures
        step_spec(value, machine, capacity, words, chain).stack == machine.stack,
        step_spec(value, machine, capacity, words, chain).log == machine.log,
{
}

/// No number or built-in operation leaves more numbers on the stack than
/// the stack has room for, if it finds no more.
proof fn lemma_plain_keeps_capacity(
    value: ValueModel,
    stack: Seq<i16>,
    log: Seq<EffectModel>,
    capacity: nat,
)
    requires
        stack.len() <= capacity,
    ensures
        plain_spec(value, stack, log, capacity).0.len() <= capacity,
{
    match value {
        ValueModel::Operation(OperationModel::Arithmetic(op)) => {
            assert(arithmetic_spec(op, stack, capacity).0.len() <= capacity);
        },
        ValueModel::Operation(OperationModel::StackTypeOp(op)) => {
            assert(stack_op_spec(op, stack, capacity).0.len() <= capacity);
        },
        ValueModel::Operation(OperationModel::Output(op)) => {
            assert(output_spec(op, stack).0.len() <= capacity);
        },
        ValueModel::Operation(OperationModel::Boolean(op)) => {
            assert(boolean_spec(op, stack, capacity).0.len() <= capacity);
        },
        _ => {},
    }
}

/// A run never leaves more numbers on the stack than the stack has room
/// for, if it begins with no more.
pub proof fn lemma_run_keeps_capacity(
    body: Seq<ValueModel>,
    count: nat,
    machine: Machine,
    capacity: nat,
    words: Words,
    chain: Seq<Seq<char>>,
)
    requires
        words.dom().finite(),
        count <= body.len(),
        machine.stack.len() <= capacity,
    ensures
        run_spec(body, count, machine, capacity, words, chain).stack.len() <= capacity,
    decreases pending(words, chain).len(), count,
{
    if count > 0 {
        let before = run_spec(body, (count - 1) as nat, machine, capacity, words, chain);
        lemma_run_keeps_capacity(body, (count - 1) as nat, machine, capacity, words, chain);
        let value = body[count - 1];
        let after = step_spec(value, before, capacity, words, chain);
        if current_stage(before.stages) is Executing {
            match value {
                ValueModel::Word(WordModel::Start(name)) => {
                    if !chain.contains(name) && words.contains_key(name) {
                        lemma_pending_shrinks(words, chain, name);
                        lemma_run_keeps_capacity(
                            words[name],
                            words[name].len(),
                            Machine { stack: before.stack, stages: fresh_stages(), log: before.log },
                            capacity,
                            words,
                            chain.push(name),
                        );
                    }
                    assert(after.stack == call_spec(
                        name,
                        before.stack,
                        before.log,
                        capacity,
                        words,
                        chain,
                    ).0);
                },
                ValueModel::Operation(OperationModel::Conditional(op)) => {
                    assert(after.stack == conditional_spec(op, before.stack, before.stages).0);
                },
                _ => {
                    lemma_plain_keeps_capacity(value, before.stack, before.log, capacity);
                },
            }
        } else {
            assert(after.stack == before.stack);
        }
    }
}

} // verus!
