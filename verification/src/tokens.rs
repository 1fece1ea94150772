//! From a line of source text to tokens, from tokens to instructions, and
//! the reading of a line.

use vstd::prelude::*;
use crate::effects::{report, Effect, EffectModel};
use crate::errors::ForthError;
use crate::executions::{
    depth_bounded,
    execute_instruction,
    fresh_stages,
    step_spec,
    ExecutionStage,
    Machine,
    Words,
};
use crate::forth_value::{ForthValue, ValueModel};
use crate::operations::arithmetic::{arithmetic_token, parse_arithmetic};
use crate::operations::boolean::{boolean_token, parse_boolean};
use crate::operations::conditional::{conditional_token, parse_conditional};
use crate::operations::forth_operation::{ForthOperation, OperationModel};
use crate::operations::output::{output_token, parse_output, OutputModel, OutputOperation};
use crate::operations::stack_type::{parse_stack_op, stack_token};
use crate::stack::Stack;
use crate::text::{chars_of, number_spec, parse_number, piece, to_upper_case, upper_case};
use crate::words::dictionary::WordsDictionary;
use crate::words::word::{
    bodies_marker_free,
    handle_word_definition,
    handle_word_end,
    inline_spec,
    marker_token,
    parse_word,
    ForthWord,
    WordModel,
};

verus! {

/// Whether `c` parts tokens: a space or a tab.
pub open spec fn is_blank(c: char) -> bool {
    c == ' ' || c == '\t'
}

/// The two characters `."` with which a text to print begins.
pub open spec fn quote_mark() -> Seq<char> {
    seq!['.', '"']
}

/// Whether a text to print begins at position `i` of `line`.
pub open spec fn quote_at(line: Seq<char>, i: int) -> bool {
    0 <= i && i + 1 < line.len() && line[i] == '.' && line[i + 1] == '"'
}

/// Where the word that begins at position `i` of `line` ends: at the first
/// blank, at the first text to print, or with the line.
pub open spec fn word_end(line: Seq<char>, i: int) -> int
    decreases line.len() - i,
{
    if i < 0 || i >= line.len() || is_blank(line[i]) || quote_at(line, i) {
        i
    } else {
        word_end(line, i + 1)
    }
}

/// The first position from `i` on at which `line` holds no space, or its
/// length.
pub open spec fn spaces_end(line: Seq<char>, i: int) -> int
    decreases line.len() - i,
{
    if i < 0 || i >= line.len() || line[i] != ' ' {
        i
    } else {
        spaces_end(line, i + 1)
    }
}

/// The first position from `i` on at which `line` holds a double quote,
/// or its length.
pub open spec fn text_end(line: Seq<char>, i: int) -> int
    decreases line.len() - i,
{
    if i < 0 || i >= line.len() || line[i] == '"' {
        i
    } else {
        text_end(line, i + 1)
    }
}

/// The position after a text that ends at position `to` of `line`: past
/// the closing quote, if there is one.
pub open spec fn after_text(line: Seq<char>, to: int) -> int {
    if to < line.len() {
        to + 1
    } else {
        to
    }
}

/// The three scans end at or after the position at which they begin, and
/// within the line if they begin there.
pub proof fn lemma_scan_bounds(line: Seq<char>, i: int)
    requires
        0 <= i <= line.len(),
    ensures
        i <= word_end(line, i) <= line.len(),
        i <= spaces_end(line, i) <= line.len(),
        i <= text_end(line, i) <= line.len(),
        i < line.len() && !is_blank(line[i]) && !quote_at(line, i) ==> i < word_end(line, i),
    decreases line.len() - i,
{
    if i < line.len() {
        lemma_scan_bounds(line, i + 1);
    }
}

/// The tokens of `line` from position `i` on.
///
/// Blanks part tokens and belong to none. A text to print begins with
/// `."`; the spaces after that are dropped, and what follows up to the
/// next double quote, or up to the end of the line, is the text. The
/// token is `."` and the text; the closing quote belongs to no token. Any
/// other token is a word: it goes on to the next blank, to the next `."`,
/// or to the end of the line.
pub open spec fn tokens_from(line: Seq<char>, i: int) -> Seq<Seq<char>>
    decreases line.len() - i,
    via tokens_from_decreases
{
    if i < 0 || i >= line.len() {
        Seq::empty()
    } else if quote_at(line, i) {
        let from = spaces_end(line, i + 2);
        let to = text_end(line, from);
        seq![quote_mark() + line.subrange(from, to)] + tokens_from(line, after_text(line, to))
    } else if is_blank(line[i]) {
        tokens_from(line, i + 1)
    } else {
        seq![line.subrange(i, word_end(line, i))] + tokens_from(line, word_end(line, i))
    }
}

#[via_fn]
proof fn tokens_from_decreases(line: Seq<char>, i: int) {
    if 0 <= i < line.len() {
        lemma_scan_bounds(line, i);
        if quote_at(line, i) {
            lemma_scan_bounds(line, i + 2);
            lemma_scan_bounds(line, spaces_end(line, i + 2));
        }
    }
}

/// The tokens of `line`.
pub open spec fn tokenize_spec(line: Seq<char>) -> Seq<Seq<char>> {
    tokens_from(line, 0)
}

/// A word that holds no blank and no `."` up to position `i`, at which a
/// blank, a `."` or the end of the line stands, ends at `i`.
pub proof fn lemma_word_end_at(line: Seq<char>, start: int, i: int)
    requires
        0 <= start <= i <= line.len(),
        forall|k: int| start <= k < i ==> !is_blank(#[trigger] line[k]) && !quote_at(line, k),
        i == line.len() || is_blank(line[i]) || quote_at(line, i),
    ensures
        word_end(line, start) == i,
    decreases i - start,
{
    if start < i {
        assert(!is_blank(line[start]) && !quote_at(line, start));
        lemma_word_end_at(line, start + 1, i);
    }
}

/// The tokens from the beginning of a word on are that word, if it is
/// not empty, and the tokens from its end on.
proof fn lemma_tokens_after_word(line: Seq<char>, start: int, i: int)
    requires
        0 <= start <= i <= line.len(),
        forall|k: int| start <= k < i ==> !is_blank(#[trigger] line[k]) && !quote_at(line, k),
        i == line.len() || is_blank(line[i]) || quote_at(line, i),
    ensures
        tokens_from(line, start) == if start < i {
            seq![line.subrange(start, i)] + tokens_from(line, i)
        } else {
            tokens_from(line, i)
        },
{
    lemma_word_end_at(line, start, i);
    if start < i {
        assert(!is_blank(line[start]) && !quote_at(line, start));
    }
}

/// Reads the text to print that begins at position `at` of `input` and
/// adds its token to `tokens`. Returns the position after the text and its
/// closing quote.
///
/// `chars` holds the characters of `input`, and `."` stands at position
/// `at`.
pub fn tokenize_dot_quote(input: &str, chars: &Vec<char>, at: usize, tokens: &mut Vec<String>) -> (next:
    usize)
    requires
        chars@ == input@,
        quote_at(input@, at as int),
    ensures
        at < next <= input@.len(),
        ({
            let from = spaces_end(input@, at + 2);
            let to = text_end(input@, from);
            &&& final(tokens).deep_view() == old(tokens).deep_view().push(
                quote_mark() + input@.subrange(from, to),
            )
            &&& next == after_text(input@, to)
        }),
{
    let n = chars.len();
    let mut from: usize = at + 2;
    while from < n && chars[from] == ' '
        invariant
            at + 2 <= from <= n,
            n == input@.len(),
            chars@ == input@,
            spaces_end(input@, from as int) == spaces_end(input@, at + 2),
        decreases n - from,
    {
        from += 1;
    }
    let mut to: usize = from;
    while to < n && chars[to] != '"'
        invariant
            from <= to <= n,
            n == input@.len(),
            chars@ == input@,
            text_end(input@, to as int) == text_end(input@, from as int),
        decreases n - to,
    {
        to += 1;
    }
    let token = String::from_str(".\"").concat(input.substring_char(from, to));
    proof {
        reveal_strlit(".\"");
        assert(".\""@ =~= quote_mark());
    }
    let ghost before = tokens.deep_view();
    tokens.push(token);
    assert(tokens.deep_view() =~= before.push(token@));
    if to < n {
        to + 1
    } else {
        to
    }
}

/// Adds `cur_tok` to `tokens` unless it is empty.
pub fn handle_token_char(cur_tok: String, tokens: &mut Vec<String>)
    ensures
        final(tokens).deep_view() == if cur_tok@.len() == 0 {
            old(tokens).deep_view()
        } else {
            old(tokens).deep_view().push(cur_tok@)
        },
{
    if !cur_tok.as_str().is_empty() {
        let ghost before = tokens.deep_view();
        tokens.push(cur_tok);
        assert(tokens.deep_view() =~= before.push(cur_tok@));
    }
}

/// Parts `input` into its tokens.
pub fn tokenize(input: &str) -> (tokens: Vec<String>)
    ensures
        tokens.deep_view() == tokenize_spec(input@),
{
    let chars = chars_of(input);
    let n = chars.len();
    let mut tokens: Vec<String> = Vec::new();
    let mut start: usize = 0;
    let mut i: usize = 0;
    assert(tokens.deep_view() + tokens_from(input@, 0) =~= tokens_from(input@, 0));
    while i < n
        invariant
            start <= i <= n,
            n == input@.len(),
            chars@ == input@,
            forall|k: int|
                start <= k < i ==> !is_blank(#[trigger] input@[k]) && !quote_at(input@, k),
            tokens.deep_view() + tokens_from(input@, start as int) == tokens_from(input@, 0),
        decreases n - i,
    {
        let c = chars[i];
        if c == '.' && i + 1 < n && chars[i + 1] == '"' {
            proof {
                lemma_tokens_after_word(input@, start as int, i as int);
                lemma_scan_bounds(input@, i + 2);
                lemma_scan_bounds(input@, spaces_end(input@, i + 2));
            }
            handle_token_char(piece(input, start, i), &mut tokens);
            let ghost flushed = tokens.deep_view();
            assert(flushed + tokens_from(input@, i as int) =~= tokens_from(input@, 0));
            let next = tokenize_dot_quote(input, &chars, i, &mut tokens);
            assert(tokens.deep_view() + tokens_from(input@, next as int) =~= flushed + tokens_from(
                input@,
                i as int,
            ));
            i = next;
            start = i;
        } else if c == ' ' || c == '\t' {
            proof {
                lemma_tokens_after_word(input@, start as int, i as int);
            }
            handle_token_char(piece(input, start, i), &mut tokens);
            assert(tokens.deep_view() + tokens_from(input@, i as int) =~= tokens_from(input@, 0));
            assert(tokens_from(input@, i as int) == tokens_from(input@, i + 1));
            i += 1;
            start = i;
        } else {
            i += 1;
        }
    }
    proof {
        lemma_tokens_after_word(input@, start as int, n as int);
    }
    handle_token_char(piece(input, start, n), &mut tokens);
    assert(tokens.deep_view() + tokens_from(input@, n as int) =~= tokens_from(input@, 0));
    assert(tokens.deep_view() =~= tokens_from(input@, 0));
    tokens
}

/// The text in which `tokens` stand one after the other with one space
/// between each two.
pub open spec fn join_spec(tokens: Seq<Seq<char>>) -> Seq<char>
    decreases tokens.len(),
{
    if tokens.len() == 0 {
        Seq::empty()
    } else if tokens.len() == 1 {
        tokens[0]
    } else {
        tokens[0] + seq![' '] + join_spec(tokens.skip(1))
    }
}

/// Whether `token` is a word as the tokenizer yields it: not empty, with
/// no blank and no `."` in it.
pub open spec fn is_word_token(token: Seq<char>) -> bool {
    &&& token.len() > 0
    &&& forall|k: int|
        0 <= k < token.len() ==> !is_blank(#[trigger] token[k]) && !quote_at(token, k)
}

/// Whether `token` is a text to print as the tokenizer yields it: `."`,
/// then a text that does not begin with a space and holds no double
/// quote.
pub open spec fn is_quote_token(token: Seq<char>) -> bool {
    &&& is_quote(token)
    &&& token.len() > 2 ==> token[2] != ' '
    &&& forall|k: int| 2 <= k < token.len() ==> #[trigger] token[k] != '"'
}

/// Whether `token` is a text to print: whether it begins with `."`.
pub open spec fn is_quote(token: Seq<char>) -> bool {
    token.len() >= 2 && token[0] == '.' && token[1] == '"'
}

/// The built-in operation that `upper`, a token in upper case, names, if
/// it names one.
pub open spec fn builtin_token(upper: Seq<char>) -> Option<OperationModel> {
    if arithmetic_token(upper) is Some {
        Some(OperationModel::Arithmetic(arithmetic_token(upper)->Some_0))
    } else if stack_token(upper) is Some {
        Some(OperationModel::StackTypeOp(stack_token(upper)->Some_0))
    } else if output_token(upper) is Some {
        Some(OperationModel::Output(output_token(upper)->Some_0))
    } else if boolean_token(upper) is Some {
        Some(OperationModel::Boolean(boolean_token(upper)->Some_0))
    } else if conditional_token(upper) is Some {
        Some(OperationModel::Conditional(conditional_token(upper)->Some_0))
    } else {
        None
    }
}

/// What `token`, whose upper-case form is `upper`, resolves to while the
/// words `words` are defined. The first of these that applies decides:
///
/// 1. a token that begins with `."` is the text after that, to print;
/// 2. a token that names a word of `words`, without regard to case,
///    refers to that word, so that a word may take the name of a built-in
///    operation;
/// 3. a token that names a built-in operation is that operation;
/// 4. the tokens `:` and `;` are the markers of a definition;
/// 5. a token that writes a 16-bit number is that number;
/// 6. any other token refers to the word of its name, to be found when it
///    is called.
pub open spec fn token_value(token: Seq<char>, upper: Seq<char>, words: Words) -> ValueModel {
    if is_quote(token) {
        ValueModel::Operation(OperationModel::Output(OutputModel::DotQuote(token.skip(2))))
    } else if words.contains_key(upper) {
        ValueModel::Word(WordModel::Start(upper))
    } else if builtin_token(upper) is Some {
        ValueModel::Operation(builtin_token(upper)->Some_0)
    } else if marker_token(upper) is Some {
        ValueModel::Word(marker_token(upper)->Some_0)
    } else if number_spec(token) is Some {
        ValueModel::Number(number_spec(token)->Some_0)
    } else {
        ValueModel::Word(WordModel::Start(upper))
    }
}

/// Resolves `token`, whose upper-case form is `upper`, against the words
/// of `dictionary`.
pub fn parse_normalized_token(token: &str, upper: String, dictionary: &WordsDictionary) -> (value:
    ForthValue)
    ensures
        value@ == token_value(token@, upper@, dictionary@),
{
    let chars = chars_of(token);
    if chars.len() >= 2 && chars[0] == '.' && chars[1] == '"' {
        let quoted_text = piece(token, 2, chars.len());
        assert(quoted_text@ =~= token@.skip(2));
        return ForthValue::Operation(ForthOperation::Output(OutputOperation::DotQuote(quoted_text)));
    }
    if dictionary.word_already_defined(upper.as_str()) {
        return ForthValue::Word(ForthWord::Start(upper));
    }
    if let Some(value) = parse_arithmetic(upper.as_str()) {
        return value;
    }
    if let Some(value) = parse_stack_op(upper.as_str()) {
        return value;
    }
    if let Some(value) = parse_output(upper.as_str()) {
        return value;
    }
    if let Some(value) = parse_boolean(upper.as_str()) {
        return value;
    }
    if let Some(value) = parse_conditional(upper.as_str()) {
        return value;
    }
    if let Some(value) = parse_word(upper.as_str()) {
        return value;
    }
    match parse_number(token) {
        Some(num) => ForthValue::Number(num),
        None => ForthValue::Word(ForthWord::Start(upper)),
    }
}

/// Resolves `token` against the words of `dictionary`.
pub fn parse_token(token: &str, dictionary: &WordsDictionary) -> (value: ForthValue)
    ensures
        value@ == token_value(token@, upper_case(token@), dictionary@),
{
    parse_normalized_token(token, to_upper_case(token), dictionary)
}

/// All that the reading of a line works on: the definition that is open,
/// if one is, the machine, and the words defined.
pub struct Session {
    pub defining: bool,
    pub name: Seq<char>,
    pub definition: Seq<ValueModel>,
    pub machine: Machine,
    pub words: Words,
}

impl Session {
    /// The session after the open definition was closed: the body collected
    /// is stored under the upper-case form of the name, with the references
    /// to words that are defined replaced by the bodies of those words, and
    /// no definition is open any more.
    pub open spec fn closed(self) -> Session {
        Session {
            defining: false,
            name: self.name,
            definition: Seq::empty(),
            machine: self.machine,
            words: self.words.insert(
                upper_case(self.name),
                inline_spec(self.definition, self.words),
            ),
        }
    }

    /// The session with the failure `InvalidWord` reported.
    pub open spec fn rejected(self) -> Session {
        Session {
            defining: self.defining,
            name: self.name,
            definition: self.definition,
            machine: Machine {
                stack: self.machine.stack,
                stages: self.machine.stages,
                log: self.machine.log.push(EffectModel::Failure(ForthError::InvalidWord)),
            },
            words: self.words,
        }
    }
}

/// What the value `value`, which is no marker, makes of `session`: with a
/// definition open it joins the body collected so far, and otherwise it is
/// run, with no call under way.
pub open spec fn other_token_spec(value: ValueModel, session: Session, capacity: nat) -> Session {
    if session.defining {
        Session {
            defining: session.defining,
            name: session.name,
            definition: session.definition.push(value),
            machine: session.machine,
            words: session.words,
        }
    } else {
        Session {
            defining: session.defining,
            name: session.name,
            definition: session.definition,
            machine: step_spec(value, session.machine, capacity, session.words, Seq::empty()),
            words: session.words,
        }
    }
}

/// What the tokens of `tokens` from position `i` on make of `session`.
///
/// Each token is resolved against the words defined, and then:
///
/// - The marker `:` opens a definition named by the token after it, and
///   reading goes on after that name. With a definition already open the
///   marker is reported as `InvalidWord` and passed over. With no token
///   after it, or one that writes a number, it is reported as
///   `InvalidWord` and reading stops.
/// - The marker `;` closes the open definition and stores the word, and
///   reading goes on with the next token, against the dictionary as it is
///   now. With no definition open the marker is reported as `InvalidWord`
///   and reading stops.
/// - Any other value joins the open definition or is run.
///
/// A definition that is still open when the tokens end is reported as
/// `InvalidWord`.
pub open spec fn read_spec(tokens: Seq<Seq<char>>, i: int, session: Session, capacity: nat) -> Session
    decreases tokens.len() - i,
{
    if i < 0 || i >= tokens.len() {
        if session.defining {
            session.rejected()
        } else {
            session
        }
    } else {
        let value = token_value(tokens[i], upper_case(tokens[i]), session.words);
        if value == ValueModel::Word(WordModel::Definition) {
            if session.defining {
                read_spec(tokens, i + 1, session.rejected(), capacity)
            } else if i + 1 >= tokens.len() || number_spec(tokens[i + 1]) is Some {
                session.rejected()
            } else {
                read_spec(
                    tokens,
                    i + 2,
                    Session {
                        defining: true,
                        name: tokens[i + 1],
                        definition: Seq::empty(),
                        machine: session.machine,
                        words: session.words,
                    },
                    capacity,
                )
            }
        } else if value == ValueModel::Word(WordModel::End) {
            if session.defining {
                read_spec(tokens, i + 1, session.closed(), capacity)
            } else {
                session.rejected()
            }
        } else {
            read_spec(tokens, i + 1, other_token_spec(value, session, capacity), capacity)
        }
    }
}

/// The session in which the reading of a line begins.
pub open spec fn opening(stack: Seq<i16>, words: Words) -> Session {
    Session {
        defining: false,
        name: Seq::empty(),
        definition: Seq::empty(),
        machine: Machine { stack, stages: fresh_stages(), log: Seq::empty() },
        words,
    }
}

/// Handles a value that is no marker: with a definition open
/// (`flag_defining_word`) it joins `definition`, and otherwise it is run.
///
/// Where the value is run, the counts of the skipping stages must have
/// room to grow by one.
pub fn handle_other_token(
    value: ForthValue,
    flag_defining_word: bool,
    definition: &mut Vec<ForthValue>,
    stack: &mut Stack,
    dictionary: &WordsDictionary,
    executed_words: &mut Vec<String>,
    execution_stage_stack: &mut Vec<ExecutionStage>,
    log: &mut Vec<Effect>,
)
    requires
        !flag_defining_word ==> depth_bounded(old(execution_stage_stack)@, usize::MAX - 1),
    ensures
        final(stack).capacity() == old(stack).capacity(),
        old(stack).wf() ==> final(stack).wf(),
        final(executed_words).deep_view() == old(executed_words).deep_view(),
        flag_defining_word ==> {
            &&& final(definition).deep_view() == old(definition).deep_view().push(value@)
            &&& final(stack)@ == old(stack)@
            &&& final(execution_stage_stack)@ == old(execution_stage_stack)@
            &&& final(log).deep_view() == old(log).deep_view()
        },
        !flag_defining_word ==> {
            &&& final(definition).deep_view() == old(definition).deep_view()
            &&& (Machine {
                stack: final(stack)@,
                stages: final(execution_stage_stack)@,
                log: final(log).deep_view(),
            } == step_spec(
                value@,
                Machine {
                    stack: old(stack)@,
                    stages: old(execution_stage_stack)@,
                    log: old(log).deep_view(),
                },
                old(stack).capacity(),
                dictionary@,
                old(executed_words).deep_view(),
            ))
        },
        forall|bound: int|
            0 <= bound && #[trigger] depth_bounded(old(execution_stage_stack)@, bound)
                ==> depth_bounded(final(execution_stage_stack)@, bound + 1),
{
    if flag_defining_word {
        let ghost before = definition.deep_view();
        definition.push(value);
        assert(definition.deep_view() =~= before.push(value@));
    } else {
        execute_instruction(
            &value,
            stack,
            dictionary,
            execution_stage_stack,
            None,
            executed_words,
            log,
        );
    }
}

/// Reads the tokens of one line: runs what is to be run, and stores the
/// words that the line defines. Returns the lines put out, in order.
pub fn read_tokens(tokens: &[String], stack: &mut Stack, dictionary: &mut WordsDictionary) -> (log:
    Vec<Effect>)
    ensures
        final(stack).capacity() == old(stack).capacity(),
        old(stack).wf() ==> final(stack).wf(),
        ({
            let end = read_spec(
                tokens.deep_view(),
                0,
                opening(old(stack)@, old(dictionary)@),
                old(stack).capacity(),
            );
            &&& final(stack)@ == end.machine.stack
            &&& final(dictionary)@ == end.words
            &&& log.deep_view() == end.machine.log
        }),
        bodies_marker_free(old(dictionary)@) ==> bodies_marker_free(final(dictionary)@),
{
    proof {
        if bodies_marker_free(dictionary@) {
            crate::laws::lemma_read_keeps_bodies_marker_free(
                tokens.deep_view(),
                0,
                opening(stack@, dictionary@),
                stack.capacity(),
            );
        }
    }
    let mut i: usize = 0;
    let mut flag_defining_word = false;
    let mut current_word_name = String::new();
    let mut current_definition: Vec<ForthValue> = Vec::new();
    let mut executed_words: Vec<String> = Vec::new();
    let mut execution_stage_stack = vec![ExecutionStage::Executing];
    let mut log: Vec<Effect> = Vec::new();
    let ghost capacity = stack.capacity();
    let ghost all = tokens.deep_view();
    let ghost goal = read_spec(all, 0, opening(stack@, dictionary@), capacity);
    assert(execution_stage_stack@ =~= fresh_stages());
    assert(current_definition.deep_view() =~= Seq::<ValueModel>::empty());
    assert(executed_words.deep_view() =~= Seq::<Seq<char>>::empty());
    assert(log.deep_view() =~= Seq::<EffectModel>::empty());
    while i < tokens.len()
        invariant
            i <= tokens@.len(),
            all == tokens.deep_view(),
            capacity == old(stack).capacity(),
            goal == read_spec(all, 0, opening(old(stack)@, old(dictionary)@), capacity),
            bodies_marker_free(old(dictionary)@) ==> bodies_marker_free(goal.words),
            stack.capacity() == capacity,
            old(stack).wf() ==> stack.wf(),
            executed_words.deep_view() == Seq::<Seq<char>>::empty(),
            depth_bounded(execution_stage_stack@, i as int),
            goal == read_spec(
                all,
                i as int,
                Session {
                    defining: flag_defining_word,
                    name: current_word_name@,
                    definition: current_definition.deep_view(),
                    machine: Machine {
                        stack: stack@,
                        stages: execution_stage_stack@,
                        log: log.deep_view(),
                    },
                    words: dictionary@,
                },
                capacity,
            ),
        decreases tokens@.len() - i,
    {
        let ghost session = Session {
            defining: flag_defining_word,
            name: current_word_name@,
            definition: current_definition.deep_view(),
            machine: Machine { stack: stack@, stages: execution_stage_stack@, log: log.deep_view() },
            words: dictionary@,
        };
        let value = parse_token(tokens[i].as_str(), dictionary);
        assert(value@ == token_value(all[i as int], upper_case(all[i as int]), dictionary@));
        match &value {
            ForthValue::Word(ForthWord::Definition) => {
                let result = handle_word_definition(
                    tokens,
                    &mut i,
                    &mut flag_defining_word,
                    &mut current_word_name,
                    &mut current_definition,
                );
                let ghost opened = result is Ok;
                report(&mut log, result);
                if !flag_defining_word {
                    return log;
                }
                assert(opened ==> current_definition.deep_view() =~= Seq::<ValueModel>::empty());
            },
            ForthValue::Word(ForthWord::End) => {
                let result = handle_word_end(
                    &mut flag_defining_word,
                    current_word_name.as_str(),
                    &mut current_definition,
                    dictionary,
                );
                let closed = result.is_ok();
                report(&mut log, result);
                if !closed {
                    return log;
                }
                assert(current_definition.deep_view() =~= Seq::<ValueModel>::empty());
                assert(dictionary@ == session.closed().words);
            },
            _ => {
                handle_other_token(
                    value,
                    flag_defining_word,
                    &mut current_definition,
                    stack,
                    dictionary,
                    &mut executed_words,
                    &mut execution_stage_stack,
                    &mut log,
                );
            },
        }
        i += 1;
    }
    if flag_defining_word {
        let ghost before = log.deep_view();
        log.push(Effect::Failure(ForthError::InvalidWord));
        assert(log.deep_view() =~= before.push(EffectModel::Failure(ForthError::InvalidWord)));
    }
    log
}

} // verus!
