//! Words as they appear in an instruction sequence, and the handling of
//! their definition and their call.

use vstd::prelude::*;
use std::rc::Rc;
use crate::errors::ForthError;
pub use crate::executions::handle_word_execution;
use crate::executions::Words;
use crate::forth_value::{ForthValue, ValueModel};
use crate::text::{number_spec, parse_number, same_text, to_upper_case, upper_case};
use crate::utils::get_copy_forth_value;
use crate::words::dictionary::{Body, WordsDictionary};

verus! {

/// What a token that concerns words resolves to.
#[derive(Debug)]
pub enum ForthWord {
    /// A reference to the word of this name; the name is in upper case.
    Start(String),
    /// The marker `:` that opens a definition.
    Definition,
    /// The marker `;` that closes a definition.
    End,
}

/// The mathematical value of a [`ForthWord`].
pub enum WordModel {
    Start(Seq<char>),
    Definition,
    End,
}

impl View for ForthWord {
    type V = WordModel;

    open spec fn view(&self) -> WordModel {
        match self {
            ForthWord::Start(name) => WordModel::Start(name@),
            ForthWord::Definition => WordModel::Definition,
            ForthWord::End => WordModel::End,
        }
    }
}

impl DeepView for ForthWord {
    type V = WordModel;

    open spec fn deep_view(&self) -> WordModel {
        self@
    }
}

/// The marker that `token` is, if it is one.
pub open spec fn marker_token(token: Seq<char>) -> Option<WordModel> {
    if token == ":"@ {
        Some(WordModel::Definition)
    } else if token == ";"@ {
        Some(WordModel::End)
    } else {
        None
    }
}

/// Reads `token` as one of the markers `:` and `;`.
pub fn parse_word(token: &str) -> (value: Option<ForthValue>)
    ensures
        value.deep_view() == match marker_token(token@) {
            Some(marker) => Some(ValueModel::Word(marker)),
            None => None,
        },
{
    if same_text(token, ":") {
        Some(ForthValue::Word(ForthWord::Definition))
    } else if same_text(token, ";") {
        Some(ForthValue::Word(ForthWord::End))
    } else {
        None
    }
}

/// Opens a definition at the marker `:` that stands at position `i` of
/// `tokens`, which must be a position of `tokens`.
///
/// The token after the marker becomes the name of the word, the body
/// collected so far is emptied, and `i` moves on to the name. This fails
/// with `InvalidWord`, and changes nothing, when a definition is already
/// open, when no token follows the marker, and when the token that
/// follows writes a number.
pub fn handle_word_definition(
    tokens: &[String],
    i: &mut usize,
    flag: &mut bool,
    name: &mut String,
    definition: &mut Vec<ForthValue>,
) -> (result: Result<(), ForthError>)
    requires
        *old(i) < tokens@.len(),
    ensures
        result is Ok <==> !*old(flag) && *old(i) + 1 < tokens@.len() && number_spec(
            tokens.deep_view()[*old(i) + 1],
        ) is None,
        result is Err ==> result == Err::<(), ForthError>(ForthError::InvalidWord),
        result is Ok ==> {
            &&& *final(flag)
            &&& *final(i) == *old(i) + 1
            &&& final(name)@ == tokens.deep_view()[*old(i) + 1]
            &&& final(definition)@.len() == 0
        },
        result is Err ==> {
            &&& *final(flag) == *old(flag)
            &&& *final(i) == *old(i)
            &&& *final(name) == *old(name)
            &&& *final(definition) == *old(definition)
        },
{
    if *flag {
        return Err(ForthError::InvalidWord);
    }
    let n = tokens.len();
    if *i + 1 >= n {
        return Err(ForthError::InvalidWord);
    }
    let word_name = &tokens[*i + 1];
    if parse_number(word_name.as_str()).is_some() {
        return Err(ForthError::InvalidWord);
    }
    *flag = true;
    *name = word_name.clone();
    definition.clear();
    *i += 1;
    Ok(())
}

/// What a value of a body under definition becomes when the definition
/// is closed: the body of the word it refers to, if `words` holds that
/// word, and itself otherwise.
pub open spec fn expand_spec(value: ValueModel, words: Words) -> Seq<ValueModel> {
    match value {
        ValueModel::Word(WordModel::Start(name)) => if words.contains_key(name) {
            words[name]
        } else {
            seq![value]
        },
        _ => seq![value],
    }
}

/// The body that is stored for `body`: every reference to a word that
/// `words` holds is replaced by a copy of that word's body as it is now;
/// every other value stays.
pub open spec fn inline_spec(body: Seq<ValueModel>, words: Words) -> Seq<ValueModel>
    decreases body.len(),
{
    if body.len() == 0 {
        Seq::empty()
    } else {
        inline_spec(body.drop_last(), words) + expand_spec(body.last(), words)
    }
}

/// Whether `body` holds neither of the markers `:` and `;`.
pub open spec fn marker_free(body: Seq<ValueModel>) -> bool {
    forall|i: int| 0 <= i < body.len() ==> !(#[trigger] body[i]).is_marker()
}

/// Whether no body of `words` holds a marker.
pub open spec fn bodies_marker_free(words: Words) -> bool {
    forall|name: Seq<char>| words.contains_key(name) ==> marker_free(#[trigger] words[name])
}

/// A body without markers, closed while no body of `words` holds a
/// marker, is stored without markers.
pub proof fn lemma_inline_marker_free(body: Seq<ValueModel>, words: Words)
    requires
        marker_free(body),
        bodies_marker_free(words),
    ensures
        marker_free(inline_spec(body, words)),
    decreases body.len(),
{
    if body.len() > 0 {
        let front = body.drop_last();
        assert forall|i: int| 0 <= i < front.len() implies !(#[trigger] front[i]).is_marker() by {
            assert(front[i] == body[i]);
        }
        lemma_inline_marker_free(front, words);
        let tail = expand_spec(body.last(), words);
        assert(!body[body.len() - 1].is_marker());
        assert(marker_free(tail));
        let stored = inline_spec(body, words);
        assert forall|i: int| 0 <= i < stored.len() implies !(#[trigger] stored[i]).is_marker() by {
            if i < inline_spec(front, words).len() {
                assert(stored[i] == inline_spec(front, words)[i]);
            } else {
                assert(stored[i] == tail[i - inline_spec(front, words).len()]);
            }
        }
    }
}

/// The body that is stored for `definition`.
fn inline_definition(definition: &Vec<ForthValue>, dictionary: &WordsDictionary) -> (body: Body)
    ensures
        body.deep_view() == inline_spec(definition.deep_view(), dictionary@),
{
    let mut body: Body = Vec::new();
    let mut i: usize = 0;
    assert(body.deep_view() =~= inline_spec(definition.deep_view().take(0), dictionary@));
    while i < definition.len()
        invariant
            i <= definition@.len(),
            body.deep_view() == inline_spec(definition.deep_view().take(i as int), dictionary@),
        decreases definition@.len() - i,
    {
        let ghost before = body.deep_view();
        let ghost longer = definition.deep_view().take(i + 1);
        assert(longer.drop_last() =~= definition.deep_view().take(i as int));
        assert(longer.last() == definition@[i as int]@);
        let val = &definition[i];
        let mut inlined = false;
        if let ForthValue::Word(ForthWord::Start(word_name)) = val {
            if let Some(referenced_definition) = dictionary.get_word(word_name.as_str()) {
                let mut j: usize = 0;
                while j < referenced_definition.len()
                    invariant
                        j <= referenced_definition@.len(),
                        body.deep_view() == before + referenced_definition.deep_view().take(
                            j as int,
                        ),
                    decreases referenced_definition@.len() - j,
                {
                    let ghost shorter = body.deep_view();
                    let copy = Rc::clone(&referenced_definition[j]);
                    body.push(copy);
                    assert(body.deep_view() =~= shorter.push(copy@));
                    assert(referenced_definition.deep_view().take(j + 1)
                        =~= referenced_definition.deep_view().take(j as int).push(copy@));
                    j += 1;
                }
                assert(referenced_definition.deep_view().take(j as int)
                    =~= referenced_definition.deep_view());
                inlined = true;
            }
        }
        if !inlined {
            let copy = Rc::new(get_copy_forth_value(val));
            body.push(copy);
            assert(body.deep_view() =~= before.push(copy@));
            assert(before.push(copy@) =~= before + seq![val@]);
        }
        i += 1;
    }
    assert(definition.deep_view().take(i as int) =~= definition.deep_view());
    body
}

/// Closes the definition of the word `name` at the marker `;`.
///
/// With a definition open, the body collected in `definition` is stored
/// under the upper-case form of `name`, with the references to words that
/// the dictionary holds replaced by the bodies of those words; `definition`
/// is emptied and the definition is closed. With none open this fails with
/// `InvalidWord` and changes nothing.
pub fn handle_word_end(
    flag: &mut bool,
    name: &str,
    definition: &mut Vec<ForthValue>,
    dictionary: &mut WordsDictionary,
) -> (result: Result<(), ForthError>)
    ensures
        !*final(flag),
        *old(flag) ==> {
            &&& result is Ok
            &&& final(definition)@.len() == 0
            &&& final(dictionary)@ == old(dictionary)@.insert(
                upper_case(name@),
                inline_spec(old(definition).deep_view(), old(dictionary)@),
            )
        },
        !*old(flag) ==> {
            &&& result == Err::<(), ForthError>(ForthError::InvalidWord)
            &&& *final(definition) == *old(definition)
            &&& final(dictionary)@ == old(dictionary)@
        },
        marker_free(old(definition).deep_view()) && bodies_marker_free(old(dictionary)@)
            ==> bodies_marker_free(final(dictionary)@),
{
    proof {
        if marker_free(definition.deep_view()) && bodies_marker_free(dictionary@) {
            lemma_inline_marker_free(definition.deep_view(), dictionary@);
        }
    }
    if *flag {
        let final_definition = inline_definition(definition, dictionary);
        definition.clear();
        dictionary.insert_word(to_upper_case(name), final_definition);
        *flag = false;
        Ok(())
    } else {
        Err(ForthError::InvalidWord)
    }
}

} // verus!
