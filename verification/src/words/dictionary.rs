//! The dictionary of user-defined words.

use vstd::prelude::*;
use std::rc::Rc;
use crate::forth_value::{ForthValue, ValueModel};
use crate::text::{same_text, to_upper_case, upper_case};
use crate::utils::get_copy_forth_value;

verus! {

/// The instructions a word stands for.
///
/// Bodies share their instructions. A definition takes a copy of the body
/// of every word it refers to, so bodies grow fast: a word made of two
/// copies of another, which is made of two copies of a third, and so on
/// for twenty-eight words, has 134 217 728 instructions, and the
/// twenty-eight bodies have twice as many between them. Held by value they
/// would take more than six gibibytes; as references they take two.
///
/// An instruction is never changed once it is part of a body, so a copy of
/// a body that shares its instructions is a copy by value: what becomes of
/// the body that was copied does not touch it.
pub type Body = Vec<Rc<ForthValue>>;

/// A word of the dictionary: its name and its body.
#[derive(Debug)]
struct Entry {
    name: String,
    body: Body,
}

/// The words defined so far, each under its name.
///
/// A name is looked up as it is given: whoever wants names to match
/// without regard to case brings them to upper case first, as
/// [`WordsDictionary::add_word`] does.
#[derive(Debug)]
pub struct WordsDictionary {
    entries: Vec<Entry>,
}

/// The map that a list of entries stands for. A later entry prevails over
/// an earlier one of the same name.
spec fn entries_map(entries: Seq<Entry>) -> Map<Seq<char>, Seq<ValueModel>>
    decreases entries.len(),
{
    if entries.len() == 0 {
        Map::empty()
    } else {
        entries_map(entries.drop_last()).insert(
            entries.last().name@,
            entries.last().body.deep_view(),
        )
    }
}

/// Whether no two entries bear the same name.
spec fn distinct_names(entries: Seq<Entry>) -> bool {
    forall|i: int, j: int|
        0 <= i < j < entries.len() ==> (#[trigger] entries[i]).name@ != (#[trigger] entries[j]).name@
}

/// The map of a list of entries has a finite domain, which holds exactly
/// the names of the entries.
proof fn lemma_entries_domain(entries: Seq<Entry>)
    ensures
        entries_map(entries).dom().finite(),
        forall|name: Seq<char>| #[trigger]
            entries_map(entries).contains_key(name) <==> exists|i: int|
                0 <= i < entries.len() && (#[trigger] entries[i]).name@ == name,
    decreases entries.len(),
{
    if entries.len() > 0 {
        let front = entries.drop_last();
        lemma_entries_domain(front);
        assert forall|name: Seq<char>| #[trigger]
            entries_map(entries).contains_key(name) <==> exists|i: int|
                0 <= i < entries.len() && (#[trigger] entries[i]).name@ == name by {
            if entries_map(entries).contains_key(name) {
                if name == entries.last().name@ {
                    assert(entries[entries.len() - 1].name@ == name);
                } else {
                    let i = choose|i: int| 0 <= i < front.len() && (#[trigger] front[i]).name@ == name;
                    assert(entries[i].name@ == name);
                }
            }
            if exists|i: int| 0 <= i < entries.len() && (#[trigger] entries[i]).name@ == name {
                let i = choose|i: int| 0 <= i < entries.len() && (#[trigger] entries[i]).name@ == name;
                if i < entries.len() - 1 {
                    assert(front[i].name@ == name);
                }
            }
        }
    }
}

/// Where names are distinct, each entry's name is mapped to its body.
proof fn lemma_entries_lookup(entries: Seq<Entry>, i: int)
    requires
        distinct_names(entries),
        0 <= i < entries.len(),
    ensures
        entries_map(entries).contains_key(entries[i].name@),
        entries_map(entries)[entries[i].name@] == entries[i].body.deep_view(),
    decreases entries.len(),
{
    if i < entries.len() - 1 {
        let front = entries.drop_last();
        assert(distinct_names(front)) by {
            assert forall|a: int, b: int| 0 <= a < b < front.len() implies (#[trigger] front[a]).name@
                != (#[trigger] front[b]).name@ by {
                assert(entries[a].name@ != entries[b].name@);
            }
        }
        lemma_entries_lookup(front, i);
        assert(front[i] == entries[i]);
        assert(entries[i].name@ != entries[entries.len() - 1].name@);
    }
}

/// Where names are distinct, giving one entry a new body gives its name
/// that body in the map and changes nothing else.
proof fn lemma_entries_replace(entries: Seq<Entry>, i: int, entry: Entry)
    requires
        distinct_names(entries),
        0 <= i < entries.len(),
        entry.name@ == entries[i].name@,
    ensures
        distinct_names(entries.update(i, entry)),
        entries_map(entries.update(i, entry)) == entries_map(entries).insert(
            entry.name@,
            entry.body.deep_view(),
        ),
    decreases entries.len(),
{
    let after = entries.update(i, entry);
    assert(distinct_names(after)) by {
        assert forall|a: int, b: int| 0 <= a < b < after.len() implies (#[trigger] after[a]).name@
            != (#[trigger] after[b]).name@ by {
            assert(entries[a].name@ != entries[b].name@);
        }
    }
    let front = entries.drop_last();
    if i == entries.len() - 1 {
        assert(after.drop_last() =~= front);
        assert(entries_map(after) =~= entries_map(entries).insert(
            entry.name@,
            entry.body.deep_view(),
        ));
    } else {
        assert(distinct_names(front)) by {
            assert forall|a: int, b: int| 0 <= a < b < front.len() implies (#[trigger] front[a]).name@
                != (#[trigger] front[b]).name@ by {
                assert(entries[a].name@ != entries[b].name@);
            }
        }
        lemma_entries_replace(front, i, entry);
        assert(after.drop_last() =~= front.update(i, entry));
        assert(after.last() == entries.last());
        assert(entries[i].name@ != entries[entries.len() - 1].name@);
        assert(entries_map(after) =~= entries_map(entries).insert(
            entry.name@,
            entry.body.deep_view(),
        ));
    }
}

/// The body of the entry at position `i`, to be changed in place.
fn body_mut(entries: &mut Vec<Entry>, i: usize) -> (body: &mut Body)
    requires
        i < old(entries)@.len(),
    ensures
        *body == old(entries)@[i as int].body,
        final(entries)@ == old(entries)@.update(
            i as int,
            Entry { name: old(entries)@[i as int].name, body: *final(body) },
        ),
    no_unwind
{
    &mut entries[i].body
}

impl View for WordsDictionary {
    type V = Map<Seq<char>, Seq<ValueModel>>;

    closed spec fn view(&self) -> Map<Seq<char>, Seq<ValueModel>> {
        entries_map(self.entries@)
    }
}

impl Default for WordsDictionary {
    /// A dictionary without words.
    fn default() -> (dictionary: Self)
        ensures
            dictionary@ == Map::<Seq<char>, Seq<ValueModel>>::empty(),
    {
        WordsDictionary::new()
    }
}

impl WordsDictionary {
    #[verifier::type_invariant]
    spec fn names_are_distinct(&self) -> bool {
        distinct_names(self.entries@)
    }

    /// A dictionary always holds finitely many words.
    pub proof fn lemma_finite(&self)
        ensures
            self@.dom().finite(),
    {
        lemma_entries_domain(self.entries@);
    }

    /// A dictionary without words.
    pub fn new() -> (dictionary: Self)
        ensures
            dictionary@ == Map::<Seq<char>, Seq<ValueModel>>::empty(),
    {
        WordsDictionary { entries: Vec::new() }
    }

    /// The position of the entry named `name`, if there is one.
    fn position(&self, name: &str) -> (found: Option<usize>)
        ensures
            match found {
                Some(i) => i < self.entries@.len() && self.entries@[i as int].name@ == name@,
                None => !self@.contains_key(name@),
            },
    {
        let mut i: usize = 0;
        while i < self.entries.len()
            invariant
                i <= self.entries@.len(),
                forall|j: int| 0 <= j < i ==> (#[trigger] self.entries@[j]).name@ != name@,
            decreases self.entries@.len() - i,
        {
            if same_text(self.entries[i].name.as_str(), name) {
                return Some(i);
            }
            i += 1;
        }
        proof {
            lemma_entries_domain(self.entries@);
        }
        None
    }

    /// Whether a word is defined under exactly the name `name`.
    pub fn word_already_defined(&self, name: &str) -> (defined: bool)
        ensures
            defined == self@.contains_key(name@),
    {
        match self.position(name) {
            Some(i) => {
                proof {
                    use_type_invariant(self);
                    lemma_entries_lookup(self.entries@, i as int);
                }
                true
            },
            None => false,
        }
    }

    /// The body of the word defined under exactly the name `name`, if
    /// there is one.
    pub fn get_word(&self, name: &str) -> (body: Option<&Body>)
        ensures
            match body {
                Some(body) => self@.contains_key(name@) && body.deep_view() == self@[name@],
                None => !self@.contains_key(name@),
            },
    {
        match self.position(name) {
            Some(i) => {
                proof {
                    use_type_invariant(self);
                    lemma_entries_lookup(self.entries@, i as int);
                }
                Some(&self.entries[i].body)
            },
            None => None,
        }
    }

    /// The body of the word defined under exactly the name `name`, if
    /// there is one, to be changed in place. What the caller makes of the
    /// body is what the dictionary holds for the word afterwards.
    pub fn get_word_mut(&mut self, name: &str) -> (body: Option<&mut Body>)
        ensures
            match body {
                Some(body) => {
                    &&& old(self)@.contains_key(name@)
                    &&& body.deep_view() == old(self)@[name@]
                    &&& final(self)@ == old(self)@.insert(name@, final(body).deep_view())
                },
                None => !old(self)@.contains_key(name@) && final(self)@ == old(self)@,
            },
    {
        match self.position(name) {
            Some(i) => {
                proof {
                    use_type_invariant(&*self);
                    lemma_entries_lookup(self.entries@, i as int);
                    assert forall|entry: Entry| entry.name@ == self.entries@[i as int].name@ implies
                        distinct_names(#[trigger] self.entries@.update(i as int, entry))
                        && entries_map(self.entries@.update(i as int, entry)) == entries_map(
                        self.entries@,
                    ).insert(entry.name@, entry.body.deep_view()) by {
                        lemma_entries_replace(self.entries@, i as int, entry);
                    }
                }
                Some(body_mut(&mut self.entries, i))
            },
            None => None,
        }
    }

    /// Defines the word `name` as `definition`, in place of an earlier
    /// definition if there is one. The word is kept under the upper-case form
    /// of its name.
    pub fn add_word(&mut self, name: &str, definition: Vec<ForthValue>)
        ensures
            final(self)@ == old(self)@.insert(upper_case(name@), definition.deep_view()),
    {
        let mut body: Body = Vec::new();
        let mut i: usize = 0;
        assert(body.deep_view() =~= definition.deep_view().take(0));
        while i < definition.len()
            invariant
                i <= definition@.len(),
                body.deep_view() == definition.deep_view().take(i as int),
            decreases definition@.len() - i,
        {
            let ghost shorter = body.deep_view();
            let value = Rc::new(get_copy_forth_value(&definition[i]));
            body.push(value);
            assert(body.deep_view() =~= shorter.push(value@));
            assert(definition.deep_view().take(i + 1) =~= shorter.push(definition@[i as int]@));
            i += 1;
        }
        assert(definition.deep_view().take(i as int) =~= definition.deep_view());
        self.insert_word(to_upper_case(name), body);
    }

    /// Stores `definition` under `key`, in place of what was there.
    pub fn insert_word(&mut self, key: String, definition: Body)
        ensures
            final(self)@ == old(self)@.insert(key@, definition.deep_view()),
    {
        let entry = Entry { name: key, body: definition };
        // The entries leave the dictionary while they change, so that it
        // holds distinct names at every moment at which it can be seen.
        match self.position(entry.name.as_str()) {
            Some(i) => {
                proof {
                    use_type_invariant(&*self);
                    lemma_entries_replace(self.entries@, i as int, entry);
                }
                let mut entries: Vec<Entry> = Vec::new();
                std::mem::swap(&mut self.entries, &mut entries);
                entries[i] = entry;
                std::mem::swap(&mut self.entries, &mut entries);
            },
            None => {
                proof {
                    use_type_invariant(&*self);
                    lemma_entries_domain(self.entries@);
                    assert(self.entries@.push(entry).drop_last() =~= self.entries@);
                    assert(distinct_names(self.entries@.push(entry)));
                }
                let mut entries: Vec<Entry> = Vec::new();
                std::mem::swap(&mut self.entries, &mut entries);
                entries.push(entry);
                std::mem::swap(&mut self.entries, &mut entries);
            },
        }
    }
}

} // verus!
