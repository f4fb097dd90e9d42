//! Tables keyed by a text, in the order of their keys.
use crate::text::{is_before, same_text};
use crate::text_set::{ascending, law_adding_keeps_order, lemma_slot, slot, with_text};
use vstd::prelude::*;

verus! {

/// The keys of a table.
pub open spec fn key_texts<V>(entries: Seq<(String, V)>) -> Seq<Seq<char>> {
    entries.map_values(|e: (String, V)| e.0@)
}

/// A table with an entry in it: the entry takes the place of the one with its
/// key, or stands where the order of the keys puts it.
pub open spec fn with_entry<V>(entries: Seq<(String, V)>, key: String, value: V) -> Seq<
    (String, V),
> {
    let at = slot(key_texts(entries), key@, 0) as int;
    if at < entries.len() && entries[at].0@ == key@ {
        entries.update(at, (key, value))
    } else {
        entries.insert(at, (key, value))
    }
}

/// A table whose keys are texts in dictionary order, none twice.
#[derive(Debug, PartialEq)]
pub struct TextTable<V> {
    entries: Vec<(String, V)>,
}

impl<V> View for TextTable<V> {
    type V = Seq<(String, V)>;

    closed spec fn view(&self) -> Seq<(String, V)> {
        self.entries@
    }
}

impl<V> TextTable<V> {
    #[verifier::type_invariant]
    pub open spec fn well_formed(&self) -> bool {
        ascending(key_texts(self@))
    }

    pub fn new() -> (out: TextTable<V>)
        ensures
            out@ == Seq::<(String, V)>::empty(),
    {
        TextTable { entries: Vec::new() }
    }

    pub fn len(&self) -> (n: usize)
        ensures
            n == self@.len(),
    {
        self.entries.len()
    }

    /// The entry at a position.
    pub fn entry(&self, i: usize) -> (out: &(String, V))
        requires
            i < self@.len(),
        ensures
            *out == self@[i as int],
    {
        &self.entries[i]
    }

    /// Where a key stands, or would stand.
    pub fn find(&self, key: &str) -> (at: usize)
        ensures
            at == slot(key_texts(self@), key@, 0),
            at <= self@.len(),
    {
        let ghost keys = key_texts(self@);
        let mut i: usize = 0;
        while i < self.entries.len() && is_before(self.entries[i].0.as_str(), key)
            invariant
                i <= self.entries@.len(),
                keys == key_texts(self.entries@),
                slot(keys, key@, 0) == slot(keys, key@, i as nat),
            decreases self.entries@.len() - i,
        {
            assert(keys[i as int] == self.entries@[i as int].0@);
            i += 1;
        }
        assert(i < self.entries@.len() ==> keys[i as int] == self.entries@[i as int].0@);
        i
    }

    /// Puts an entry into the table.
    pub fn insert(&mut self, key: String, value: V)
        ensures
            final(self)@ == with_entry(old(self)@, key, value),
    {
        proof {
            use_type_invariant(&*self);
        }
        let ghost before = self@;
        let ghost keys = key_texts(before);
        let i: usize = self.find(key.as_str());
        let mut entries: Vec<(String, V)> = Vec::new();
        std::mem::swap(&mut entries, &mut self.entries);
        assert(i < entries@.len() ==> keys[i as int] == entries@[i as int].0@);
        proof {
            law_adding_keeps_order(keys, key@);
        }
        if i < entries.len() && same_text(entries[i].0.as_str(), key.as_str()) {
            entries.set(i, (key, value));
            assert(key_texts(entries@) =~= keys);
        } else {
            entries.insert(i, (key, value));
            assert(key_texts(entries@) =~= with_text(keys, key@));
        }
        self.entries = entries;
    }
}

/// A table with an entry in it holds the entry, one entry for its key, and every
/// other entry that it held.
pub proof fn law_entries_of_a_table<V>(
    entries: Seq<(String, V)>,
    key: String,
    value: V,
    other: (String, V),
)
    requires
        ascending(key_texts(entries)),
    ensures
        with_entry(entries, key, value).contains((key, value)),
        other.0@ != key@ ==> with_entry(entries, key, value).contains(other) == entries.contains(
            other,
        ),
        key_texts(with_entry(entries, key, value)) == with_text(key_texts(entries), key@),
        ascending(key_texts(with_entry(entries, key, value))),
{
    let keys = key_texts(entries);
    let at = slot(keys, key@, 0) as int;
    let now = with_entry(entries, key, value);
    lemma_slot(keys, key@, 0);
    law_adding_keeps_order(keys, key@);
    assert(now[at] == (key, value));
    if at < entries.len() && entries[at].0@ == key@ {
        assert(keys[at] == key@);
        assert(key_texts(now) =~= keys);
        if entries.contains(other) && other.0@ != key@ {
            let i = choose|i: int| 0 <= i < entries.len() && entries[i] == other;
            assert(now[i] == other);
        }
        if now.contains(other) && other.0@ != key@ {
            let i = choose|i: int| 0 <= i < now.len() && now[i] == other;
            assert(entries[i] == other);
        }
    } else {
        assert(at < entries.len() ==> keys[at] == entries[at].0@);
        assert(key_texts(now) =~= keys.insert(at, key@));
        if entries.contains(other) {
            let i = choose|i: int| 0 <= i < entries.len() && entries[i] == other;
            if i < at {
                assert(now[i] == other);
            } else {
                assert(now[i + 1] == other);
            }
        }
        if now.contains(other) && other.0@ != key@ {
            let i = choose|i: int| 0 <= i < now.len() && now[i] == other;
            if i < at {
                assert(entries[i] == other);
            } else {
                assert(entries[i - 1] == other);
            }
        }
    }
}

} // verus!
