//! Maps keyed by a text.
use crate::text::same_text;
use vstd::prelude::*;

verus! {

/// What a list of keyed values says of each key: a later entry replaces an
/// earlier one.
pub open spec fn map_of<V: View>(entries: Seq<(String, V)>) -> Map<Seq<char>, V::V>
    decreases entries.len(),
{
    if entries.len() == 0 {
        Map::empty()
    } else {
        map_of(entries.drop_last()).insert(entries.last().0@, entries.last().1@)
    }
}

/// A map from texts to values.
pub struct TextMap<V> {
    entries: Vec<(String, V)>,
}

impl<V: View> View for TextMap<V> {
    type V = Map<Seq<char>, V::V>;

    closed spec fn view(&self) -> Map<Seq<char>, V::V> {
        map_of(self.entries@)
    }
}

impl<V: View> TextMap<V> {
    pub fn new() -> (out: TextMap<V>)
        ensures
            out@ == Map::<Seq<char>, V::V>::empty(),
    {
        TextMap { entries: Vec::new() }
    }

    pub fn insert(&mut self, key: String, value: V)
        ensures
            final(self)@ == old(self)@.insert(key@, value@),
    {
        let ghost before = self.entries@;
        self.entries.push((key, value));
        assert(self.entries@.drop_last() =~= before);
    }

    pub fn get(&self, key: &str) -> (out: Option<&V>)
        ensures
            match out {
                Some(v) => self@.contains_key(key@) && v@ == self@[key@],
                None => !self@.contains_key(key@),
            },
    {
        let mut n: usize = self.entries.len();
        assert(self.entries@.take(n as int) =~= self.entries@);
        while n > 0
            invariant
                n <= self.entries@.len(),
                self@ == map_of(self.entries@),
                self@.contains_key(key@) == map_of(self.entries@.take(n as int)).contains_key(key@),
                self@.contains_key(key@) ==> self@[key@] == map_of(
                    self.entries@.take(n as int),
                )[key@],
            decreases n,
        {
            assert(self.entries@.take(n as int).drop_last() =~= self.entries@.take(n as int - 1));
            n -= 1;
            if same_text(self.entries[n].0.as_str(), key) {
                return Some(&self.entries[n].1);
            }
        }
        None
    }
}

/// A map holds the keys of its entries, and under each of them the value of the
/// last entry that has it.
pub proof fn law_the_last_entry_counts<V: View>(entries: Seq<(String, V)>, key: Seq<char>, k: int)
    ensures
        map_of(entries).contains_key(key) <==> exists|i: int|
            0 <= i < entries.len() && (#[trigger] entries[i]).0@ == key,
        0 <= k < entries.len() && entries[k].0@ == key && (forall|i: int|
            k < i < entries.len() ==> (#[trigger] entries[i]).0@ != key) ==> map_of(entries)[key]
            == entries[k].1@,
    decreases entries.len(),
{
    if entries.len() > 0 {
        let front = entries.drop_last();
        law_the_last_entry_counts(front, key, k);
        assert forall|i: int| 0 <= i < front.len() implies #[trigger] front[i] == entries[i] by {}
        if map_of(entries).contains_key(key) {
            if entries.last().0@ == key {
                assert(entries[entries.len() - 1].0@ == key);
            } else {
                let i = choose|i: int| 0 <= i < front.len() && (#[trigger] front[i]).0@ == key;
                assert(entries[i].0@ == key);
            }
        }
        if exists|i: int| 0 <= i < entries.len() && (#[trigger] entries[i]).0@ == key {
            let i = choose|i: int| 0 <= i < entries.len() && (#[trigger] entries[i]).0@ == key;
            if i < front.len() {
                assert(front[i].0@ == key);
            }
        }
        assert(entries[entries.len() - 1] == entries.last());
    }
}

} // verus!
