//! Ordering by key.
use crate::text::{is_before, text_before, texts, texts_push};
use vstd::prelude::*;

verus! {

/// What an item is ordered by: two numbers, then its identifier.
pub struct SortKey {
    pub major: i64,
    pub minor: i64,
    pub id: String,
}

#[verifier::ext_equal]
pub struct KeyView {
    pub major: int,
    pub minor: int,
    pub id: Seq<char>,
}

impl View for SortKey {
    type V = KeyView;

    open spec fn view(&self) -> KeyView {
        KeyView { major: self.major as int, minor: self.minor as int, id: self.id@ }
    }
}

pub open spec fn key_views(keys: Seq<SortKey>) -> Seq<KeyView> {
    keys.map_values(|k: SortKey| k@)
}

/// Key `a` comes strictly before key `b`.
pub open spec fn key_before(a: KeyView, b: KeyView) -> bool {
    a.major < b.major || (a.major == b.major && (a.minor < b.minor || (a.minor == b.minor
        && text_before(a.id, b.id))))
}

fn key_is_before(a: &SortKey, b: &SortKey) -> (r: bool)
    ensures
        r == key_before(a@, b@),
{
    a.major < b.major || (a.major == b.major && (a.minor < b.minor || (a.minor == b.minor
        && is_before(a.id.as_str(), b.id.as_str()))))
}

/// Where, from position `from` on, an item with key `k` belongs: before the
/// first item that it precedes.
pub open spec fn place(keys: Seq<KeyView>, order: Seq<int>, k: KeyView, from: nat) -> nat
    decreases order.len() - from,
{
    if from >= order.len() || key_before(k, keys[order[from as int]]) {
        from
    } else {
        place(keys, order, k, from + 1)
    }
}

/// The positions of the first `n` items in ascending order of their keys;
/// items with equal keys keep their order.
pub open spec fn sorted_order(keys: Seq<KeyView>, n: nat) -> Seq<int>
    decreases n,
{
    if n == 0 {
        Seq::empty()
    } else {
        let before = sorted_order(keys, (n - 1) as nat);
        before.insert(place(keys, before, keys[n - 1], 0) as int, n - 1)
    }
}

pub open spec fn positions(order: Seq<usize>) -> Seq<int> {
    order.map_values(|i: usize| i as int)
}

/// The positions of the items in ascending order of their keys.
pub fn order_of(keys: &Vec<SortKey>) -> (out: Vec<usize>)
    ensures
        positions(out@) == sorted_order(key_views(keys@), keys@.len()),
        out@.len() == keys@.len(),
        forall|i: int| 0 <= i < out@.len() ==> #[trigger] out@[i] < keys@.len(),
{
    let ghost views = key_views(keys@);
    let mut out: Vec<usize> = Vec::new();
    let mut n: usize = 0;
    assert(positions(out@) =~= Seq::<int>::empty());
    while n < keys.len()
        invariant
            n <= keys@.len(),
            views == key_views(keys@),
            positions(out@) == sorted_order(views, n as nat),
            out@.len() == n,
            forall|i: int| 0 <= i < out@.len() ==> #[trigger] out@[i] < n,
        decreases keys@.len() - n,
    {
        let mut at: usize = 0;
        while at < out.len() && !key_is_before(&keys[n], &keys[out[at]])
            invariant
                n < keys@.len(),
                at <= out@.len(),
                out@.len() == n,
                views == key_views(keys@),
                forall|i: int| 0 <= i < out@.len() ==> #[trigger] out@[i] < n,
                place(views, positions(out@), views[n as int], 0) == place(
                    views,
                    positions(out@),
                    views[n as int],
                    at as nat,
                ),
            decreases out@.len() - at,
        {
            assert(positions(out@)[at as int] == out@[at as int]);
            assert(views[out@[at as int] as int] == keys@[out@[at as int] as int]@);
            at += 1;
        }
        proof {
            if at < out@.len() {
                assert(positions(out@)[at as int] == out@[at as int]);
                assert(views[out@[at as int] as int] == keys@[out@[at as int] as int]@);
            }
        }
        let ghost before = out@;
        out.insert(at, n);
        assert(positions(out@) =~= positions(before).insert(at as int, n as int));
        assert forall|i: int| 0 <= i < out@.len() implies #[trigger] out@[i] < n + 1 by {
            if i < at {
                assert(out@[i] == before[i]);
            } else if i > at {
                assert(out@[i] == before[i - 1]);
            }
        }
        n += 1;
    }
    out
}

pub proof fn lemma_text_before_irreflexive(a: Seq<char>)
    ensures
        !text_before(a, a),
    decreases a.len(),
{
    if a.len() > 0 {
        lemma_text_before_irreflexive(a.drop_first());
    }
}

pub proof fn lemma_text_before_transitive(a: Seq<char>, b: Seq<char>, c: Seq<char>)
    requires
        text_before(a, b),
        text_before(b, c),
    ensures
        text_before(a, c),
    decreases a.len(),
{
    if a.len() > 0 && a[0] == b[0] && b[0] == c[0] {
        lemma_text_before_transitive(a.drop_first(), b.drop_first(), c.drop_first());
    }
}

/// Different characters have different code points.
proof fn lemma_char_code(a: char, b: char)
    ensures
        a as u32 == b as u32 ==> a == b,
{
}

pub proof fn lemma_text_before_total(a: Seq<char>, b: Seq<char>)
    ensures
        text_before(a, b) || text_before(b, a) || a == b,
    decreases a.len(),
{
    if a.len() == 0 || b.len() == 0 {
        if a.len() == 0 && b.len() == 0 {
            assert(a =~= b);
        }
    } else if a[0] == b[0] {
        lemma_text_before_total(a.drop_first(), b.drop_first());
        if a.drop_first() == b.drop_first() {
            assert(a =~= seq![a[0]] + a.drop_first());
            assert(b =~= seq![b[0]] + b.drop_first());
        }
    } else {
        lemma_char_code(a[0], b[0]);
    }
}

/// Not coming after is transitive.
proof fn lemma_key_order(a: KeyView, b: KeyView, c: KeyView)
    requires
        !key_before(b, a),
        !key_before(c, b),
    ensures
        !key_before(c, a),
{
    lemma_text_before_total(a.id, b.id);
    lemma_text_before_total(b.id, c.id);
    lemma_text_before_irreflexive(a.id);
    if text_before(c.id, a.id) {
        if text_before(a.id, b.id) {
            lemma_text_before_transitive(c.id, a.id, b.id);
        }
        if text_before(b.id, c.id) {
            lemma_text_before_transitive(b.id, c.id, a.id);
        }
    }
}

/// Nothing in the order comes after what follows it, and equal keys keep
/// their positions.
pub open spec fn is_ascending(keys: Seq<KeyView>, order: Seq<int>) -> bool {
    forall|i: int, j: int|
        0 <= i < j < order.len() ==> {
            &&& !key_before(keys[#[trigger] order[j]], keys[#[trigger] order[i]])
            &&& !key_before(keys[order[i]], keys[order[j]]) ==> order[i] < order[j]
        }
}

proof fn lemma_place(keys: Seq<KeyView>, order: Seq<int>, k: KeyView, from: nat)
    requires
        from <= order.len(),
    ensures
        from <= place(keys, order, k, from) <= order.len(),
        forall|i: int|
            from <= i < place(keys, order, k, from) ==> !key_before(k, keys[#[trigger] order[i]]),
        place(keys, order, k, from) < order.len() ==> key_before(
            k,
            keys[order[place(keys, order, k, from) as int]],
        ),
    decreases order.len() - from,
{
    if from < order.len() && !key_before(k, keys[order[from as int]]) {
        lemma_place(keys, order, k, from + 1);
    }
}

/// The order lists each of the positions below `n` exactly once, ascending by
/// key, with equal keys in their original order.
pub proof fn law_sorted_order(keys: Seq<KeyView>, n: nat)
    requires
        n <= keys.len(),
    ensures
        sorted_order(keys, n).len() == n,
        forall|i: int| 0 <= i < n ==> 0 <= #[trigger] sorted_order(keys, n)[i] < n,
        forall|i: int, j: int|
            0 <= i < j < n ==> #[trigger] sorted_order(keys, n)[i] != #[trigger] sorted_order(
                keys,
                n,
            )[j],
        is_ascending(keys, sorted_order(keys, n)),
    decreases n,
{
    if n > 0 {
        let before = sorted_order(keys, (n - 1) as nat);
        let k = keys[n - 1];
        let at = place(keys, before, k, 0) as int;
        let after = sorted_order(keys, n);
        law_sorted_order(keys, (n - 1) as nat);
        lemma_place(keys, before, k, 0);
        assert(after.len() == n);
        assert(forall|i: int| 0 <= i < at ==> after[i] == before[i]);
        assert(after[at] == n - 1);
        assert(forall|i: int| at < i < n ==> after[i] == before[i - 1]);
        assert forall|i: int| 0 <= i < n implies 0 <= #[trigger] after[i] < n by {
            if i < at {
                assert(after[i] == before[i]);
            } else if i > at {
                assert(after[i] == before[i - 1]);
            }
        }
        assert forall|i: int, j: int| 0 <= i < j < n implies {
            &&& #[trigger] after[i] != #[trigger] after[j]
            &&& !key_before(keys[after[j]], keys[after[i]])
            &&& !key_before(keys[after[i]], keys[after[j]]) ==> after[i] < after[j]
        } by {
            if j < at {
                assert(before[i] != before[j]);
            } else if i > at {
                assert(before[i - 1] != before[j - 1]);
            } else if i < at && j > at {
                assert(before[i] != before[j - 1]);
            } else if j == at {
                assert(before[i] < n - 1);
            } else {
                // i == at: what follows does not come before the key.
                assert(before[j - 1] < n - 1);
                assert(key_before(k, keys[before[at]]));
                assert(!key_before(keys[before[j - 1]], keys[before[at]])) by {
                    if at < j - 1 {
                        assert(before[at] != before[j - 1]);
                    } else {
                        lemma_text_before_irreflexive(keys[before[at]].id);
                    }
                }
                if !key_before(k, keys[before[j - 1]]) {
                    lemma_key_order(keys[before[at]], keys[before[j - 1]], k);
                    assert(false);
                }
                lemma_text_before_irreflexive(k.id);
                if key_before(keys[before[j - 1]], k) {
                    if text_before(k.id, keys[before[j - 1]].id) && text_before(
                        keys[before[j - 1]].id,
                        k.id,
                    ) {
                        lemma_text_before_transitive(k.id, keys[before[j - 1]].id, k.id);
                    }
                    assert(false);
                }
            }
        }
    }
}

/// What a text is ordered by: itself.
pub open spec fn text_key(s: Seq<char>) -> KeyView {
    KeyView { major: 0, minor: 0, id: s }
}

/// The texts in dictionary order.
pub open spec fn sorted_texts(list: Seq<Seq<char>>) -> Seq<Seq<char>> {
    let keys = list.map_values(|s: Seq<char>| text_key(s));
    sorted_order(keys, keys.len()).map_values(|i: int| list[i])
}

/// Sorts texts in dictionary order.
pub fn sort_texts(list: &Vec<String>) -> (out: Vec<String>)
    ensures
        texts(out@) == sorted_texts(texts(list@)),
{
    broadcast use texts_push;

    let ghost all = texts(list@);
    let ghost wanted = all.map_values(|s: Seq<char>| text_key(s));
    let mut keys: Vec<SortKey> = Vec::new();
    let mut i: usize = 0;
    while i < list.len()
        invariant
            i <= list@.len(),
            all == texts(list@),
            wanted == all.map_values(|s: Seq<char>| text_key(s)),
            keys@.len() == i,
            forall|j: int| 0 <= j < i ==> #[trigger] keys@[j]@ == wanted[j],
        decreases list@.len() - i,
    {
        keys.push(SortKey { major: 0, minor: 0, id: list[i].clone() });
        assert(keys@[i as int]@ =~= wanted[i as int]);
        i += 1;
    }
    assert(key_views(keys@) =~= wanted);
    let order: Vec<usize> = order_of(&keys);
    let ghost sorted = positions(order@).map_values(|i: int| all[i]);
    let mut out: Vec<String> = Vec::new();
    let mut n: usize = 0;
    assert(texts(out@) =~= sorted.take(0));
    while n < order.len()
        invariant
            n <= order@.len(),
            all == texts(list@),
            order@.len() == list@.len(),
            sorted == positions(order@).map_values(|i: int| all[i]),
            forall|j: int| 0 <= j < order@.len() ==> #[trigger] order@[j] < list@.len(),
            texts(out@) == sorted.take(n as int),
        decreases order@.len() - n,
    {
        let at: usize = order[n];
        assert(sorted[n as int] == all[at as int]);
        assert(all[at as int] == list@[at as int]@);
        out.push(list[at].clone());
        n += 1;
        assert(sorted.take(n as int) =~= sorted.take(n as int - 1).push(sorted[n as int - 1]));
    }
    assert(sorted.take(n as int) =~= sorted);
    out
}

/// Putting things in order loses none of them and adds none.
pub proof fn law_ordering_keeps_everything<A>(list: Seq<A>, keys: Seq<KeyView>, n: nat)
    requires
        n <= list.len(),
        keys.len() == list.len(),
    ensures
        sorted_order(keys, n).map_values(|i: int| list[i]).to_multiset() == list.take(
            n as int,
        ).to_multiset(),
    decreases n,
{
    if n > 0 {
        let before = sorted_order(keys, (n - 1) as nat);
        let at = place(keys, before, keys[n - 1], 0) as int;
        law_ordering_keeps_everything(list, keys, (n - 1) as nat);
        lemma_place(keys, before, keys[n - 1], 0);
        let placed = before.map_values(|i: int| list[i]);
        assert(sorted_order(keys, n).map_values(|i: int| list[i]) =~= placed.insert(
            at,
            list[n - 1],
        ));
        vstd::seq_lib::to_multiset_insert(placed, at, list[n - 1]);
        vstd::seq_lib::to_multiset_build(list.take(n - 1), list[n - 1]);
        assert(list.take(n as int) =~= list.take(n - 1).push(list[n - 1]));
    } else {
        assert(sorted_order(keys, 0).map_values(|i: int| list[i]) =~= Seq::<A>::empty());
        assert(list.take(0) =~= Seq::<A>::empty());
    }
}

/// Keys are told apart by their first number, then by their second, then by
/// their text.
pub proof fn law_what_comes_first(a: KeyView, b: KeyView)
    ensures
        a.major < b.major ==> key_before(a, b),
        a.major > b.major ==> !key_before(a, b),
        a.major == b.major && a.minor < b.minor ==> key_before(a, b),
        a.major == b.major && a.minor > b.minor ==> !key_before(a, b),
        a.major == b.major && a.minor == b.minor ==> key_before(a, b) == text_before(a.id, b.id),
{
}

/// Texts in dictionary order are the same texts, none before one that it comes
/// behind.
pub proof fn law_sorted_texts(list: Seq<Seq<char>>)
    ensures
        sorted_texts(list).to_multiset() == list.to_multiset(),
        sorted_texts(list).len() == list.len(),
        forall|i: int, j: int|
            0 <= i < j < list.len() ==> !text_before(
                #[trigger] sorted_texts(list)[j],
                #[trigger] sorted_texts(list)[i],
            ),
{
    let keys = list.map_values(|s: Seq<char>| text_key(s));
    law_ordering_keeps_everything(list, keys, keys.len());
    assert(list.take(keys.len() as int) =~= list);
    law_sorted_order(keys, keys.len());
    let order = sorted_order(keys, keys.len());
    assert forall|i: int, j: int| 0 <= i < j < list.len() implies !text_before(
        #[trigger] sorted_texts(list)[j],
        #[trigger] sorted_texts(list)[i],
    ) by {
        assert(!key_before(keys[order[j]], keys[order[i]]));
    }
}

} // verus!
