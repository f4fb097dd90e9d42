//! Lists of texts in dictionary order.
use crate::order::{
    lemma_text_before_irreflexive, lemma_text_before_total, lemma_text_before_transitive,
};
use crate::text::{is_before, text_before, texts};
use vstd::prelude::*;

verus! {

/// Texts in dictionary order, none twice.
pub open spec fn ascending(list: Seq<Seq<char>>) -> bool {
    forall|i: int, j: int|
        0 <= i < j < list.len() ==> text_before(#[trigger] list[i], #[trigger] list[j])
}

/// Where a text stands, or would stand, in a list in dictionary order.
pub open spec fn slot(list: Seq<Seq<char>>, s: Seq<char>, from: nat) -> nat
    decreases list.len() - from,
{
    if from >= list.len() || !text_before(list[from as int], s) {
        from
    } else {
        slot(list, s, from + 1)
    }
}

/// A list in dictionary order with a text in it.
pub open spec fn with_text(list: Seq<Seq<char>>, s: Seq<char>) -> Seq<Seq<char>> {
    let at = slot(list, s, 0) as int;
    if at < list.len() && list[at] == s {
        list
    } else {
        list.insert(at, s)
    }
}

/// A list in dictionary order without a text.
pub open spec fn without_text(list: Seq<Seq<char>>, s: Seq<char>) -> Seq<Seq<char>> {
    let at = slot(list, s, 0) as int;
    if at < list.len() && list[at] == s {
        list.remove(at)
    } else {
        list
    }
}

/// Where a text stands, or would stand, in a list in dictionary order.
pub fn find_slot(list: &Vec<String>, s: &str) -> (out: usize)
    ensures
        out == slot(texts(list@), s@, 0),
        out <= list@.len(),
{
    let ghost views = texts(list@);
    let mut i: usize = 0;
    assert(views.len() == list@.len());
    while i < list.len() && is_before(list[i].as_str(), s)
        invariant
            i <= list@.len(),
            views == texts(list@),
            views.len() == list@.len(),
            slot(views, s@, 0) == slot(views, s@, i as nat),
        decreases list@.len() - i,
    {
        assert(views[i as int] == list@[i as int]@);
        i += 1;
    }
    if i < list.len() {
        assert(views[i as int] == list@[i as int]@);
    }
    i
}

pub proof fn lemma_slot(list: Seq<Seq<char>>, s: Seq<char>, from: nat)
    requires
        from <= list.len(),
    ensures
        from <= slot(list, s, from) <= list.len(),
        forall|i: int| from <= i < slot(list, s, from) ==> text_before(#[trigger] list[i], s),
        slot(list, s, from) < list.len() ==> !text_before(list[slot(list, s, from) as int], s),
    decreases list.len() - from,
{
    if from < list.len() && text_before(list[from as int], s) {
        lemma_slot(list, s, from + 1);
    }
}

/// A list in dictionary order stays so with one more text in it, and none is
/// there twice.
pub proof fn law_adding_keeps_order(list: Seq<Seq<char>>, s: Seq<char>)
    requires
        ascending(list),
    ensures
        ascending(with_text(list, s)),
        with_text(list, s).contains(s),
{
    let at = slot(list, s, 0) as int;
    lemma_slot(list, s, 0);
    if at < list.len() && list[at] == s {
        assert(with_text(list, s)[at] == s);
    } else {
        let now = list.insert(at, s);
        assert(now[at] == s);
        assert forall|i: int, j: int| 0 <= i < j < now.len() implies text_before(
            #[trigger] now[i],
            #[trigger] now[j],
        ) by {
            if j < at {
                assert(now[i] == list[i] && now[j] == list[j]);
            } else if j == at {
                assert(now[i] == list[i]);
            } else if i == at {
                assert(now[j] == list[j - 1]);
                lemma_text_before_total(list[at], s);
                if j - 1 > at {
                    lemma_text_before_transitive(s, list[at], list[j - 1]);
                }
            } else if i < at {
                assert(now[i] == list[i] && now[j] == list[j - 1]);
            } else {
                assert(now[i] == list[i - 1] && now[j] == list[j - 1]);
            }
        }
    }
}

/// What was taken away is gone, and everything else is still there.
pub proof fn law_taking_away_removes(list: Seq<Seq<char>>, s: Seq<char>, t: Seq<char>)
    requires
        ascending(list),
    ensures
        ascending(without_text(list, s)),
        !without_text(list, s).contains(s),
        t != s ==> without_text(list, s).contains(t) == list.contains(t),
{
    let at = slot(list, s, 0) as int;
    let now = without_text(list, s);
    lemma_slot(list, s, 0);
    lemma_text_before_irreflexive(s);
    if at < list.len() && list[at] == s {
        assert forall|i: int| 0 <= i < now.len() implies now[i] != s by {
            if i < at {
                assert(now[i] == list[i]);
            } else {
                assert(now[i] == list[i + 1]);
                assert(text_before(list[at], list[i + 1]));
            }
        }
        assert forall|i: int, j: int| 0 <= i < j < now.len() implies text_before(
            #[trigger] now[i],
            #[trigger] now[j],
        ) by {
            let a = if i < at {
                i
            } else {
                i + 1
            };
            let b = if j < at {
                j
            } else {
                j + 1
            };
            assert(now[i] == list[a] && now[j] == list[b]);
        }
        if t != s {
            if list.contains(t) {
                let i = choose|i: int| 0 <= i < list.len() && list[i] == t;
                if i < at {
                    assert(now[i] == t);
                } else {
                    assert(now[i - 1] == t);
                }
            }
            if now.contains(t) {
                let i = choose|i: int| 0 <= i < now.len() && now[i] == t;
                if i < at {
                    assert(list[i] == t);
                } else {
                    assert(list[i + 1] == t);
                }
            }
        }
    } else {
        assert forall|i: int| 0 <= i < list.len() implies list[i] != s by {
            if i < at {
                assert(text_before(list[i], s));
            } else if i > at {
                lemma_text_before_total(list[at], s);
                assert(text_before(list[at], list[i]));
            }
        }
    }
}

/// Adding a text adds that one only: every other is there exactly where it was.
pub proof fn law_adding_adds_one(list: Seq<Seq<char>>, s: Seq<char>, t: Seq<char>)
    ensures
        t != s ==> with_text(list, s).contains(t) == list.contains(t),
        with_text(list, s) != list ==> with_text(list, s).to_multiset() == list.to_multiset().insert(
            s,
        ),
{
    let at = slot(list, s, 0) as int;
    lemma_slot(list, s, 0);
    let now = list.insert(at, s);
    vstd::seq_lib::to_multiset_insert(list, at, s);
    if list.contains(t) {
        let i = choose|i: int| 0 <= i < list.len() && list[i] == t;
        if i < at {
            assert(now[i] == t);
        } else {
            assert(now[i + 1] == t);
        }
    }
    if t != s && now.contains(t) {
        let i = choose|i: int| 0 <= i < now.len() && now[i] == t;
        if i < at {
            assert(list[i] == t);
        } else {
            assert(list[i - 1] == t);
        }
    }
}

} // verus!
