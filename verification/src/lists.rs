//! Lists: what is kept of them, and what they come to one after the other.
use vstd::prelude::*;

verus! {

/// One item more is kept, or it is not.
pub proof fn lemma_kept_next<A, B>(s: Seq<A>, f: spec_fn(A) -> Option<B>, n: int)
    requires
        0 <= n < s.len(),
    ensures
        s.take(n + 1).filter_map(f) == (match f(s[n]) {
            Some(b) => s.take(n).filter_map(f).push(b),
            None => s.take(n).filter_map(f),
        }),
{
    s.lemma_filter_map_take_succ(f, n);
}

/// What is kept of a list is what its items are kept as.
pub proof fn lemma_kept_has<A, B>(s: Seq<A>, f: spec_fn(A) -> Option<B>, b: B)
    ensures
        s.filter_map(f).contains(b) <==> exists|i: int|
            0 <= i < s.len() && f(#[trigger] s[i]) == Some(b),
    decreases s.len(),
{
    if s.len() > 0 {
        let front = s.drop_last();
        lemma_kept_has(front, f, b);
        let kept = front.filter_map(f);
        let all = s.filter_map(f);
        if all.contains(b) {
            let k = choose|k: int| 0 <= k < all.len() && all[k] == b;
            if k < kept.len() {
                assert(kept[k] == b);
                assert(kept.contains(b));
                let i = choose|i: int| 0 <= i < front.len() && f(#[trigger] front[i]) == Some(b);
                assert(s[i] == front[i]);
            } else {
                assert(f(s[s.len() - 1]) == Some(b));
            }
        }
        if exists|i: int| 0 <= i < s.len() && f(#[trigger] s[i]) == Some(b) {
            let i = choose|i: int| 0 <= i < s.len() && f(#[trigger] s[i]) == Some(b);
            if i < front.len() {
                assert(front[i] == s[i]);
                let k = choose|k: int| 0 <= k < kept.len() && kept[k] == b;
                assert(all[k] == b);
            } else {
                assert(all[all.len() - 1] == b);
            }
        }
    }
}

/// Nothing is kept of a list none of whose items is.
pub proof fn lemma_nothing_kept<A, B>(s: Seq<A>, f: spec_fn(A) -> Option<B>)
    ensures
        s.filter_map(f).len() == 0 <==> forall|i: int|
            0 <= i < s.len() ==> f(#[trigger] s[i]) is None,
    decreases s.len(),
{
    if s.len() > 0 {
        let front = s.drop_last();
        lemma_nothing_kept(front, f);
        if s.filter_map(f).len() == 0 {
            assert forall|i: int| 0 <= i < s.len() implies f(#[trigger] s[i]) is None by {
                if i < front.len() {
                    assert(front[i] == s[i]);
                }
            }
        }
        if forall|i: int| 0 <= i < s.len() ==> f(#[trigger] s[i]) is None {
            assert forall|i: int| 0 <= i < front.len() implies f(#[trigger] front[i]) is None by {
                assert(front[i] == s[i]);
            }
            assert(f(s[s.len() - 1]) is None);
        }
    }
}

/// One list more is put behind the others.
pub proof fn lemma_flat_next<A>(s: Seq<Seq<A>>, n: int)
    requires
        0 <= n < s.len(),
    ensures
        s.take(n + 1).flatten() == s.take(n).flatten() + s[n],
{
    s.take(n).lemma_flatten_push(s[n]);
    assert(s.take(n + 1) =~= s.take(n).push(s[n]));
}

/// What stands in one of some lists stands in all of them together.
pub proof fn lemma_flat_has<A>(s: Seq<Seq<A>>, x: A)
    ensures
        s.flatten().contains(x) <==> exists|i: int| 0 <= i < s.len() && (#[trigger] s[i]).contains(x),
    decreases s.len(),
{
    if s.len() > 0 {
        let front = s.drop_last();
        lemma_flat_has(front, x);
        front.lemma_flatten_push(s.last());
        assert(front.push(s.last()) =~= s);
        let before = front.flatten();
        let all = s.flatten();
        assert(all == before + s.last());
        if all.contains(x) {
            let k = choose|k: int| 0 <= k < all.len() && all[k] == x;
            if k < before.len() {
                assert(before[k] == x);
                assert(before.contains(x));
                let i = choose|i: int| 0 <= i < front.len() && (#[trigger] front[i]).contains(x);
                assert(s[i] == front[i]);
            } else {
                assert(s.last()[k - before.len()] == x);
                assert(s[s.len() - 1].contains(x));
            }
        }
        if exists|i: int| 0 <= i < s.len() && (#[trigger] s[i]).contains(x) {
            let i = choose|i: int| 0 <= i < s.len() && (#[trigger] s[i]).contains(x);
            if i < front.len() {
                assert(front[i] == s[i]);
                let k = choose|k: int| 0 <= k < before.len() && before[k] == x;
                assert(all[k] == x);
            } else {
                let k = choose|k: int| 0 <= k < s.last().len() && s.last()[k] == x;
                assert(all[before.len() + k] == x);
            }
        }
    } else {
        assert(s.flatten() =~= Seq::<A>::empty());
    }
}

/// What is pushed, or was there before, stands in a list.
pub broadcast proof fn push_has<A>(s: Seq<A>, x: A, y: A)
    ensures
        #[trigger] s.push(x).contains(y) <==> s.contains(y) || x == y,
{
    let t = s.push(x);
    if t.contains(y) {
        let i = choose|i: int| 0 <= i < t.len() && t[i] == y;
        if i < s.len() {
            assert(s[i] == y);
        }
    }
    if s.contains(y) {
        let i = choose|i: int| 0 <= i < s.len() && s[i] == y;
        assert(t[i] == y);
    }
    assert(t[s.len() as int] == x);
}

/// What stands in one list behind the other stands in one of them.
pub proof fn lemma_both_have<A>(a: Seq<A>, b: Seq<A>, x: A)
    ensures
        (a + b).contains(x) <==> a.contains(x) || b.contains(x),
{
    let t = a + b;
    if t.contains(x) {
        let k = choose|k: int| 0 <= k < t.len() && t[k] == x;
        if k < a.len() {
            assert(a[k] == x);
        } else {
            assert(b[k - a.len()] == x);
        }
    }
    if a.contains(x) {
        let k = choose|k: int| 0 <= k < a.len() && a[k] == x;
        assert(t[k] == x);
    }
    if b.contains(x) {
        let k = choose|k: int| 0 <= k < b.len() && b[k] == x;
        assert(t[a.len() + k] == x);
    }
}

/// Three lists behind each other are the same however they are put together.
pub proof fn lemma_in_a_row<A>(a: Seq<A>, b: Seq<A>, c: Seq<A>)
    ensures
        (a + b) + c == a + (b + c),
{
    assert((a + b) + c =~= a + (b + c));
}

} // verus!
