//! A store of edges, kept in memory.
use crate::lists::lemma_kept_next;
use crate::text::same_text;
use crate::text_set::{ascending, slot, with_text};
use crate::text_table::{key_texts, TextTable};
use vstd::prelude::*;

verus! {

/// Why a store did not answer.
#[derive(Debug, Clone, PartialEq, Eq)]
pub enum LineageStoreError {
    /// The store has no address.
    Unconfigured,
    Unsupported(String),
}

/// Edges by key, in the order of the keys. An edge with the key of another is
/// merged into it: how, the caller says.
pub struct EmbeddedGraphStore<E> {
    table: TextTable<E>,
}

/// The keys of a store, and the edge that each of them has.
#[verifier::ext_equal]
pub struct StoreView<E> {
    pub keys: Seq<Seq<char>>,
    pub edges: Seq<E>,
}

impl<E> StoreView<E> {
    /// The keys are in dictionary order, none twice, and each has an edge.
    pub open spec fn wf(self) -> bool {
        ascending(self.keys) && self.keys.len() == self.edges.len()
    }

    /// Where a key stands, or would stand.
    pub open spec fn at(self, key: Seq<char>) -> int {
        slot(self.keys, key, 0) as int
    }

    pub open spec fn has(self, key: Seq<char>) -> bool {
        self.at(key) < self.keys.len() && self.keys[self.at(key)] == key
    }
}

impl<E> View for EmbeddedGraphStore<E> {
    type V = StoreView<E>;

    closed spec fn view(&self) -> StoreView<E> {
        StoreView {
            keys: key_texts(self.table@),
            edges: self.table@.map_values(|e: (String, E)| e.1),
        }
    }
}

/// The edges, among the first `n`, that fit.
pub open spec fn fitting<E>(edges: Seq<E>, fits: Seq<bool>, n: nat) -> Seq<E>
    decreases n,
{
    if n == 0 {
        Seq::empty()
    } else if fits[n - 1] {
        fitting(edges, fits, (n - 1) as nat).push(edges[n - 1])
    } else {
        fitting(edges, fits, (n - 1) as nat)
    }
}

/// No more than a number of edges.
pub open spec fn up_to<E>(edges: Seq<E>, limit: Option<u64>) -> Seq<E> {
    match limit {
        Some(l) => if edges.len() <= l as usize {
            edges
        } else {
            edges.take((l as usize) as int)
        },
        None => edges,
    }
}

/// Each edge of a list is a clone of that of another.
pub open spec fn all_cloned<E: Clone>(from: Seq<E>, to: Seq<E>) -> bool {
    from.len() == to.len() && forall|i: int|
        0 <= i < from.len() ==> cloned(#[trigger] from[i], to[i])
}

/// Which edges a test lets through.
pub open spec fn tested<E, F: Fn(&E) -> bool>(edges: Seq<E>, test: F, fits: Seq<bool>) -> bool {
    fits.len() == edges.len() && forall|i: int|
        0 <= i < edges.len() ==> call_ensures(test, (&edges[i],), #[trigger] fits[i])
}

impl<E> EmbeddedGraphStore<E> {
    /// A store without edges.
    pub fn new() -> (out: EmbeddedGraphStore<E>)
        ensures
            out@.wf(),
            out@.edges == Seq::<E>::empty(),
    {
        let out: EmbeddedGraphStore<E> = EmbeddedGraphStore { table: TextTable::new() };
        assert(out@.keys =~= Seq::<Seq<char>>::empty());
        assert(out@.edges =~= Seq::<E>::empty());
        out
    }

    /// Takes an edge. Where its key has one, the two are merged; else it is
    /// put at the place of its key.
    pub fn upsert_edge<F: Fn(&E, &E) -> E>(&mut self, key: &str, edge: E, merge: F)
        requires
            forall|a: &E, b: &E| #[trigger] call_requires(merge, (a, b)),
        ensures
            final(self)@.wf(),
            final(self)@.keys == with_text(old(self)@.keys, key@),
            ({
                let at = old(self)@.at(key@);
                if old(self)@.has(key@) {
                    &&& call_ensures(merge, (&old(self)@.edges[at], &edge), final(self)@.edges[at])
                    &&& final(self)@.edges == old(self)@.edges.update(at, final(self)@.edges[at])
                } else {
                    final(self)@.edges == old(self)@.edges.insert(at, edge)
                }
            }),
    {
        let at: usize = self.table.find(key);
        let ghost before = self.table@;
        let there: bool = at < self.table.len() && same_text(self.table.entry(at).0.as_str(), key);
        assert(at < before.len() ==> key_texts(before)[at as int] == before[at as int].0@);
        assert(there == self@.has(key@));
        let edge: E = if there {
            merge(&self.table.entry(at).1, &edge)
        } else {
            edge
        };
        let ghost kept = edge;
        self.table.insert(key.to_owned(), edge);
        proof {
            use_type_invariant(&self.table);
            let now = self.table@;
            if there {
                assert(key_texts(now) =~= key_texts(before));
            } else {
                assert(key_texts(now) =~= key_texts(before).insert(at as int, key@));
            }
            let old_edges = before.map_values(|e: (String, E)| e.1);
            let new_edges = now.map_values(|e: (String, E)| e.1);
            if there {
                assert(new_edges =~= old_edges.update(at as int, kept));
            } else {
                assert(new_edges =~= old_edges.insert(at as int, kept));
            }
        }
    }
}

impl<E: Clone> EmbeddedGraphStore<E> {
    /// The edges that a test lets through, in the order of their keys, but no
    /// more than a limit.
    pub fn get_edges<F: Fn(&E) -> bool>(&self, test: F, limit: Option<u64>) -> (out: Vec<E>)
        requires
            forall|e: &E| #[trigger] call_requires(test, (e,)),
        ensures
            exists|fits: Seq<bool>| #[trigger]
                tested(self@.edges, test, fits) && all_cloned(
                    up_to(fitting(self@.edges, fits, self@.edges.len()), limit),
                    out@,
                ),
    {
        let most: usize = match limit {
            Some(l) => l as usize,
            None => usize::MAX,
        };
        let mut fits: Vec<bool> = Vec::new();
        let mut out: Vec<E> = Vec::new();
        let ghost mut found: Seq<E> = Seq::empty();
        let ghost edges = self@.edges;
        let n: usize = self.table.len();
        let mut i: usize = 0;
        while i < n
            invariant
                i <= n,
                n == self.table@.len(),
                edges == self@.edges,
                edges.len() == n,
                fits@.len() == i,
                forall|e: &E| #[trigger] call_requires(test, (e,)),
                forall|k: int|
                    0 <= k < i ==> call_ensures(test, (&edges[k],), #[trigger] fits@[k]),
                found == fitting(edges, fits@, i as nat),
                found.len() <= i,
                all_cloned(
                    if found.len() <= most {
                        found
                    } else {
                        found.take(most as int)
                    },
                    out@,
                ),
            decreases n - i,
        {
            let ghost earlier = fits@;
            assert(edges[i as int] == self.table@[i as int].1);
            let fit: bool = test(&self.table.entry(i).1);
            fits.push(fit);
            proof {
                lemma_fitting(edges, earlier, fits@, i as nat);
            }
            if fit {
                if out.len() < most {
                    let edge: E = self.table.entry(i).1.clone();
                    out.push(edge);
                }
                proof {
                    let now = found.push(edges[i as int]);
                    if found.len() >= most {
                        assert(now.take(most as int) =~= if found.len() <= most {
                            found
                        } else {
                            found.take(most as int)
                        });
                    }
                    found = now;
                }
            }
            i += 1;
        }
        assert(tested(self@.edges, test, fits@));
        assert(found.len() <= n);
        out
    }
}

proof fn lemma_fitting<E>(edges: Seq<E>, a: Seq<bool>, b: Seq<bool>, n: nat)
    requires
        n <= a.len(),
        n <= b.len(),
        forall|i: int| 0 <= i < n ==> a[i] == b[i],
    ensures
        fitting(edges, a, n) == fitting(edges, b, n),
    decreases n,
{
    if n > 0 {
        lemma_fitting(edges, a, b, (n - 1) as nat);
    }
}

/// Two edges with one key are one edge of the store: taking an edge makes the
/// store longer by one only where its key is new.
pub proof fn law_one_edge_for_a_key<E>(before: StoreView<E>, key: Seq<char>)
    requires
        before.wf(),
    ensures
        with_text(before.keys, key).len() == before.keys.len() + if before.has(key) {
            0int
        } else {
            1int
        },
        before.has(key) == before.keys.contains(key),
{
    crate::text_set::law_taking_away_removes(before.keys, key, key);
    crate::text_set::lemma_slot(before.keys, key, 0);
    if before.keys.contains(key) && !before.has(key) {
        assert(crate::text_set::without_text(before.keys, key) == before.keys);
    }
    if before.has(key) {
        assert(before.keys[before.at(key)] == key);
    }
}

/// The edges that fit are those that the test lets through, each once and in
/// order.
pub proof fn law_edges_that_fit<E>(edges: Seq<E>, fits: Seq<bool>, n: nat)
    requires
        n <= edges.len(),
        edges.len() == fits.len(),
    ensures
        fitting(edges, fits, n) == edges.zip_with(fits).take(n as int).filter_map(
            |e: (E, bool)|
                if e.1 {
                    Some(e.0)
                } else {
                    None
                },
        ),
    decreases n,
{
    let f = |e: (E, bool)|
        if e.1 {
            Some(e.0)
        } else {
            None
        };
    if n > 0 {
        law_edges_that_fit(edges, fits, (n - 1) as nat);
        lemma_kept_next(edges.zip_with(fits), f, n - 1);
    }
}

/// No more edges come back than the limit says, they are the first ones, and
/// without a limit all of them do.
pub proof fn law_limited_edges<E>(edges: Seq<E>, limit: Option<u64>)
    ensures
        up_to(edges, limit) == edges.take(up_to(edges, limit).len() as int),
        limit is None ==> up_to(edges, limit) == edges,
        limit matches Some(l) ==> l <= usize::MAX ==> up_to(edges, limit).len() == if edges.len()
            <= l {
            edges.len() as int
        } else {
            l as int
        },
{
    assert(edges.take(edges.len() as int) =~= edges);
}

} // verus!
