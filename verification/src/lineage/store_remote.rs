//! A store of edges behind an address.
use super::store_embedded::{
    all_cloned, fitting, tested, up_to, EmbeddedGraphStore, LineageStoreError, StoreView,
};
use crate::composer::decl::opt_text;
use crate::text_set::with_text;
use vstd::prelude::*;

verus! {

/// A store of edges behind an address. Without one it does nothing.
pub struct RemoteGraphStore<E> {
    endpoint: Option<String>,
    remote_edges: EmbeddedGraphStore<E>,
}

impl<E> RemoteGraphStore<E> {
    /// The address.
    pub closed spec fn address(&self) -> Option<Seq<char>> {
        opt_text(self.endpoint)
    }

    /// What the store holds.
    pub closed spec fn held(&self) -> StoreView<E> {
        self.remote_edges@
    }

    /// A store without edges, behind an address or without one.
    pub fn new(endpoint: Option<String>) -> (out: RemoteGraphStore<E>)
        ensures
            out.address() == opt_text(endpoint),
            out.held().wf(),
            out.held().edges == Seq::<E>::empty(),
    {
        RemoteGraphStore { endpoint, remote_edges: EmbeddedGraphStore::new() }
    }

    /// The address.
    pub fn endpoint(&self) -> (out: Option<&str>)
        ensures
            match out {
                Some(s) => self.address() == Some(s@),
                None => self.address() is None,
            },
    {
        match &self.endpoint {
            Some(s) => Some(s.as_str()),
            None => None,
        }
    }

    /// Takes an edge, as [`EmbeddedGraphStore::upsert_edge`] does.
    pub fn upsert_edge<F: Fn(&E, &E) -> E>(&mut self, key: &str, edge: E, merge: F) -> (out: Result<
        (),
        LineageStoreError,
    >)
        requires
            old(self).held().wf(),
            forall|a: &E, b: &E| #[trigger] call_requires(merge, (a, b)),
        ensures
            final(self).held().wf(),
            final(self).address() == old(self).address(),
            if old(self).address() is None {
                out == Err::<(), LineageStoreError>(LineageStoreError::Unconfigured)
                    && final(self).held() == old(self).held()
            } else {
                let at = old(self).held().at(key@);
                &&& out is Ok
                &&& final(self).held().keys == with_text(old(self).held().keys, key@)
                &&& if old(self).held().has(key@) {
                    &&& call_ensures(
                        merge,
                        (&old(self).held().edges[at], &edge),
                        final(self).held().edges[at],
                    )
                    &&& final(self).held().edges == old(self).held().edges.update(
                        at,
                        final(self).held().edges[at],
                    )
                } else {
                    final(self).held().edges == old(self).held().edges.insert(at, edge)
                }
            },
    {
        match &self.endpoint {
            None => Err(LineageStoreError::Unconfigured),
            Some(_) => {
                self.remote_edges.upsert_edge(key, edge, merge);
                Ok(())
            },
        }
    }
}

impl<E: Clone> RemoteGraphStore<E> {
    /// The edges that a test lets through, in the order of their keys.
    pub fn get_edges<F: Fn(&E) -> bool>(&self, test: F) -> (out: Result<Vec<E>, LineageStoreError>)
        requires
            forall|e: &E| #[trigger] call_requires(test, (e,)),
        ensures
            match out {
                Ok(edges) => self.address() is Some && exists|fits: Seq<bool>| #[trigger]
                    tested(self.held().edges, test, fits) && all_cloned(
                        fitting(self.held().edges, fits, self.held().edges.len()),
                        edges@,
                    ),
                Err(e) => self.address() is None && e == LineageStoreError::Unconfigured,
            },
    {
        match &self.endpoint {
            None => Err(LineageStoreError::Unconfigured),
            Some(_) => {
                let edges: Vec<E> = self.remote_edges.get_edges(test, None);
                proof {
                    let all = self.held().edges;
                    let fits = choose|fits: Seq<bool>| #[trigger]
                        tested(all, test, fits) && all_cloned(
                            up_to(fitting(all, fits, all.len()), None),
                            edges@,
                        );
                    assert(tested(all, test, fits));
                }
                Ok(edges)
            },
        }
    }
}

} // verus!
