//! A sink that gathers observations for an address.
use vstd::prelude::*;

verus! {

/// Why an observation was not taken.
#[derive(Debug, Clone, PartialEq, Eq)]
pub enum SinkError {
    /// The sink has no address.
    Unconfigured,
    Http(String),
}

/// A sink that gathers observations for an address.
pub struct HttpLineageSink<O> {
    endpoint: Option<String>,
    batch: Vec<O>,
}

impl<O> HttpLineageSink<O> {
    /// Whether the sink has an address.
    pub closed spec fn configured(&self) -> bool {
        self.endpoint is Some
    }

    /// The observations that wait, in the order in which they came.
    pub closed spec fn waiting(&self) -> Seq<O> {
        self.batch@
    }

    /// A sink for an address, or one without any. Nothing waits.
    pub fn new(endpoint: Option<String>) -> (out: HttpLineageSink<O>)
        ensures
            out.configured() == (endpoint is Some),
            out.waiting() == Seq::<O>::empty(),
    {
        HttpLineageSink { endpoint, batch: Vec::new() }
    }

    /// How many observations wait.
    pub fn len(&self) -> (out: usize)
        ensures
            out == self.waiting().len(),
    {
        self.batch.len()
    }

    /// Takes an observation. A sink without an address takes none.
    pub fn emit(&mut self, obs: O) -> (out: Result<(), SinkError>)
        ensures
            final(self).configured() == old(self).configured(),
            if old(self).configured() {
                out is Ok && final(self).waiting() == old(self).waiting().push(obs)
            } else {
                out == Err::<(), SinkError>(SinkError::Unconfigured) && final(self).waiting()
                    == old(self).waiting()
            },
    {
        match &self.endpoint {
            None => Err(SinkError::Unconfigured),
            Some(_) => {
                self.batch.push(obs);
                Ok(())
            },
        }
    }

    /// Lets go of what waits. A sink without an address cannot.
    pub fn flush(&mut self) -> (out: Result<(), SinkError>)
        ensures
            final(self).configured() == old(self).configured(),
            if old(self).configured() {
                out is Ok && final(self).waiting() == Seq::<O>::empty()
            } else {
                out == Err::<(), SinkError>(SinkError::Unconfigured) && final(self).waiting()
                    == old(self).waiting()
            },
    {
        match &self.endpoint {
            None => Err(SinkError::Unconfigured),
            Some(_) => {
                self.batch.clear();
                Ok(())
            },
        }
    }
}

} // verus!
