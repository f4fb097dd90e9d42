//! A sink that writes observations to a file, a line each.
use crate::composer::decl::opt_text;
use crate::json::Json;
use crate::outside::{json_document, json_to_string};
use vstd::prelude::*;

verus! {

/// Why an observation was not written.
#[derive(Debug, Clone, PartialEq, Eq)]
pub enum SinkError {
    /// The sink has no file.
    Unconfigured,
    Io(String),
}

/// A sink that writes observations to a file, a line each.
pub struct JsonlLineageSink {
    path: Option<String>,
}

impl View for JsonlLineageSink {
    type V = Option<Seq<char>>;

    closed spec fn view(&self) -> Option<Seq<char>> {
        opt_text(self.path)
    }
}

/// What is appended to a file.
pub struct Append {
    pub path: String,
    pub line: String,
}

impl JsonlLineageSink {
    /// A sink for a file, or one without any.
    pub fn new(path: Option<String>) -> (out: JsonlLineageSink)
        ensures
            out@ == opt_text(path),
    {
        JsonlLineageSink { path }
    }

    /// What an observation appends to the file: its document, and a line feed. A
    /// sink without a file writes nothing.
    pub fn emit(&self, content: &Json) -> (out: Result<Append, SinkError>)
        ensures
            match out {
                Ok(a) => self@ == Some(a.path@) && a.line@ == json_document(content@).push('\n'),
                Err(e) => self@ is None && e == SinkError::Unconfigured,
            },
    {
        match &self.path {
            None => Err(SinkError::Unconfigured),
            Some(path) => {
                let mut line: String = json_to_string(content);
                line.push('\n');
                Ok(Append { path: path.clone(), line })
            },
        }
    }

    /// Nothing waits to be written. A sink without a file says so.
    pub fn flush(&self) -> (out: Result<(), SinkError>)
        ensures
            match out {
                Ok(_) => self@ is Some,
                Err(e) => self@ is None && e == SinkError::Unconfigured,
            },
    {
        match &self.path {
            None => Err(SinkError::Unconfigured),
            Some(_) => Ok(()),
        }
    }
}

} // verus!
