//! The conversation with a language model: whom to call, what to say, how to
//! read the reply, and when to stop asking.
pub mod activation;
pub mod chat;
pub mod candidates;
pub mod extract;
pub mod hints;
pub mod diagnostics;
pub mod docs;
pub mod corrections;
pub mod coverage;
pub mod rewrite;
pub mod prompts;
pub mod generate;
