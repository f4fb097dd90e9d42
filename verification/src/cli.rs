//! The command line: what is asked for, and what is said about it.
pub mod command;
pub mod impact;
pub mod pack;
pub mod workflow;
