//! The tools that an agent may call, and the record of what it called.
pub mod clock;
pub mod tools;
pub mod log;
pub mod rpc;
