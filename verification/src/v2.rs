//! Generated programs: what they are checked for, what they declare, and where
//! they are served.
pub mod verdict;
pub mod source;
pub mod bodies;
pub mod capabilities;
