//! Where observations of data in motion go, and where the edges between them
//! are kept.
pub mod sink_http;
pub mod sink_jsonl;
pub mod store_embedded;
pub mod store_remote;
