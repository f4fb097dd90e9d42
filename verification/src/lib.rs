//! The rules behind the `hi` build console.
pub mod api;
pub mod cli;
pub mod composer;
pub mod graph;
pub mod json;
pub mod lineage;
pub mod lists;
pub mod llm;
pub mod mcp;
pub mod order;
pub mod outside;
pub mod paths;
pub mod plugin;
pub mod preview;
pub mod revision;
pub mod text;
pub mod text_map;
pub mod text_set;
pub mod text_table;
pub mod toml_value;
pub mod topic;
pub mod transport;
pub mod v2;
