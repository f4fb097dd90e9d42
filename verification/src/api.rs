//! The console's request surface: what each request asks for and how it is
//! answered.
pub mod answers;
pub mod query;
pub mod register;
pub mod response;
pub mod routes;
pub mod rows;
pub mod screen_entry;
pub mod screen_map;
pub mod typed;
