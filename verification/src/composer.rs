//! The project template composer: merges the modules selected from a template
//! into one screen register and one menu tree.
pub mod chains;
pub mod decl;
pub mod entities;
pub mod integrity;
pub mod labels;
pub mod menus;
pub mod project;
pub mod render;
pub mod roles;
pub mod screens;
pub mod tooling;
