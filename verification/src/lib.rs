//! Project scaffolding engine: renders a template tree of files into a new
//! project directory, substituting variables and conditionally keeping or
//! dropping files according to a small declarative rule language.

pub mod cli;
pub mod condition;
pub mod context;
pub mod devmode;
pub mod errors;
pub mod materialize;
pub mod policy;
pub mod render;
pub mod repo;
pub mod strutil;
pub mod types;
