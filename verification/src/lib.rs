//! Project-scoped task runner: configuration model, root discovery,
//! configuration front-ends, hoisted-binary lookup and script planning.

pub mod builtin;
pub mod config;
pub mod engine;
pub mod error;
pub mod find;
pub mod format;
pub mod laws;
pub mod markup;
pub mod model;
pub mod outline;
pub mod parser;
pub mod sequence;
pub mod text;
pub mod yaml;
pub mod yaml_parser;
