//! Value model and map-rendering passes for a path-typed object language.

pub mod ast;
pub mod ast_same;
pub mod text;
pub mod error;
pub mod constants;
pub mod objtree;
pub mod eval;
pub mod minimap;
pub mod resolve;
pub mod render_passes;
pub mod config;
pub mod pipeline;
pub mod place;
