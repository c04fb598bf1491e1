//! A small template engine: templates are parsed into an abstract syntax
//! tree, stored in a registry by name, and rendered against a context of
//! named values, with template inheritance, loops, conditionals, filters
//! and configurable autoescaping.

pub mod ast;
pub mod engine;
pub mod errors;
pub mod eval;
pub mod laws;
pub mod parse;
pub mod render;
pub mod text;
pub mod value;

pub use ast::{Expr, Node, Template};
pub use engine::Engine;
pub use errors::{EngineError, ParseFault};
pub use parse::parse;
pub use value::Val;
