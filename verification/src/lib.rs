//! Renderers for the syntax tree of a small mathematical expression language.
//!
//! A tree can be written as TeX markup ([`AST::to_tex`]), turned into a
//! symbolic value in Wolfram notation ([`AST::to_wolfram`]), and measured
//! ([`BoxArea`]).

pub mod ast;
pub mod error;
pub mod integer;
pub mod metrics;
pub mod names;
pub mod tex;
pub mod text;
pub mod wolfram;

pub use crate::ast::{Parameters, Symbol, AST};
pub use crate::error::RenderError;
pub use crate::integer::Integer;
pub use crate::metrics::BoxArea;
pub use crate::text::join;
pub use crate::wolfram::function_map;
