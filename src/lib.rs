//! An embeddable expression language over JSON-like values: a value model,
//! an environment of lazy and eager bindings, and a tree-walking evaluator
//! whose operator, binding and builtin semantics are stated as contracts.
//!
//! Design choices:
//! - A lambda call pushes one local frame; name lookup consults only the
//!   innermost frame, then the top-level bindings (no lexical closures).
//! - A top-level binding made by a statement is an expression evaluated
//!   afresh at every reference; nothing is memoized.
//! - Floats are IEEE-754 binary64 bit patterns; their arithmetic is the
//!   host's, through [`float::FloatArith`].
//! - Evaluation carries a nesting budget; running out is a runtime error
//!   rather than an exhausted stack.
//! - `log` appends to the context's log instead of printing.

pub mod arith;
pub mod cli;
pub mod ast;
pub mod context;
pub mod errors;
pub mod expr;
pub mod float;
pub mod jml_type;
pub mod lambda;
pub mod laws;
pub mod operators;
pub mod program;
pub mod semantics;
pub mod stdlib;
pub mod text;
pub mod value;

pub use program::{eval, eval_with_ctx, eval_with_ctx_depth};
