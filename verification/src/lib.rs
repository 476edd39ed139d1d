//! The middle of a compiler for a small C-like language: a type checker that
//! also folds constants, and a builder that lowers the checked syntax tree to
//! a control-flow graph of basic blocks.

pub mod ast;
mod ast_clone;
pub mod ast_view;
mod collect;
pub mod context;
pub mod err;
pub mod ir;
pub mod ir_builder;
pub mod scope;
pub mod span;
pub mod token;
pub mod type_checker;
