//! The intermediate representation: a module of globals and functions, each
//! function a list of basic blocks over one arena of instructions.

pub mod arena;
pub mod constant;
pub mod func;
pub mod inst;
pub mod module;
pub mod ty;
