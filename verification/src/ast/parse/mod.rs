//! The grammar: how expressions, statements and types are read.

pub mod expr;
pub mod stmt;
pub mod ty;
