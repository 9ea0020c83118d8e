//! The syntax tree, and how each of its nodes is parsed.

pub mod copy;
pub mod delim;
pub mod expr;
pub mod located;
pub mod parse;
pub mod placement;
pub mod punctuated;
pub mod stmt;
pub mod ty;
