//! The front end of a small language: source text in, a located syntax
//! tree or a hinted diagnostic out.
//!
//! A [`Parser`] reads one source text. It turns characters into tokens on
//! request, with one token of lookahead, and the syntax nodes are read from
//! it by type: `parser.parse::<Stmt>()`. Every node knows its span, which is
//! the union of the spans of its parts. Identifiers are interned in a
//! [`StringAllocator`] and held by handle.

pub mod ast;
pub mod error;
pub mod lexer;
pub mod parse;
pub mod parser;
pub mod shape;
pub mod span;
pub mod spanned_option;
pub mod string_allocator;
pub mod text;
pub mod token;
pub mod token_types;

pub use ast::delim::Tupled;
pub use ast::expr::{
    BinOp, BinOpExpr, CallExpr, Expr, LiteralExpr, MemberExpr, ParenExpr,
};
pub use ast::parse::expr::{attach, ArgumentsEnd};
pub use ast::punctuated::{Punctuated, Terminated, Termination};
pub use ast::stmt::{
    Argument, AssignNewStmt, AssignStmt, Block, DefaultEvent, DefaultEvents, ExprStmt,
    ListenerArgument, ListenerArguments, LnStmt, Stmt, WhereClause,
};
pub use ast::ty::Type;
pub use error::{Error, ErrorHint, Result};
pub use parse::{ByType, Parse, ParseWith, ThenEol};
pub use parser::Parser;
pub use span::{checked_merge_spans, merge_spans, Located, Span, Spanned};
pub use spanned_option::SpannedOption;
pub use string_allocator::{PathRef, StableRef, StringAllocator};
pub use token::{
    Delim, Float, FromToken, Integer, IntegerKind, Keyword, Symbol, Token, TokenKind,
};
pub use token_types::{
    Asterisk, CloseBrace, CloseBracket, CloseParen, Colon, ColonEqual, Comma, Comment, Else, Eol,
    Equal, EqualEqual, Event, Fn, For, Gt, GtEqual, Ident, If, LitFloat, LitInt, LitStr, Ln, Lt,
    LtEqual, Minus, OpenBrace, OpenBracket, OpenParen, Period, Plus, Query, Return, SemiColon,
    Slash, Where,
};
