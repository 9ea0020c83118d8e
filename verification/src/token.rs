//! Tokens: what the lexer hands to the parser.

use crate::span::Span;
use crate::string_allocator::{text_of, StableRef, StringAllocator};
use crate::text::{decimal, push_decimal, push_signed_decimal, signed_decimal};
use vstd::prelude::*;
use vstd::string::StringExecFns;

verus! {

/// The way an integer literal is written.
#[derive(Clone, Copy, Debug, PartialEq, Eq, Structural)]
pub enum IntegerKind {
    Binary,
    Decimal,
    Hex,
}

impl IntegerKind {
    /// The radix of the notation, as a specification.
    pub open spec fn radix_spec(&self) -> u32 {
        match self {
            IntegerKind::Binary => 2,
            IntegerKind::Decimal => 10,
            IntegerKind::Hex => 16,
        }
    }

    /// The radix of the notation: 2, 10 or 16.
    #[verifier::when_used_as_spec(radix_spec)]
    pub fn radix(&self) -> (r: u32)
        ensures
            r == self.radix_spec(),
    {
        match self {
            IntegerKind::Binary => 2,
            IntegerKind::Decimal => 10,
            IntegerKind::Hex => 16,
        }
    }
}

/// An integer literal: its value and the way it was written.
#[derive(Clone, Copy, Debug, PartialEq, Eq, Structural)]
pub struct Integer {
    pub value: i64,
    pub kind: IntegerKind,
}

impl Integer {
    /// The literal with the value `value`, written in the notation `kind`.
    pub fn new(value: i64, kind: IntegerKind) -> (i: Self)
        ensures
            i == (Integer { value, kind }),
    {
        Integer { value, kind }
    }

    /// The value of the literal.
    pub fn value(&self) -> (v: i64)
        ensures
            v == self.value,
    {
        self.value
    }

    /// The notation of the literal.
    pub fn kind(&self) -> (k: IntegerKind)
        ensures
            k == self.kind,
    {
        self.kind
    }
}

/// A floating-point literal, held by the bits of its IEEE 754 double.
#[derive(Clone, Copy, Debug, PartialEq, Eq, Structural)]
pub struct Float {
    pub bits: u64,
}

impl Float {
    /// The literal whose double has the bits `bits`.
    pub fn from_bits(bits: u64) -> (f: Self)
        ensures
            f == (Float { bits }),
    {
        Float { bits }
    }

    /// The bits of the literal's double.
    pub fn to_bits(&self) -> (b: u64)
        ensures
            b == self.bits,
    {
        self.bits
    }
}

/// The reserved words.
#[derive(Clone, Copy, Debug, PartialEq, Eq, Structural)]
pub enum Keyword {
    Event,
    Query,
    Where,
    Ln,
    Fn,
    If,
    For,
    Else,
    Return,
}

/// The three kinds of bracket.
#[derive(Clone, Copy, Debug, PartialEq, Eq, Structural)]
pub enum Delim {
    Paren,
    Brace,
    Bracket,
}

/// The punctuation. An opening or closing bracket says which kind it is.
#[derive(Clone, Copy, Debug, PartialEq, Eq, Structural)]
pub enum Symbol {
    Open(Delim),
    Close(Delim),
    ColonEqual,
    Colon,
    SemiColon,
    Comma,
    Period,
    Plus,
    Minus,
    Asterisk,
    Slash,
    EqualEqual,
    Equal,
    GtEqual,
    Gt,
    LtEqual,
    Lt,
}

/// What a token is.
#[derive(Clone, Copy, Debug, PartialEq, Eq, Structural)]
pub enum TokenKind {
    Ident(StableRef),
    String(StableRef),
    Comment(StableRef),
    Keyword(Keyword),
    Integer(Integer),
    Float(Float),
    Symbol(Symbol),
    Eol,
    Eof,
}

/// A token: what it is and where it stands.
#[derive(Clone, Copy, Debug, PartialEq, Eq, Structural)]
pub struct Token {
    pub kind: TokenKind,
    pub span: Span,
}

/// A leaf of the syntax tree that one token makes.
pub trait FromToken: Sized {
    /// What diagnostics call a leaf of this type.
    spec fn name_spec() -> Seq<char>;

    /// The leaf that `token` makes; none where the token is not of the
    /// leaf's kind.
    spec fn made_of(token: Token) -> Option<Self>;

    /// What diagnostics call a leaf of this type.
    fn name() -> (s: &'static str)
        ensures
            s@ == Self::name_spec(),
    ;

    /// The leaf that `token` makes; none where the token is not of the
    /// leaf's kind.
    fn from_token(token: Token) -> (leaf: Option<Self>)
        ensures
            leaf == Self::made_of(token),
    ;
}

impl Token {
    /// The token of the kind `kind` at `span`.
    pub fn new(kind: TokenKind, span: Span) -> (t: Self)
        ensures
            t == (Token { kind, span }),
    {
        Token { kind, span }
    }

    /// What the token is.
    pub fn kind(&self) -> (k: TokenKind)
        ensures
            k == self.kind,
    {
        self.kind
    }

    /// Where the token stands.
    pub fn span(&self) -> (s: Span)
        ensures
            s == self.span,
    {
        self.span
    }
}

impl Keyword {
    /// The spelling that the lexer reads as this keyword.
    pub open spec fn spelling(self) -> Seq<char> {
        match self {
            Keyword::Event => "event"@,
            Keyword::Query => "query"@,
            Keyword::Where => "where"@,
            Keyword::Ln => "ln"@,
            Keyword::Fn => "fn"@,
            Keyword::If => "if"@,
            Keyword::For => "for"@,
            Keyword::Else => "else"@,
            Keyword::Return => "return"@,
        }
    }

    /// The name of the keyword, as diagnostics show it.
    pub open spec fn name_spec(self) -> Seq<char> {
        match self {
            Keyword::Event => "Event"@,
            Keyword::Query => "Query"@,
            Keyword::Where => "Where"@,
            Keyword::Ln => "Ln"@,
            Keyword::Fn => "Fn"@,
            Keyword::If => "If"@,
            Keyword::For => "For"@,
            Keyword::Else => "Else"@,
            Keyword::Return => "Return"@,
        }
    }

    /// The name of the keyword, as diagnostics show it.
    pub fn name(&self) -> (s: &'static str)
        ensures
            s@ == self.name_spec(),
    {
        match self {
            Keyword::Event => "Event",
            Keyword::Query => "Query",
            Keyword::Where => "Where",
            Keyword::Ln => "Ln",
            Keyword::Fn => "Fn",
            Keyword::If => "If",
            Keyword::For => "For",
            Keyword::Else => "Else",
            Keyword::Return => "Return",
        }
    }
}

impl Symbol {
    /// The name of the symbol, as diagnostics show it.
    pub open spec fn name_spec(self) -> Seq<char> {
        match self {
            Symbol::Open(Delim::Paren) => "Open(Paren)"@,
            Symbol::Open(Delim::Brace) => "Open(Brace)"@,
            Symbol::Open(Delim::Bracket) => "Open(Bracket)"@,
            Symbol::Close(Delim::Paren) => "Close(Paren)"@,
            Symbol::Close(Delim::Brace) => "Close(Brace)"@,
            Symbol::Close(Delim::Bracket) => "Close(Bracket)"@,
            Symbol::ColonEqual => "ColonEqual"@,
            Symbol::Colon => "Colon"@,
            Symbol::SemiColon => "SemiColon"@,
            Symbol::Comma => "Comma"@,
            Symbol::Period => "Period"@,
            Symbol::Plus => "Plus"@,
            Symbol::Minus => "Minus"@,
            Symbol::Asterisk => "Asterisk"@,
            Symbol::Slash => "Slash"@,
            Symbol::EqualEqual => "EqualEqual"@,
            Symbol::Equal => "Equal"@,
            Symbol::GtEqual => "GtEqual"@,
            Symbol::Gt => "Gt"@,
            Symbol::LtEqual => "LtEqual"@,
            Symbol::Lt => "Lt"@,
        }
    }

    /// The name of the symbol, as diagnostics show it.
    pub fn name(&self) -> (s: &'static str)
        ensures
            s@ == self.name_spec(),
    {
        match self {
            Symbol::Open(Delim::Paren) => "Open(Paren)",
            Symbol::Open(Delim::Brace) => "Open(Brace)",
            Symbol::Open(Delim::Bracket) => "Open(Bracket)",
            Symbol::Close(Delim::Paren) => "Close(Paren)",
            Symbol::Close(Delim::Brace) => "Close(Brace)",
            Symbol::Close(Delim::Bracket) => "Close(Bracket)",
            Symbol::ColonEqual => "ColonEqual",
            Symbol::Colon => "Colon",
            Symbol::SemiColon => "SemiColon",
            Symbol::Comma => "Comma",
            Symbol::Period => "Period",
            Symbol::Plus => "Plus",
            Symbol::Minus => "Minus",
            Symbol::Asterisk => "Asterisk",
            Symbol::Slash => "Slash",
            Symbol::EqualEqual => "EqualEqual",
            Symbol::Equal => "Equal",
            Symbol::GtEqual => "GtEqual",
            Symbol::Gt => "Gt",
            Symbol::LtEqual => "LtEqual",
            Symbol::Lt => "Lt",
        }
    }
}

impl IntegerKind {
    /// The name of the notation, as diagnostics show it.
    pub open spec fn name_spec(self) -> Seq<char> {
        match self {
            IntegerKind::Binary => "Binary"@,
            IntegerKind::Decimal => "Decimal"@,
            IntegerKind::Hex => "Hex"@,
        }
    }

    /// The name of the notation, as diagnostics show it.
    pub fn name(&self) -> (s: &'static str)
        ensures
            s@ == self.name_spec(),
    {
        match self {
            IntegerKind::Binary => "Binary",
            IntegerKind::Decimal => "Decimal",
            IntegerKind::Hex => "Hex",
        }
    }
}

impl TokenKind {
    /// Whether the token ends a line: an end of line or the end of the input.
    pub open spec fn is_eol_spec(&self) -> bool {
        self is Eol || self is Eof
    }

    /// Whether the token ends a line: an end of line or the end of the input.
    #[verifier::when_used_as_spec(is_eol_spec)]
    pub fn is_eol(&self) -> (b: bool)
        ensures
            b == self.is_eol_spec(),
    {
        match self {
            TokenKind::Eol | TokenKind::Eof => true,
            _ => false,
        }
    }

    /// How diagnostics show a token of this kind, given the table that its
    /// handle points into.
    pub open spec fn text(self, table: Seq<Seq<char>>) -> Seq<char> {
        match self {
            TokenKind::Ident(r) => "Ident(\""@ + text_of(table, r.index as nat) + "\")"@,
            TokenKind::String(r) => "String(\""@ + text_of(table, r.index as nat) + "\")"@,
            TokenKind::Comment(r) => "Comment(\""@ + text_of(table, r.index as nat) + "\")"@,
            TokenKind::Keyword(k) => "Keyword("@ + k.name_spec() + ")"@,
            TokenKind::Integer(i) => "Integer(Integer { value: "@ + signed_decimal(i.value as int)
                + ", kind: "@ + i.kind.name_spec() + " })"@,
            TokenKind::Float(f) => "Float(Float { bits: "@ + decimal(f.bits as nat) + " })"@,
            TokenKind::Symbol(s) => "Symbol("@ + s.name_spec() + ")"@,
            TokenKind::Eol => "Eol"@,
            TokenKind::Eof => "Eof"@,
        }
    }

    /// How diagnostics show a token of this kind.
    pub fn describe(&self, allocator: &StringAllocator) -> (s: String)
        ensures
            s@ == self.text(allocator@),
    {
        match self {
            TokenKind::Ident(r) => quoted("Ident(\"", *r, allocator),
            TokenKind::String(r) => quoted("String(\"", *r, allocator),
            TokenKind::Comment(r) => quoted("Comment(\"", *r, allocator),
            TokenKind::Keyword(k) => {
                let mut s = "Keyword(".to_owned();
                s.append(k.name());
                s.append(")");
                s
            },
            TokenKind::Integer(i) => {
                let mut s = "Integer(Integer { value: ".to_owned();
                push_signed_decimal(&mut s, i.value);
                s.append(", kind: ");
                s.append(i.kind.name());
                s.append(" })");
                s
            },
            TokenKind::Float(f) => {
                let mut s = "Float(Float { bits: ".to_owned();
                push_decimal(&mut s, f.bits);
                s.append(" })");
                s
            },
            TokenKind::Symbol(y) => {
                let mut s = "Symbol(".to_owned();
                s.append(y.name());
                s.append(")");
                s
            },
            TokenKind::Eol => "Eol".to_owned(),
            TokenKind::Eof => "Eof".to_owned(),
        }
    }
}

/// `open`, the text behind `r`, and a closing quote and bracket.
fn quoted(open: &str, r: StableRef, allocator: &StringAllocator) -> (s: String)
    ensures
        s@ == open@ + text_of(allocator@, r.index as nat) + "\")"@,
{
    let mut s = open.to_owned();
    match allocator.resolve(r) {
        Some(t) => {
            s.append(t);
        },
        None => {
            assert(s@ =~= open@ + text_of(allocator@, r.index as nat));
        },
    }
    s.append("\")");
    s
}

} // verus!
