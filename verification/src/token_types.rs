//! The leaves of the syntax tree: one type for each kind of token that the
//! grammar asks for by name. A leaf exists only where a token of its kind was
//! read; any other token is an error that names what was expected.

use crate::error::Result;
use crate::lexer::unexpected;
use crate::parse::Parse;
use crate::parser::{Outcome, Parser, ParserView};
use crate::span::{lemma_merge_one, Located, Span, Spanned};
use crate::string_allocator::StableRef;
use crate::token::{Delim, Float, FromToken, Integer, Keyword, Symbol, Token, TokenKind};
use vstd::prelude::*;

verus! {

/// A node whose one part is `span` has that span.
pub proof fn lemma_leaf<T: Spanned>(leaf: &T, span: Span)
    requires
        leaf.parts() == seq![span],
    ensures
        crate::span::span_of(leaf) == span,
{
    lemma_merge_one(span);
}

/// What reading a leaf that is no more than a span gives: the leaf made of
/// the span, or the error as it is.
pub open spec fn spanned_leaf<T>(got: Outcome<Span>, make: spec_fn(Span) -> T) -> Outcome<T> {
    Outcome {
        result: match got.result {
            Ok(span) => Ok(make(span)),
            Err(error) => Err(error),
        },
        after: got.after,
    }
}

/// An opening parenthesis, `(`.
#[derive(Clone, Copy, Debug, PartialEq, Eq, Structural)]
pub struct OpenParen {
    pub span: Span,
}

impl View for OpenParen {
    type V = OpenParen;

    open spec fn view(&self) -> OpenParen {
        *self
    }
}

impl Spanned for OpenParen {
    open spec fn parts(&self) -> Seq<Span> {
        seq![self.span]
    }

    open spec fn sound(&self) -> bool {
        self.span.well_formed()
    }

    fn span(&self) -> (s: Span) {
        proof {
            lemma_merge_one(self.span);
            assert(self.parts() == seq![self.span]);
        }
        self.span
    }
}

impl Located for OpenParen {
    open spec fn span_in(v: OpenParen) -> Span {
        v.span
    }

    proof fn lemma_span_in(&self) {
        lemma_merge_one(self.span);
        assert(self.parts() == seq![self.span]);
        assert(self@ == *self);
    }
}

impl FromToken for OpenParen {
    open spec fn name_spec() -> Seq<char> {
        "OpenParen"@
    }

    open spec fn made_of(token: Token) -> Option<OpenParen> {
        if token.kind == TokenKind::Symbol(Symbol::Open(Delim::Paren)) {
            Some(OpenParen { span: token.span })
        } else {
            None
        }
    }

    fn name() -> (s: &'static str) {
        "OpenParen"
    }

    fn from_token(token: Token) -> (leaf: Option<Self>) {
        if token.kind() == TokenKind::Symbol(Symbol::Open(Delim::Paren)) {
            Some(OpenParen { span: token.span() })
        } else {
            None
        }
    }
}

impl OpenParen {
    /// What reading this leaf gives in the state `before`.
    pub open spec fn model(before: ParserView) -> Outcome<OpenParen> {
        spanned_leaf(
            before.expect(TokenKind::Symbol(Symbol::Open(Delim::Paren))),
            |span: Span| OpenParen { span },
        )
    }
}

impl Parse for OpenParen {
    open spec fn parsed(before: ParserView) -> Outcome<OpenParen> {
        Self::model(before)
    }

    open spec fn advances() -> bool {
        true
    }

    fn parse(parser: &mut Parser) -> (r: Result<Self>) {
        proof {
            assert(Self::parsed(parser@) == Self::model(parser@));
            assert(Self::advances());
        }
        match parser.expect(TokenKind::Symbol(Symbol::Open(Delim::Paren))) {
            Ok(span) => {
                let leaf = OpenParen { span };
                proof {
                    assert(leaf.parts() == seq![span]);
                    assert(leaf.sound() == span.well_formed());
                    assert(leaf@ == leaf);
                    lemma_leaf(&leaf, span);
                }
                Ok(leaf)
            },
            Err(error) => Err(error),
        }
    }
}

/// An opening brace, `{`.
#[derive(Clone, Copy, Debug, PartialEq, Eq, Structural)]
pub struct OpenBrace {
    pub span: Span,
}

impl View for OpenBrace {
    type V = OpenBrace;

    open spec fn view(&self) -> OpenBrace {
        *self
    }
}

impl Spanned for OpenBrace {
    open spec fn parts(&self) -> Seq<Span> {
        seq![self.span]
    }

    open spec fn sound(&self) -> bool {
        self.span.well_formed()
    }

    fn span(&self) -> (s: Span) {
        proof {
            lemma_merge_one(self.span);
            assert(self.parts() == seq![self.span]);
        }
        self.span
    }
}

impl Located for OpenBrace {
    open spec fn span_in(v: OpenBrace) -> Span {
        v.span
    }

    proof fn lemma_span_in(&self) {
        lemma_merge_one(self.span);
        assert(self.parts() == seq![self.span]);
        assert(self@ == *self);
    }
}

impl FromToken for OpenBrace {
    open spec fn name_spec() -> Seq<char> {
        "OpenBrace"@
    }

    open spec fn made_of(token: Token) -> Option<OpenBrace> {
        if token.kind == TokenKind::Symbol(Symbol::Open(Delim::Brace)) {
            Some(OpenBrace { span: token.span })
        } else {
            None
        }
    }

    fn name() -> (s: &'static str) {
        "OpenBrace"
    }

    fn from_token(token: Token) -> (leaf: Option<Self>) {
        if token.kind() == TokenKind::Symbol(Symbol::Open(Delim::Brace)) {
            Some(OpenBrace { span: token.span() })
        } else {
            None
        }
    }
}

impl OpenBrace {
    /// What reading this leaf gives in the state `before`.
    pub open spec fn model(before: ParserView) -> Outcome<OpenBrace> {
        spanned_leaf(
            before.expect(TokenKind::Symbol(Symbol::Open(Delim::Brace))),
            |span: Span| OpenBrace { span },
        )
    }
}

impl Parse for OpenBrace {
    open spec fn parsed(before: ParserView) -> Outcome<OpenBrace> {
        Self::model(before)
    }

    open spec fn advances() -> bool {
        true
    }

    fn parse(parser: &mut Parser) -> (r: Result<Self>) {
        proof {
            assert(Self::parsed(parser@) == Self::model(parser@));
            assert(Self::advances());
        }
        match parser.expect(TokenKind::Symbol(Symbol::Open(Delim::Brace))) {
            Ok(span) => {
                let leaf = OpenBrace { span };
                proof {
                    assert(leaf.parts() == seq![span]);
                    assert(leaf.sound() == span.well_formed());
                    assert(leaf@ == leaf);
                    lemma_leaf(&leaf, span);
                }
                Ok(leaf)
            },
            Err(error) => Err(error),
        }
    }
}

/// An opening bracket, `[`.
#[derive(Clone, Copy, Debug, PartialEq, Eq, Structural)]
pub struct OpenBracket {
    pub span: Span,
}

impl View for OpenBracket {
    type V = OpenBracket;

    open spec fn view(&self) -> OpenBracket {
        *self
    }
}

impl Spanned for OpenBracket {
    open spec fn parts(&self) -> Seq<Span> {
        seq![self.span]
    }

    open spec fn sound(&self) -> bool {
        self.span.well_formed()
    }

    fn span(&self) -> (s: Span) {
        proof {
            lemma_merge_one(self.span);
            assert(self.parts() == seq![self.span]);
        }
        self.span
    }
}

impl Located for OpenBracket {
    open spec fn span_in(v: OpenBracket) -> Span {
        v.span
    }

    proof fn lemma_span_in(&self) {
        lemma_merge_one(self.span);
        assert(self.parts() == seq![self.span]);
        assert(self@ == *self);
    }
}

impl FromToken for OpenBracket {
    open spec fn name_spec() -> Seq<char> {
        "OpenBracket"@
    }

    open spec fn made_of(token: Token) -> Option<OpenBracket> {
        if token.kind == TokenKind::Symbol(Symbol::Open(Delim::Bracket)) {
            Some(OpenBracket { span: token.span })
        } else {
            None
        }
    }

    fn name() -> (s: &'static str) {
        "OpenBracket"
    }

    fn from_token(token: Token) -> (leaf: Option<Self>) {
        if token.kind() == TokenKind::Symbol(Symbol::Open(Delim::Bracket)) {
            Some(OpenBracket { span: token.span() })
        } else {
            None
        }
    }
}

impl OpenBracket {
    /// What reading this leaf gives in the state `before`.
    pub open spec fn model(before: ParserView) -> Outcome<OpenBracket> {
        spanned_leaf(
            before.expect(TokenKind::Symbol(Symbol::Open(Delim::Bracket))),
            |span: Span| OpenBracket { span },
        )
    }
}

impl Parse for OpenBracket {
    open spec fn parsed(before: ParserView) -> Outcome<OpenBracket> {
        Self::model(before)
    }

    open spec fn advances() -> bool {
        true
    }

    fn parse(parser: &mut Parser) -> (r: Result<Self>) {
        proof {
            assert(Self::parsed(parser@) == Self::model(parser@));
            assert(Self::advances());
        }
        match parser.expect(TokenKind::Symbol(Symbol::Open(Delim::Bracket))) {
            Ok(span) => {
                let leaf = OpenBracket { span };
                proof {
                    assert(leaf.parts() == seq![span]);
                    assert(leaf.sound() == span.well_formed());
                    assert(leaf@ == leaf);
                    lemma_leaf(&leaf, span);
                }
                Ok(leaf)
            },
            Err(error) => Err(error),
        }
    }
}

/// A closing parenthesis, `)`.
#[derive(Clone, Copy, Debug, PartialEq, Eq, Structural)]
pub struct CloseParen {
    pub span: Span,
}

impl View for CloseParen {
    type V = CloseParen;

    open spec fn view(&self) -> CloseParen {
        *self
    }
}

impl Spanned for CloseParen {
    open spec fn parts(&self) -> Seq<Span> {
        seq![self.span]
    }

    open spec fn sound(&self) -> bool {
        self.span.well_formed()
    }

    fn span(&self) -> (s: Span) {
        proof {
            lemma_merge_one(self.span);
            assert(self.parts() == seq![self.span]);
        }
        self.span
    }
}

impl Located for CloseParen {
    open spec fn span_in(v: CloseParen) -> Span {
        v.span
    }

    proof fn lemma_span_in(&self) {
        lemma_merge_one(self.span);
        assert(self.parts() == seq![self.span]);
        assert(self@ == *self);
    }
}

impl FromToken for CloseParen {
    open spec fn name_spec() -> Seq<char> {
        "CloseParen"@
    }

    open spec fn made_of(token: Token) -> Option<CloseParen> {
        if token.kind == TokenKind::Symbol(Symbol::Close(Delim::Paren)) {
            Some(CloseParen { span: token.span })
        } else {
            None
        }
    }

    fn name() -> (s: &'static str) {
        "CloseParen"
    }

    fn from_token(token: Token) -> (leaf: Option<Self>) {
        if token.kind() == TokenKind::Symbol(Symbol::Close(Delim::Paren)) {
            Some(CloseParen { span: token.span() })
        } else {
            None
        }
    }
}

impl CloseParen {
    /// What reading this leaf gives in the state `before`.
    pub open spec fn model(before: ParserView) -> Outcome<CloseParen> {
        spanned_leaf(
            before.expect(TokenKind::Symbol(Symbol::Close(Delim::Paren))),
            |span: Span| CloseParen { span },
        )
    }
}

impl Parse for CloseParen {
    open spec fn parsed(before: ParserView) -> Outcome<CloseParen> {
        Self::model(before)
    }

    open spec fn advances() -> bool {
        true
    }

    fn parse(parser: &mut Parser) -> (r: Result<Self>) {
        proof {
            assert(Self::parsed(parser@) == Self::model(parser@));
            assert(Self::advances());
        }
        match parser.expect(TokenKind::Symbol(Symbol::Close(Delim::Paren))) {
            Ok(span) => {
                let leaf = CloseParen { span };
                proof {
                    assert(leaf.parts() == seq![span]);
                    assert(leaf.sound() == span.well_formed());
                    assert(leaf@ == leaf);
                    lemma_leaf(&leaf, span);
                }
                Ok(leaf)
            },
            Err(error) => Err(error),
        }
    }
}

/// A closing brace, `}`.
#[derive(Clone, Copy, Debug, PartialEq, Eq, Structural)]
pub struct CloseBrace {
    pub span: Span,
}

impl View for CloseBrace {
    type V = CloseBrace;

    open spec fn view(&self) -> CloseBrace {
        *self
    }
}

impl Spanned for CloseBrace {
    open spec fn parts(&self) -> Seq<Span> {
        seq![self.span]
    }

    open spec fn sound(&self) -> bool {
        self.span.well_formed()
    }

    fn span(&self) -> (s: Span) {
        proof {
            lemma_merge_one(self.span);
            assert(self.parts() == seq![self.span]);
        }
        self.span
    }
}

impl Located for CloseBrace {
    open spec fn span_in(v: CloseBrace) -> Span {
        v.span
    }

    proof fn lemma_span_in(&self) {
        lemma_merge_one(self.span);
        assert(self.parts() == seq![self.span]);
        assert(self@ == *self);
    }
}

impl FromToken for CloseBrace {
    open spec fn name_spec() -> Seq<char> {
        "CloseBrace"@
    }

    open spec fn made_of(token: Token) -> Option<CloseBrace> {
        if token.kind == TokenKind::Symbol(Symbol::Close(Delim::Brace)) {
            Some(CloseBrace { span: token.span })
        } else {
            None
        }
    }

    fn name() -> (s: &'static str) {
        "CloseBrace"
    }

    fn from_token(token: Token) -> (leaf: Option<Self>) {
        if token.kind() == TokenKind::Symbol(Symbol::Close(Delim::Brace)) {
            Some(CloseBrace { span: token.span() })
        } else {
            None
        }
    }
}

impl CloseBrace {
    /// What reading this leaf gives in the state `before`.
    pub open spec fn model(before: ParserView) -> Outcome<CloseBrace> {
        spanned_leaf(
            before.expect(TokenKind::Symbol(Symbol::Close(Delim::Brace))),
            |span: Span| CloseBrace { span },
        )
    }
}

impl Parse for CloseBrace {
    open spec fn parsed(before: ParserView) -> Outcome<CloseBrace> {
        Self::model(before)
    }

    open spec fn advances() -> bool {
        true
    }

    fn parse(parser: &mut Parser) -> (r: Result<Self>) {
        proof {
            assert(Self::parsed(parser@) == Self::model(parser@));
            assert(Self::advances());
        }
        match parser.expect(TokenKind::Symbol(Symbol::Close(Delim::Brace))) {
            Ok(span) => {
                let leaf = CloseBrace { span };
                proof {
                    assert(leaf.parts() == seq![span]);
                    assert(leaf.sound() == span.well_formed());
                    assert(leaf@ == leaf);
                    lemma_leaf(&leaf, span);
                }
                Ok(leaf)
            },
            Err(error) => Err(error),
        }
    }
}

/// A closing bracket, `]`.
#[derive(Clone, Copy, Debug, PartialEq, Eq, Structural)]
pub struct CloseBracket {
    pub span: Span,
}

impl View for CloseBracket {
    type V = CloseBracket;

    open spec fn view(&self) -> CloseBracket {
        *self
    }
}

impl Spanned for CloseBracket {
    open spec fn parts(&self) -> Seq<Span> {
        seq![self.span]
    }

    open spec fn sound(&self) -> bool {
        self.span.well_formed()
    }

    fn span(&self) -> (s: Span) {
        proof {
            lemma_merge_one(self.span);
            assert(self.parts() == seq![self.span]);
        }
        self.span
    }
}

impl Located for CloseBracket {
    open spec fn span_in(v: CloseBracket) -> Span {
        v.span
    }

    proof fn lemma_span_in(&self) {
        lemma_merge_one(self.span);
        assert(self.parts() == seq![self.span]);
        assert(self@ == *self);
    }
}

impl FromToken for CloseBracket {
    open spec fn name_spec() -> Seq<char> {
        "CloseBracket"@
    }

    open spec fn made_of(token: Token) -> Option<CloseBracket> {
        if token.kind == TokenKind::Symbol(Symbol::Close(Delim::Bracket)) {
            Some(CloseBracket { span: token.span })
        } else {
            None
        }
    }

    fn name() -> (s: &'static str) {
        "CloseBracket"
    }

    fn from_token(token: Token) -> (leaf: Option<Self>) {
        if token.kind() == TokenKind::Symbol(Symbol::Close(Delim::Bracket)) {
            Some(CloseBracket { span: token.span() })
        } else {
            None
        }
    }
}

impl CloseBracket {
    /// What reading this leaf gives in the state `before`.
    pub open spec fn model(before: ParserView) -> Outcome<CloseBracket> {
        spanned_leaf(
            before.expect(TokenKind::Symbol(Symbol::Close(Delim::Bracket))),
            |span: Span| CloseBracket { span },
        )
    }
}

impl Parse for CloseBracket {
    open spec fn parsed(before: ParserView) -> Outcome<CloseBracket> {
        Self::model(before)
    }

    open spec fn advances() -> bool {
        true
    }

    fn parse(parser: &mut Parser) -> (r: Result<Self>) {
        proof {
            assert(Self::parsed(parser@) == Self::model(parser@));
            assert(Self::advances());
        }
        match parser.expect(TokenKind::Symbol(Symbol::Close(Delim::Bracket))) {
            Ok(span) => {
                let leaf = CloseBracket { span };
                proof {
                    assert(leaf.parts() == seq![span]);
                    assert(leaf.sound() == span.well_formed());
                    assert(leaf@ == leaf);
                    lemma_leaf(&leaf, span);
                }
                Ok(leaf)
            },
            Err(error) => Err(error),
        }
    }
}

/// The symbol `:=`.
#[derive(Clone, Copy, Debug, PartialEq, Eq, Structural)]
pub struct ColonEqual {
    pub span: Span,
}

impl View for ColonEqual {
    type V = ColonEqual;

    open spec fn view(&self) -> ColonEqual {
        *self
    }
}

impl Spanned for ColonEqual {
    open spec fn parts(&self) -> Seq<Span> {
        seq![self.span]
    }

    open spec fn sound(&self) -> bool {
        self.span.well_formed()
    }

    fn span(&self) -> (s: Span) {
        proof {
            lemma_merge_one(self.span);
            assert(self.parts() == seq![self.span]);
        }
        self.span
    }
}

impl Located for ColonEqual {
    open spec fn span_in(v: ColonEqual) -> Span {
        v.span
    }

    proof fn lemma_span_in(&self) {
        lemma_merge_one(self.span);
        assert(self.parts() == seq![self.span]);
        assert(self@ == *self);
    }
}

impl FromToken for ColonEqual {
    open spec fn name_spec() -> Seq<char> {
        "ColonEqual"@
    }

    open spec fn made_of(token: Token) -> Option<ColonEqual> {
        if token.kind == TokenKind::Symbol(Symbol::ColonEqual) {
            Some(ColonEqual { span: token.span })
        } else {
            None
        }
    }

    fn name() -> (s: &'static str) {
        "ColonEqual"
    }

    fn from_token(token: Token) -> (leaf: Option<Self>) {
        if token.kind() == TokenKind::Symbol(Symbol::ColonEqual) {
            Some(ColonEqual { span: token.span() })
        } else {
            None
        }
    }
}

impl ColonEqual {
    /// What reading this leaf gives in the state `before`.
    pub open spec fn model(before: ParserView) -> Outcome<ColonEqual> {
        spanned_leaf(
            before.expect(TokenKind::Symbol(Symbol::ColonEqual)),
            |span: Span| ColonEqual { span },
        )
    }
}

impl Parse for ColonEqual {
    open spec fn parsed(before: ParserView) -> Outcome<ColonEqual> {
        Self::model(before)
    }

    open spec fn advances() -> bool {
        true
    }

    fn parse(parser: &mut Parser) -> (r: Result<Self>) {
        proof {
            assert(Self::parsed(parser@) == Self::model(parser@));
            assert(Self::advances());
        }
        match parser.expect(TokenKind::Symbol(Symbol::ColonEqual)) {
            Ok(span) => {
                let leaf = ColonEqual { span };
                proof {
                    assert(leaf.parts() == seq![span]);
                    assert(leaf.sound() == span.well_formed());
                    assert(leaf@ == leaf);
                    lemma_leaf(&leaf, span);
                }
                Ok(leaf)
            },
            Err(error) => Err(error),
        }
    }
}

/// The symbol `:`.
#[derive(Clone, Copy, Debug, PartialEq, Eq, Structural)]
pub struct Colon {
    pub span: Span,
}

impl View for Colon {
    type V = Colon;

    open spec fn view(&self) -> Colon {
        *self
    }
}

impl Spanned for Colon {
    open spec fn parts(&self) -> Seq<Span> {
        seq![self.span]
    }

    open spec fn sound(&self) -> bool {
        self.span.well_formed()
    }

    fn span(&self) -> (s: Span) {
        proof {
            lemma_merge_one(self.span);
            assert(self.parts() == seq![self.span]);
        }
        self.span
    }
}

impl Located for Colon {
    open spec fn span_in(v: Colon) -> Span {
        v.span
    }

    proof fn lemma_span_in(&self) {
        lemma_merge_one(self.span);
        assert(self.parts() == seq![self.span]);
        assert(self@ == *self);
    }
}

impl FromToken for Colon {
    open spec fn name_spec() -> Seq<char> {
        "Colon"@
    }

    open spec fn made_of(token: Token) -> Option<Colon> {
        if token.kind == TokenKind::Symbol(Symbol::Colon) {
            Some(Colon { span: token.span })
        } else {
            None
        }
    }

    fn name() -> (s: &'static str) {
        "Colon"
    }

    fn from_token(token: Token) -> (leaf: Option<Self>) {
        if token.kind() == TokenKind::Symbol(Symbol::Colon) {
            Some(Colon { span: token.span() })
        } else {
            None
        }
    }
}

impl Colon {
    /// What reading this leaf gives in the state `before`.
    pub open spec fn model(before: ParserView) -> Outcome<Colon> {
        spanned_leaf(
            before.expect(TokenKind::Symbol(Symbol::Colon)),
            |span: Span| Colon { span },
        )
    }
}

impl Parse for Colon {
    open spec fn parsed(before: ParserView) -> Outcome<Colon> {
        Self::model(before)
    }

    open spec fn advances() -> bool {
        true
    }

    fn parse(parser: &mut Parser) -> (r: Result<Self>) {
        proof {
            assert(Self::parsed(parser@) == Self::model(parser@));
            assert(Self::advances());
        }
        match parser.expect(TokenKind::Symbol(Symbol::Colon)) {
            Ok(span) => {
                let leaf = Colon { span };
                proof {
                    assert(leaf.parts() == seq![span]);
                    assert(leaf.sound() == span.well_formed());
                    assert(leaf@ == leaf);
                    lemma_leaf(&leaf, span);
                }
                Ok(leaf)
            },
            Err(error) => Err(error),
        }
    }
}

/// The symbol `;`.
#[derive(Clone, Copy, Debug, PartialEq, Eq, Structural)]
pub struct SemiColon {
    pub span: Span,
}

impl View for SemiColon {
    type V = SemiColon;

    open spec fn view(&self) -> SemiColon {
        *self
    }
}

impl Spanned for SemiColon {
    open spec fn parts(&self) -> Seq<Span> {
        seq![self.span]
    }

    open spec fn sound(&self) -> bool {
        self.span.well_formed()
    }

    fn span(&self) -> (s: Span) {
        proof {
            lemma_merge_one(self.span);
            assert(self.parts() == seq![self.span]);
        }
        self.span
    }
}

impl Located for SemiColon {
    open spec fn span_in(v: SemiColon) -> Span {
        v.span
    }

    proof fn lemma_span_in(&self) {
        lemma_merge_one(self.span);
        assert(self.parts() == seq![self.span]);
        assert(self@ == *self);
    }
}

impl FromToken for SemiColon {
    open spec fn name_spec() -> Seq<char> {
        "SemiColon"@
    }

    open spec fn made_of(token: Token) -> Option<SemiColon> {
        if token.kind == TokenKind::Symbol(Symbol::SemiColon) {
            Some(SemiColon { span: token.span })
        } else {
            None
        }
    }

    fn name() -> (s: &'static str) {
        "SemiColon"
    }

    fn from_token(token: Token) -> (leaf: Option<Self>) {
        if token.kind() == TokenKind::Symbol(Symbol::SemiColon) {
            Some(SemiColon { span: token.span() })
        } else {
            None
        }
    }
}

impl SemiColon {
    /// What reading this leaf gives in the state `before`.
    pub open spec fn model(before: ParserView) -> Outcome<SemiColon> {
        spanned_leaf(
            before.expect(TokenKind::Symbol(Symbol::SemiColon)),
            |span: Span| SemiColon { span },
        )
    }
}

impl Parse for SemiColon {
    open spec fn parsed(before: ParserView) -> Outcome<SemiColon> {
        Self::model(before)
    }

    open spec fn advances() -> bool {
        true
    }

    fn parse(parser: &mut Parser) -> (r: Result<Self>) {
        proof {
            assert(Self::parsed(parser@) == Self::model(parser@));
            assert(Self::advances());
        }
        match parser.expect(TokenKind::Symbol(Symbol::SemiColon)) {
            Ok(span) => {
                let leaf = SemiColon { span };
                proof {
                    assert(leaf.parts() == seq![span]);
                    assert(leaf.sound() == span.well_formed());
                    assert(leaf@ == leaf);
                    lemma_leaf(&leaf, span);
                }
                Ok(leaf)
            },
            Err(error) => Err(error),
        }
    }
}

/// The symbol `,`.
#[derive(Clone, Copy, Debug, PartialEq, Eq, Structural)]
pub struct Comma {
    pub span: Span,
}

impl View for Comma {
    type V = Comma;

    open spec fn view(&self) -> Comma {
        *self
    }
}

impl Spanned for Comma {
    open spec fn parts(&self) -> Seq<Span> {
        seq![self.span]
    }

    open spec fn sound(&self) -> bool {
        self.span.well_formed()
    }

    fn span(&self) -> (s: Span) {
        proof {
            lemma_merge_one(self.span);
            assert(self.parts() == seq![self.span]);
        }
        self.span
    }
}

impl Located for Comma {
    open spec fn span_in(v: Comma) -> Span {
        v.span
    }

    proof fn lemma_span_in(&self) {
        lemma_merge_one(self.span);
        assert(self.parts() == seq![self.span]);
        assert(self@ == *self);
    }
}

impl FromToken for Comma {
    open spec fn name_spec() -> Seq<char> {
        "Comma"@
    }

    open spec fn made_of(token: Token) -> Option<Comma> {
        if token.kind == TokenKind::Symbol(Symbol::Comma) {
            Some(Comma { span: token.span })
        } else {
            None
        }
    }

    fn name() -> (s: &'static str) {
        "Comma"
    }

    fn from_token(token: Token) -> (leaf: Option<Self>) {
        if token.kind() == TokenKind::Symbol(Symbol::Comma) {
            Some(Comma { span: token.span() })
        } else {
            None
        }
    }
}

impl Comma {
    /// What reading this leaf gives in the state `before`.
    pub open spec fn model(before: ParserView) -> Outcome<Comma> {
        spanned_leaf(
            before.expect(TokenKind::Symbol(Symbol::Comma)),
            |span: Span| Comma { span },
        )
    }
}

impl Parse for Comma {
    open spec fn parsed(before: ParserView) -> Outcome<Comma> {
        Self::model(before)
    }

    open spec fn advances() -> bool {
        true
    }

    fn parse(parser: &mut Parser) -> (r: Result<Self>) {
        proof {
            assert(Self::parsed(parser@) == Self::model(parser@));
            assert(Self::advances());
        }
        match parser.expect(TokenKind::Symbol(Symbol::Comma)) {
            Ok(span) => {
                let leaf = Comma { span };
                proof {
                    assert(leaf.parts() == seq![span]);
                    assert(leaf.sound() == span.well_formed());
                    assert(leaf@ == leaf);
                    lemma_leaf(&leaf, span);
                }
                Ok(leaf)
            },
            Err(error) => Err(error),
        }
    }
}

/// The symbol `.`.
#[derive(Clone, Copy, Debug, PartialEq, Eq, Structural)]
pub struct Period {
    pub span: Span,
}

impl View for Period {
    type V = Period;

    open spec fn view(&self) -> Period {
        *self
    }
}

impl Spanned for Period {
    open spec fn parts(&self) -> Seq<Span> {
        seq![self.span]
    }

    open spec fn sound(&self) -> bool {
        self.span.well_formed()
    }

    fn span(&self) -> (s: Span) {
        proof {
            lemma_merge_one(self.span);
            assert(self.parts() == seq![self.span]);
        }
        self.span
    }
}

impl Located for Period {
    open spec fn span_in(v: Period) -> Span {
        v.span
    }

    proof fn lemma_span_in(&self) {
        lemma_merge_one(self.span);
        assert(self.parts() == seq![self.span]);
        assert(self@ == *self);
    }
}

impl FromToken for Period {
    open spec fn name_spec() -> Seq<char> {
        "Period"@
    }

    open spec fn made_of(token: Token) -> Option<Period> {
        if token.kind == TokenKind::Symbol(Symbol::Period) {
            Some(Period { span: token.span })
        } else {
            None
        }
    }

    fn name() -> (s: &'static str) {
        "Period"
    }

    fn from_token(token: Token) -> (leaf: Option<Self>) {
        if token.kind() == TokenKind::Symbol(Symbol::Period) {
            Some(Period { span: token.span() })
        } else {
            None
        }
    }
}

impl Period {
    /// What reading this leaf gives in the state `before`.
    pub open spec fn model(before: ParserView) -> Outcome<Period> {
        spanned_leaf(
            before.expect(TokenKind::Symbol(Symbol::Period)),
            |span: Span| Period { span },
        )
    }
}

impl Parse for Period {
    open spec fn parsed(before: ParserView) -> Outcome<Period> {
        Self::model(before)
    }

    open spec fn advances() -> bool {
        true
    }

    fn parse(parser: &mut Parser) -> (r: Result<Self>) {
        proof {
            assert(Self::parsed(parser@) == Self::model(parser@));
            assert(Self::advances());
        }
        match parser.expect(TokenKind::Symbol(Symbol::Period)) {
            Ok(span) => {
                let leaf = Period { span };
                proof {
                    assert(leaf.parts() == seq![span]);
                    assert(leaf.sound() == span.well_formed());
                    assert(leaf@ == leaf);
                    lemma_leaf(&leaf, span);
                }
                Ok(leaf)
            },
            Err(error) => Err(error),
        }
    }
}

/// The symbol `+`.
#[derive(Clone, Copy, Debug, PartialEq, Eq, Structural)]
pub struct Plus {
    pub span: Span,
}

impl View for Plus {
    type V = Plus;

    open spec fn view(&self) -> Plus {
        *self
    }
}

impl Spanned for Plus {
    open spec fn parts(&self) -> Seq<Span> {
        seq![self.span]
    }

    open spec fn sound(&self) -> bool {
        self.span.well_formed()
    }

    fn span(&self) -> (s: Span) {
        proof {
            lemma_merge_one(self.span);
            assert(self.parts() == seq![self.span]);
        }
        self.span
    }
}

impl Located for Plus {
    open spec fn span_in(v: Plus) -> Span {
        v.span
    }

    proof fn lemma_span_in(&self) {
        lemma_merge_one(self.span);
        assert(self.parts() == seq![self.span]);
        assert(self@ == *self);
    }
}

impl FromToken for Plus {
    open spec fn name_spec() -> Seq<char> {
        "Plus"@
    }

    open spec fn made_of(token: Token) -> Option<Plus> {
        if token.kind == TokenKind::Symbol(Symbol::Plus) {
            Some(Plus { span: token.span })
        } else {
            None
        }
    }

    fn name() -> (s: &'static str) {
        "Plus"
    }

    fn from_token(token: Token) -> (leaf: Option<Self>) {
        if token.kind() == TokenKind::Symbol(Symbol::Plus) {
            Some(Plus { span: token.span() })
        } else {
            None
        }
    }
}

impl Plus {
    /// What reading this leaf gives in the state `before`.
    pub open spec fn model(before: ParserView) -> Outcome<Plus> {
        spanned_leaf(
            before.expect(TokenKind::Symbol(Symbol::Plus)),
            |span: Span| Plus { span },
        )
    }
}

impl Parse for Plus {
    open spec fn parsed(before: ParserView) -> Outcome<Plus> {
        Self::model(before)
    }

    open spec fn advances() -> bool {
        true
    }

    fn parse(parser: &mut Parser) -> (r: Result<Self>) {
        proof {
            assert(Self::parsed(parser@) == Self::model(parser@));
            assert(Self::advances());
        }
        match parser.expect(TokenKind::Symbol(Symbol::Plus)) {
            Ok(span) => {
                let leaf = Plus { span };
                proof {
                    assert(leaf.parts() == seq![span]);
                    assert(leaf.sound() == span.well_formed());
                    assert(leaf@ == leaf);
                    lemma_leaf(&leaf, span);
                }
                Ok(leaf)
            },
            Err(error) => Err(error),
        }
    }
}

/// The symbol `-`.
#[derive(Clone, Copy, Debug, PartialEq, Eq, Structural)]
pub struct Minus {
    pub span: Span,
}

impl View for Minus {
    type V = Minus;

    open spec fn view(&self) -> Minus {
        *self
    }
}

impl Spanned for Minus {
    open spec fn parts(&self) -> Seq<Span> {
        seq![self.span]
    }

    open spec fn sound(&self) -> bool {
        self.span.well_formed()
    }

    fn span(&self) -> (s: Span) {
        proof {
            lemma_merge_one(self.span);
            assert(self.parts() == seq![self.span]);
        }
        self.span
    }
}

impl Located for Minus {
    open spec fn span_in(v: Minus) -> Span {
        v.span
    }

    proof fn lemma_span_in(&self) {
        lemma_merge_one(self.span);
        assert(self.parts() == seq![self.span]);
        assert(self@ == *self);
    }
}

impl FromToken for Minus {
    open spec fn name_spec() -> Seq<char> {
        "Minus"@
    }

    open spec fn made_of(token: Token) -> Option<Minus> {
        if token.kind == TokenKind::Symbol(Symbol::Minus) {
            Some(Minus { span: token.span })
        } else {
            None
        }
    }

    fn name() -> (s: &'static str) {
        "Minus"
    }

    fn from_token(token: Token) -> (leaf: Option<Self>) {
        if token.kind() == TokenKind::Symbol(Symbol::Minus) {
            Some(Minus { span: token.span() })
        } else {
            None
        }
    }
}

impl Minus {
    /// What reading this leaf gives in the state `before`.
    pub open spec fn model(before: ParserView) -> Outcome<Minus> {
        spanned_leaf(
            before.expect(TokenKind::Symbol(Symbol::Minus)),
            |span: Span| Minus { span },
        )
    }
}

impl Parse for Minus {
    open spec fn parsed(before: ParserView) -> Outcome<Minus> {
        Self::model(before)
    }

    open spec fn advances() -> bool {
        true
    }

    fn parse(parser: &mut Parser) -> (r: Result<Self>) {
        proof {
            assert(Self::parsed(parser@) == Self::model(parser@));
            assert(Self::advances());
        }
        match parser.expect(TokenKind::Symbol(Symbol::Minus)) {
            Ok(span) => {
                let leaf = Minus { span };
                proof {
                    assert(leaf.parts() == seq![span]);
                    assert(leaf.sound() == span.well_formed());
                    assert(leaf@ == leaf);
                    lemma_leaf(&leaf, span);
                }
                Ok(leaf)
            },
            Err(error) => Err(error),
        }
    }
}

/// The symbol `*`.
#[derive(Clone, Copy, Debug, PartialEq, Eq, Structural)]
pub struct Asterisk {
    pub span: Span,
}

impl View for Asterisk {
    type V = Asterisk;

    open spec fn view(&self) -> Asterisk {
        *self
    }
}

impl Spanned for Asterisk {
    open spec fn parts(&self) -> Seq<Span> {
        seq![self.span]
    }

    open spec fn sound(&self) -> bool {
        self.span.well_formed()
    }

    fn span(&self) -> (s: Span) {
        proof {
            lemma_merge_one(self.span);
            assert(self.parts() == seq![self.span]);
        }
        self.span
    }
}

impl Located for Asterisk {
    open spec fn span_in(v: Asterisk) -> Span {
        v.span
    }

    proof fn lemma_span_in(&self) {
        lemma_merge_one(self.span);
        assert(self.parts() == seq![self.span]);
        assert(self@ == *self);
    }
}

impl FromToken for Asterisk {
    open spec fn name_spec() -> Seq<char> {
        "Asterisk"@
    }

    open spec fn made_of(token: Token) -> Option<Asterisk> {
        if token.kind == TokenKind::Symbol(Symbol::Asterisk) {
            Some(Asterisk { span: token.span })
        } else {
            None
        }
    }

    fn name() -> (s: &'static str) {
        "Asterisk"
    }

    fn from_token(token: Token) -> (leaf: Option<Self>) {
        if token.kind() == TokenKind::Symbol(Symbol::Asterisk) {
            Some(Asterisk { span: token.span() })
        } else {
            None
        }
    }
}

impl Asterisk {
    /// What reading this leaf gives in the state `before`.
    pub open spec fn model(before: ParserView) -> Outcome<Asterisk> {
        spanned_leaf(
            before.expect(TokenKind::Symbol(Symbol::Asterisk)),
            |span: Span| Asterisk { span },
        )
    }
}

impl Parse for Asterisk {
    open spec fn parsed(before: ParserView) -> Outcome<Asterisk> {
        Self::model(before)
    }

    open spec fn advances() -> bool {
        true
    }

    fn parse(parser: &mut Parser) -> (r: Result<Self>) {
        proof {
            assert(Self::parsed(parser@) == Self::model(parser@));
            assert(Self::advances());
        }
        match parser.expect(TokenKind::Symbol(Symbol::Asterisk)) {
            Ok(span) => {
                let leaf = Asterisk { span };
                proof {
                    assert(leaf.parts() == seq![span]);
                    assert(leaf.sound() == span.well_formed());
                    assert(leaf@ == leaf);
                    lemma_leaf(&leaf, span);
                }
                Ok(leaf)
            },
            Err(error) => Err(error),
        }
    }
}

/// The symbol `/`.
#[derive(Clone, Copy, Debug, PartialEq, Eq, Structural)]
pub struct Slash {
    pub span: Span,
}

impl View for Slash {
    type V = Slash;

    open spec fn view(&self) -> Slash {
        *self
    }
}

impl Spanned for Slash {
    open spec fn parts(&self) -> Seq<Span> {
        seq![self.span]
    }

    open spec fn sound(&self) -> bool {
        self.span.well_formed()
    }

    fn span(&self) -> (s: Span) {
        proof {
            lemma_merge_one(self.span);
            assert(self.parts() == seq![self.span]);
        }
        self.span
    }
}

impl Located for Slash {
    open spec fn span_in(v: Slash) -> Span {
        v.span
    }

    proof fn lemma_span_in(&self) {
        lemma_merge_one(self.span);
        assert(self.parts() == seq![self.span]);
        assert(self@ == *self);
    }
}

impl FromToken for Slash {
    open spec fn name_spec() -> Seq<char> {
        "Slash"@
    }

    open spec fn made_of(token: Token) -> Option<Slash> {
        if token.kind == TokenKind::Symbol(Symbol::Slash) {
            Some(Slash { span: token.span })
        } else {
            None
        }
    }

    fn name() -> (s: &'static str) {
        "Slash"
    }

    fn from_token(token: Token) -> (leaf: Option<Self>) {
        if token.kind() == TokenKind::Symbol(Symbol::Slash) {
            Some(Slash { span: token.span() })
        } else {
            None
        }
    }
}

impl Slash {
    /// What reading this leaf gives in the state `before`.
    pub open spec fn model(before: ParserView) -> Outcome<Slash> {
        spanned_leaf(
            before.expect(TokenKind::Symbol(Symbol::Slash)),
            |span: Span| Slash { span },
        )
    }
}

impl Parse for Slash {
    open spec fn parsed(before: ParserView) -> Outcome<Slash> {
        Self::model(before)
    }

    open spec fn advances() -> bool {
        true
    }

    fn parse(parser: &mut Parser) -> (r: Result<Self>) {
        proof {
            assert(Self::parsed(parser@) == Self::model(parser@));
            assert(Self::advances());
        }
        match parser.expect(TokenKind::Symbol(Symbol::Slash)) {
            Ok(span) => {
                let leaf = Slash { span };
                proof {
                    assert(leaf.parts() == seq![span]);
                    assert(leaf.sound() == span.well_formed());
                    assert(leaf@ == leaf);
                    lemma_leaf(&leaf, span);
                }
                Ok(leaf)
            },
            Err(error) => Err(error),
        }
    }
}

/// The symbol `==`.
#[derive(Clone, Copy, Debug, PartialEq, Eq, Structural)]
pub struct EqualEqual {
    pub span: Span,
}

impl View for EqualEqual {
    type V = EqualEqual;

    open spec fn view(&self) -> EqualEqual {
        *self
    }
}

impl Spanned for EqualEqual {
    open spec fn parts(&self) -> Seq<Span> {
        seq![self.span]
    }

    open spec fn sound(&self) -> bool {
        self.span.well_formed()
    }

    fn span(&self) -> (s: Span) {
        proof {
            lemma_merge_one(self.span);
            assert(self.parts() == seq![self.span]);
        }
        self.span
    }
}

impl Located for EqualEqual {
    open spec fn span_in(v: EqualEqual) -> Span {
        v.span
    }

    proof fn lemma_span_in(&self) {
        lemma_merge_one(self.span);
        assert(self.parts() == seq![self.span]);
        assert(self@ == *self);
    }
}

impl FromToken for EqualEqual {
    open spec fn name_spec() -> Seq<char> {
        "EqualEqual"@
    }

    open spec fn made_of(token: Token) -> Option<EqualEqual> {
        if token.kind == TokenKind::Symbol(Symbol::EqualEqual) {
            Some(EqualEqual { span: token.span })
        } else {
            None
        }
    }

    fn name() -> (s: &'static str) {
        "EqualEqual"
    }

    fn from_token(token: Token) -> (leaf: Option<Self>) {
        if token.kind() == TokenKind::Symbol(Symbol::EqualEqual) {
            Some(EqualEqual { span: token.span() })
        } else {
            None
        }
    }
}

impl EqualEqual {
    /// What reading this leaf gives in the state `before`.
    pub open spec fn model(before: ParserView) -> Outcome<EqualEqual> {
        spanned_leaf(
            before.expect(TokenKind::Symbol(Symbol::EqualEqual)),
            |span: Span| EqualEqual { span },
        )
    }
}

impl Parse for EqualEqual {
    open spec fn parsed(before: ParserView) -> Outcome<EqualEqual> {
        Self::model(before)
    }

    open spec fn advances() -> bool {
        true
    }

    fn parse(parser: &mut Parser) -> (r: Result<Self>) {
        proof {
            assert(Self::parsed(parser@) == Self::model(parser@));
            assert(Self::advances());
        }
        match parser.expect(TokenKind::Symbol(Symbol::EqualEqual)) {
            Ok(span) => {
                let leaf = EqualEqual { span };
                proof {
                    assert(leaf.parts() == seq![span]);
                    assert(leaf.sound() == span.well_formed());
                    assert(leaf@ == leaf);
                    lemma_leaf(&leaf, span);
                }
                Ok(leaf)
            },
            Err(error) => Err(error),
        }
    }
}

/// The symbol `=`.
#[derive(Clone, Copy, Debug, PartialEq, Eq, Structural)]
pub struct Equal {
    pub span: Span,
}

impl View for Equal {
    type V = Equal;

    open spec fn view(&self) -> Equal {
        *self
    }
}

impl Spanned for Equal {
    open spec fn parts(&self) -> Seq<Span> {
        seq![self.span]
    }

    open spec fn sound(&self) -> bool {
        self.span.well_formed()
    }

    fn span(&self) -> (s: Span) {
        proof {
            lemma_merge_one(self.span);
            assert(self.parts() == seq![self.span]);
        }
        self.span
    }
}

impl Located for Equal {
    open spec fn span_in(v: Equal) -> Span {
        v.span
    }

    proof fn lemma_span_in(&self) {
        lemma_merge_one(self.span);
        assert(self.parts() == seq![self.span]);
        assert(self@ == *self);
    }
}

impl FromToken for Equal {
    open spec fn name_spec() -> Seq<char> {
        "Equal"@
    }

    open spec fn made_of(token: Token) -> Option<Equal> {
        if token.kind == TokenKind::Symbol(Symbol::Equal) {
            Some(Equal { span: token.span })
        } else {
            None
        }
    }

    fn name() -> (s: &'static str) {
        "Equal"
    }

    fn from_token(token: Token) -> (leaf: Option<Self>) {
        if token.kind() == TokenKind::Symbol(Symbol::Equal) {
            Some(Equal { span: token.span() })
        } else {
            None
        }
    }
}

impl Equal {
    /// What reading this leaf gives in the state `before`.
    pub open spec fn model(before: ParserView) -> Outcome<Equal> {
        spanned_leaf(
            before.expect(TokenKind::Symbol(Symbol::Equal)),
            |span: Span| Equal { span },
        )
    }
}

impl Parse for Equal {
    open spec fn parsed(before: ParserView) -> Outcome<Equal> {
        Self::model(before)
    }

    open spec fn advances() -> bool {
        true
    }

    fn parse(parser: &mut Parser) -> (r: Result<Self>) {
        proof {
            assert(Self::parsed(parser@) == Self::model(parser@));
            assert(Self::advances());
        }
        match parser.expect(TokenKind::Symbol(Symbol::Equal)) {
            Ok(span) => {
                let leaf = Equal { span };
                proof {
                    assert(leaf.parts() == seq![span]);
                    assert(leaf.sound() == span.well_formed());
                    assert(leaf@ == leaf);
                    lemma_leaf(&leaf, span);
                }
                Ok(leaf)
            },
            Err(error) => Err(error),
        }
    }
}

/// The symbol `>=`.
#[derive(Clone, Copy, Debug, PartialEq, Eq, Structural)]
pub struct GtEqual {
    pub span: Span,
}

impl View for GtEqual {
    type V = GtEqual;

    open spec fn view(&self) -> GtEqual {
        *self
    }
}

impl Spanned for GtEqual {
    open spec fn parts(&self) -> Seq<Span> {
        seq![self.span]
    }

    open spec fn sound(&self) -> bool {
        self.span.well_formed()
    }

    fn span(&self) -> (s: Span) {
        proof {
            lemma_merge_one(self.span);
            assert(self.parts() == seq![self.span]);
        }
        self.span
    }
}

impl Located for GtEqual {
    open spec fn span_in(v: GtEqual) -> Span {
        v.span
    }

    proof fn lemma_span_in(&self) {
        lemma_merge_one(self.span);
        assert(self.parts() == seq![self.span]);
        assert(self@ == *self);
    }
}

impl FromToken for GtEqual {
    open spec fn name_spec() -> Seq<char> {
        "GtEqual"@
    }

    open spec fn made_of(token: Token) -> Option<GtEqual> {
        if token.kind == TokenKind::Symbol(Symbol::GtEqual) {
            Some(GtEqual { span: token.span })
        } else {
            None
        }
    }

    fn name() -> (s: &'static str) {
        "GtEqual"
    }

    fn from_token(token: Token) -> (leaf: Option<Self>) {
        if token.kind() == TokenKind::Symbol(Symbol::GtEqual) {
            Some(GtEqual { span: token.span() })
        } else {
            None
        }
    }
}

impl GtEqual {
    /// What reading this leaf gives in the state `before`.
    pub open spec fn model(before: ParserView) -> Outcome<GtEqual> {
        spanned_leaf(
            before.expect(TokenKind::Symbol(Symbol::GtEqual)),
            |span: Span| GtEqual { span },
        )
    }
}

impl Parse for GtEqual {
    open spec fn parsed(before: ParserView) -> Outcome<GtEqual> {
        Self::model(before)
    }

    open spec fn advances() -> bool {
        true
    }

    fn parse(parser: &mut Parser) -> (r: Result<Self>) {
        proof {
            assert(Self::parsed(parser@) == Self::model(parser@));
            assert(Self::advances());
        }
        match parser.expect(TokenKind::Symbol(Symbol::GtEqual)) {
            Ok(span) => {
                let leaf = GtEqual { span };
                proof {
                    assert(leaf.parts() == seq![span]);
                    assert(leaf.sound() == span.well_formed());
                    assert(leaf@ == leaf);
                    lemma_leaf(&leaf, span);
                }
                Ok(leaf)
            },
            Err(error) => Err(error),
        }
    }
}

/// The symbol `>`.
#[derive(Clone, Copy, Debug, PartialEq, Eq, Structural)]
pub struct Gt {
    pub span: Span,
}

impl View for Gt {
    type V = Gt;

    open spec fn view(&self) -> Gt {
        *self
    }
}

impl Spanned for Gt {
    open spec fn parts(&self) -> Seq<Span> {
        seq![self.span]
    }

    open spec fn sound(&self) -> bool {
        self.span.well_formed()
    }

    fn span(&self) -> (s: Span) {
        proof {
            lemma_merge_one(self.span);
            assert(self.parts() == seq![self.span]);
        }
        self.span
    }
}

impl Located for Gt {
    open spec fn span_in(v: Gt) -> Span {
        v.span
    }

    proof fn lemma_span_in(&self) {
        lemma_merge_one(self.span);
        assert(self.parts() == seq![self.span]);
        assert(self@ == *self);
    }
}

impl FromToken for Gt {
    open spec fn name_spec() -> Seq<char> {
        "Gt"@
    }

    open spec fn made_of(token: Token) -> Option<Gt> {
        if token.kind == TokenKind::Symbol(Symbol::Gt) {
            Some(Gt { span: token.span })
        } else {
            None
        }
    }

    fn name() -> (s: &'static str) {
        "Gt"
    }

    fn from_token(token: Token) -> (leaf: Option<Self>) {
        if token.kind() == TokenKind::Symbol(Symbol::Gt) {
            Some(Gt { span: token.span() })
        } else {
            None
        }
    }
}

impl Gt {
    /// What reading this leaf gives in the state `before`.
    pub open spec fn model(before: ParserView) -> Outcome<Gt> {
        spanned_leaf(
            before.expect(TokenKind::Symbol(Symbol::Gt)),
            |span: Span| Gt { span },
        )
    }
}

impl Parse for Gt {
    open spec fn parsed(before: ParserView) -> Outcome<Gt> {
        Self::model(before)
    }

    open spec fn advances() -> bool {
        true
    }

    fn parse(parser: &mut Parser) -> (r: Result<Self>) {
        proof {
            assert(Self::parsed(parser@) == Self::model(parser@));
            assert(Self::advances());
        }
        match parser.expect(TokenKind::Symbol(Symbol::Gt)) {
            Ok(span) => {
                let leaf = Gt { span };
                proof {
                    assert(leaf.parts() == seq![span]);
                    assert(leaf.sound() == span.well_formed());
                    assert(leaf@ == leaf);
                    lemma_leaf(&leaf, span);
                }
                Ok(leaf)
            },
            Err(error) => Err(error),
        }
    }
}

/// The symbol `<=`.
#[derive(Clone, Copy, Debug, PartialEq, Eq, Structural)]
pub struct LtEqual {
    pub span: Span,
}

impl View for LtEqual {
    type V = LtEqual;

    open spec fn view(&self) -> LtEqual {
        *self
    }
}

impl Spanned for LtEqual {
    open spec fn parts(&self) -> Seq<Span> {
        seq![self.span]
    }

    open spec fn sound(&self) -> bool {
        self.span.well_formed()
    }

    fn span(&self) -> (s: Span) {
        proof {
            lemma_merge_one(self.span);
            assert(self.parts() == seq![self.span]);
        }
        self.span
    }
}

impl Located for LtEqual {
    open spec fn span_in(v: LtEqual) -> Span {
        v.span
    }

    proof fn lemma_span_in(&self) {
        lemma_merge_one(self.span);
        assert(self.parts() == seq![self.span]);
        assert(self@ == *self);
    }
}

impl FromToken for LtEqual {
    open spec fn name_spec() -> Seq<char> {
        "LtEqual"@
    }

    open spec fn made_of(token: Token) -> Option<LtEqual> {
        if token.kind == TokenKind::Symbol(Symbol::LtEqual) {
            Some(LtEqual { span: token.span })
        } else {
            None
        }
    }

    fn name() -> (s: &'static str) {
        "LtEqual"
    }

    fn from_token(token: Token) -> (leaf: Option<Self>) {
        if token.kind() == TokenKind::Symbol(Symbol::LtEqual) {
            Some(LtEqual { span: token.span() })
        } else {
            None
        }
    }
}

impl LtEqual {
    /// What reading this leaf gives in the state `before`.
    pub open spec fn model(before: ParserView) -> Outcome<LtEqual> {
        spanned_leaf(
            before.expect(TokenKind::Symbol(Symbol::LtEqual)),
            |span: Span| LtEqual { span },
        )
    }
}

impl Parse for LtEqual {
    open spec fn parsed(before: ParserView) -> Outcome<LtEqual> {
        Self::model(before)
    }

    open spec fn advances() -> bool {
        true
    }

    fn parse(parser: &mut Parser) -> (r: Result<Self>) {
        proof {
            assert(Self::parsed(parser@) == Self::model(parser@));
            assert(Self::advances());
        }
        match parser.expect(TokenKind::Symbol(Symbol::LtEqual)) {
            Ok(span) => {
                let leaf = LtEqual { span };
                proof {
                    assert(leaf.parts() == seq![span]);
                    assert(leaf.sound() == span.well_formed());
                    assert(leaf@ == leaf);
                    lemma_leaf(&leaf, span);
                }
                Ok(leaf)
            },
            Err(error) => Err(error),
        }
    }
}

/// The symbol `<`.
#[derive(Clone, Copy, Debug, PartialEq, Eq, Structural)]
pub struct Lt {
    pub span: Span,
}

impl View for Lt {
    type V = Lt;

    open spec fn view(&self) -> Lt {
        *self
    }
}

impl Spanned for Lt {
    open spec fn parts(&self) -> Seq<Span> {
        seq![self.span]
    }

    open spec fn sound(&self) -> bool {
        self.span.well_formed()
    }

    fn span(&self) -> (s: Span) {
        proof {
            lemma_merge_one(self.span);
            assert(self.parts() == seq![self.span]);
        }
        self.span
    }
}

impl Located for Lt {
    open spec fn span_in(v: Lt) -> Span {
        v.span
    }

    proof fn lemma_span_in(&self) {
        lemma_merge_one(self.span);
        assert(self.parts() == seq![self.span]);
        assert(self@ == *self);
    }
}

impl FromToken for Lt {
    open spec fn name_spec() -> Seq<char> {
        "Lt"@
    }

    open spec fn made_of(token: Token) -> Option<Lt> {
        if token.kind == TokenKind::Symbol(Symbol::Lt) {
            Some(Lt { span: token.span })
        } else {
            None
        }
    }

    fn name() -> (s: &'static str) {
        "Lt"
    }

    fn from_token(token: Token) -> (leaf: Option<Self>) {
        if token.kind() == TokenKind::Symbol(Symbol::Lt) {
            Some(Lt { span: token.span() })
        } else {
            None
        }
    }
}

impl Lt {
    /// What reading this leaf gives in the state `before`.
    pub open spec fn model(before: ParserView) -> Outcome<Lt> {
        spanned_leaf(
            before.expect(TokenKind::Symbol(Symbol::Lt)),
            |span: Span| Lt { span },
        )
    }
}

impl Parse for Lt {
    open spec fn parsed(before: ParserView) -> Outcome<Lt> {
        Self::model(before)
    }

    open spec fn advances() -> bool {
        true
    }

    fn parse(parser: &mut Parser) -> (r: Result<Self>) {
        proof {
            assert(Self::parsed(parser@) == Self::model(parser@));
            assert(Self::advances());
        }
        match parser.expect(TokenKind::Symbol(Symbol::Lt)) {
            Ok(span) => {
                let leaf = Lt { span };
                proof {
                    assert(leaf.parts() == seq![span]);
                    assert(leaf.sound() == span.well_formed());
                    assert(leaf@ == leaf);
                    lemma_leaf(&leaf, span);
                }
                Ok(leaf)
            },
            Err(error) => Err(error),
        }
    }
}

/// The keyword `event`.
#[derive(Clone, Copy, Debug, PartialEq, Eq, Structural)]
pub struct Event {
    pub span: Span,
}

impl View for Event {
    type V = Event;

    open spec fn view(&self) -> Event {
        *self
    }
}

impl Spanned for Event {
    open spec fn parts(&self) -> Seq<Span> {
        seq![self.span]
    }

    open spec fn sound(&self) -> bool {
        self.span.well_formed()
    }

    fn span(&self) -> (s: Span) {
        proof {
            lemma_merge_one(self.span);
            assert(self.parts() == seq![self.span]);
        }
        self.span
    }
}

impl Located for Event {
    open spec fn span_in(v: Event) -> Span {
        v.span
    }

    proof fn lemma_span_in(&self) {
        lemma_merge_one(self.span);
        assert(self.parts() == seq![self.span]);
        assert(self@ == *self);
    }
}

impl FromToken for Event {
    open spec fn name_spec() -> Seq<char> {
        "Event"@
    }

    open spec fn made_of(token: Token) -> Option<Event> {
        if token.kind == TokenKind::Keyword(Keyword::Event) {
            Some(Event { span: token.span })
        } else {
            None
        }
    }

    fn name() -> (s: &'static str) {
        "Event"
    }

    fn from_token(token: Token) -> (leaf: Option<Self>) {
        if token.kind() == TokenKind::Keyword(Keyword::Event) {
            Some(Event { span: token.span() })
        } else {
            None
        }
    }
}

impl Event {
    /// What reading this leaf gives in the state `before`.
    pub open spec fn model(before: ParserView) -> Outcome<Event> {
        spanned_leaf(
            before.expect(TokenKind::Keyword(Keyword::Event)),
            |span: Span| Event { span },
        )
    }
}

impl Parse for Event {
    open spec fn parsed(before: ParserView) -> Outcome<Event> {
        Self::model(before)
    }

    open spec fn advances() -> bool {
        true
    }

    fn parse(parser: &mut Parser) -> (r: Result<Self>) {
        proof {
            assert(Self::parsed(parser@) == Self::model(parser@));
            assert(Self::advances());
        }
        match parser.expect(TokenKind::Keyword(Keyword::Event)) {
            Ok(span) => {
                let leaf = Event { span };
                proof {
                    assert(leaf.parts() == seq![span]);
                    assert(leaf.sound() == span.well_formed());
                    assert(leaf@ == leaf);
                    lemma_leaf(&leaf, span);
                }
                Ok(leaf)
            },
            Err(error) => Err(error),
        }
    }
}

/// The keyword `query`.
#[derive(Clone, Copy, Debug, PartialEq, Eq, Structural)]
pub struct Query {
    pub span: Span,
}

impl View for Query {
    type V = Query;

    open spec fn view(&self) -> Query {
        *self
    }
}

impl Spanned for Query {
    open spec fn parts(&self) -> Seq<Span> {
        seq![self.span]
    }

    open spec fn sound(&self) -> bool {
        self.span.well_formed()
    }

    fn span(&self) -> (s: Span) {
        proof {
            lemma_merge_one(self.span);
            assert(self.parts() == seq![self.span]);
        }
        self.span
    }
}

impl Located for Query {
    open spec fn span_in(v: Query) -> Span {
        v.span
    }

    proof fn lemma_span_in(&self) {
        lemma_merge_one(self.span);
        assert(self.parts() == seq![self.span]);
        assert(self@ == *self);
    }
}

impl FromToken for Query {
    open spec fn name_spec() -> Seq<char> {
        "Query"@
    }

    open spec fn made_of(token: Token) -> Option<Query> {
        if token.kind == TokenKind::Keyword(Keyword::Query) {
            Some(Query { span: token.span })
        } else {
            None
        }
    }

    fn name() -> (s: &'static str) {
        "Query"
    }

    fn from_token(token: Token) -> (leaf: Option<Self>) {
        if token.kind() == TokenKind::Keyword(Keyword::Query) {
            Some(Query { span: token.span() })
        } else {
            None
        }
    }
}

impl Query {
    /// What reading this leaf gives in the state `before`.
    pub open spec fn model(before: ParserView) -> Outcome<Query> {
        spanned_leaf(
            before.expect(TokenKind::Keyword(Keyword::Query)),
            |span: Span| Query { span },
        )
    }
}

impl Parse for Query {
    open spec fn parsed(before: ParserView) -> Outcome<Query> {
        Self::model(before)
    }

    open spec fn advances() -> bool {
        true
    }

    fn parse(parser: &mut Parser) -> (r: Result<Self>) {
        proof {
            assert(Self::parsed(parser@) == Self::model(parser@));
            assert(Self::advances());
        }
        match parser.expect(TokenKind::Keyword(Keyword::Query)) {
            Ok(span) => {
                let leaf = Query { span };
                proof {
                    assert(leaf.parts() == seq![span]);
                    assert(leaf.sound() == span.well_formed());
                    assert(leaf@ == leaf);
                    lemma_leaf(&leaf, span);
                }
                Ok(leaf)
            },
            Err(error) => Err(error),
        }
    }
}

/// The keyword `where`.
#[derive(Clone, Copy, Debug, PartialEq, Eq, Structural)]
pub struct Where {
    pub span: Span,
}

impl View for Where {
    type V = Where;

    open spec fn view(&self) -> Where {
        *self
    }
}

impl Spanned for Where {
    open spec fn parts(&self) -> Seq<Span> {
        seq![self.span]
    }

    open spec fn sound(&self) -> bool {
        self.span.well_formed()
    }

    fn span(&self) -> (s: Span) {
        proof {
            lemma_merge_one(self.span);
            assert(self.parts() == seq![self.span]);
        }
        self.span
    }
}

impl Located for Where {
    open spec fn span_in(v: Where) -> Span {
        v.span
    }

    proof fn lemma_span_in(&self) {
        lemma_merge_one(self.span);
        assert(self.parts() == seq![self.span]);
        assert(self@ == *self);
    }
}

impl FromToken for Where {
    open spec fn name_spec() -> Seq<char> {
        "Where"@
    }

    open spec fn made_of(token: Token) -> Option<Where> {
        if token.kind == TokenKind::Keyword(Keyword::Where) {
            Some(Where { span: token.span })
        } else {
            None
        }
    }

    fn name() -> (s: &'static str) {
        "Where"
    }

    fn from_token(token: Token) -> (leaf: Option<Self>) {
        if token.kind() == TokenKind::Keyword(Keyword::Where) {
            Some(Where { span: token.span() })
        } else {
            None
        }
    }
}

impl Where {
    /// What reading this leaf gives in the state `before`.
    pub open spec fn model(before: ParserView) -> Outcome<Where> {
        spanned_leaf(
            before.expect(TokenKind::Keyword(Keyword::Where)),
            |span: Span| Where { span },
        )
    }
}

impl Parse for Where {
    open spec fn parsed(before: ParserView) -> Outcome<Where> {
        Self::model(before)
    }

    open spec fn advances() -> bool {
        true
    }

    fn parse(parser: &mut Parser) -> (r: Result<Self>) {
        proof {
            assert(Self::parsed(parser@) == Self::model(parser@));
            assert(Self::advances());
        }
        match parser.expect(TokenKind::Keyword(Keyword::Where)) {
            Ok(span) => {
                let leaf = Where { span };
                proof {
                    assert(leaf.parts() == seq![span]);
                    assert(leaf.sound() == span.well_formed());
                    assert(leaf@ == leaf);
                    lemma_leaf(&leaf, span);
                }
                Ok(leaf)
            },
            Err(error) => Err(error),
        }
    }
}

/// The keyword `ln`.
#[derive(Clone, Copy, Debug, PartialEq, Eq, Structural)]
pub struct Ln {
    pub span: Span,
}

impl View for Ln {
    type V = Ln;

    open spec fn view(&self) -> Ln {
        *self
    }
}

impl Spanned for Ln {
    open spec fn parts(&self) -> Seq<Span> {
        seq![self.span]
    }

    open spec fn sound(&self) -> bool {
        self.span.well_formed()
    }

    fn span(&self) -> (s: Span) {
        proof {
            lemma_merge_one(self.span);
            assert(self.parts() == seq![self.span]);
        }
        self.span
    }
}

impl Located for Ln {
    open spec fn span_in(v: Ln) -> Span {
        v.span
    }

    proof fn lemma_span_in(&self) {
        lemma_merge_one(self.span);
        assert(self.parts() == seq![self.span]);
        assert(self@ == *self);
    }
}

impl FromToken for Ln {
    open spec fn name_spec() -> Seq<char> {
        "Ln"@
    }

    open spec fn made_of(token: Token) -> Option<Ln> {
        if token.kind == TokenKind::Keyword(Keyword::Ln) {
            Some(Ln { span: token.span })
        } else {
            None
        }
    }

    fn name() -> (s: &'static str) {
        "Ln"
    }

    fn from_token(token: Token) -> (leaf: Option<Self>) {
        if token.kind() == TokenKind::Keyword(Keyword::Ln) {
            Some(Ln { span: token.span() })
        } else {
            None
        }
    }
}

impl Ln {
    /// What reading this leaf gives in the state `before`.
    pub open spec fn model(before: ParserView) -> Outcome<Ln> {
        spanned_leaf(
            before.expect(TokenKind::Keyword(Keyword::Ln)),
            |span: Span| Ln { span },
        )
    }
}

impl Parse for Ln {
    open spec fn parsed(before: ParserView) -> Outcome<Ln> {
        Self::model(before)
    }

    open spec fn advances() -> bool {
        true
    }

    fn parse(parser: &mut Parser) -> (r: Result<Self>) {
        proof {
            assert(Self::parsed(parser@) == Self::model(parser@));
            assert(Self::advances());
        }
        match parser.expect(TokenKind::Keyword(Keyword::Ln)) {
            Ok(span) => {
                let leaf = Ln { span };
                proof {
                    assert(leaf.parts() == seq![span]);
                    assert(leaf.sound() == span.well_formed());
                    assert(leaf@ == leaf);
                    lemma_leaf(&leaf, span);
                }
                Ok(leaf)
            },
            Err(error) => Err(error),
        }
    }
}

/// The keyword `fn`.
#[derive(Clone, Copy, Debug, PartialEq, Eq, Structural)]
pub struct Fn {
    pub span: Span,
}

impl View for Fn {
    type V = Fn;

    open spec fn view(&self) -> Fn {
        *self
    }
}

impl Spanned for Fn {
    open spec fn parts(&self) -> Seq<Span> {
        seq![self.span]
    }

    open spec fn sound(&self) -> bool {
        self.span.well_formed()
    }

    fn span(&self) -> (s: Span) {
        proof {
            lemma_merge_one(self.span);
            assert(self.parts() == seq![self.span]);
        }
        self.span
    }
}

impl Located for Fn {
    open spec fn span_in(v: Fn) -> Span {
        v.span
    }

    proof fn lemma_span_in(&self) {
        lemma_merge_one(self.span);
        assert(self.parts() == seq![self.span]);
        assert(self@ == *self);
    }
}

impl FromToken for Fn {
    open spec fn name_spec() -> Seq<char> {
        "Fn"@
    }

    open spec fn made_of(token: Token) -> Option<Fn> {
        if token.kind == TokenKind::Keyword(Keyword::Fn) {
            Some(Fn { span: token.span })
        } else {
            None
        }
    }

    fn name() -> (s: &'static str) {
        "Fn"
    }

    fn from_token(token: Token) -> (leaf: Option<Self>) {
        if token.kind() == TokenKind::Keyword(Keyword::Fn) {
            Some(Fn { span: token.span() })
        } else {
            None
        }
    }
}

impl Fn {
    /// What reading this leaf gives in the state `before`.
    pub open spec fn model(before: ParserView) -> Outcome<Fn> {
        spanned_leaf(
            before.expect(TokenKind::Keyword(Keyword::Fn)),
            |span: Span| Fn { span },
        )
    }
}

impl Parse for Fn {
    open spec fn parsed(before: ParserView) -> Outcome<Fn> {
        Self::model(before)
    }

    open spec fn advances() -> bool {
        true
    }

    fn parse(parser: &mut Parser) -> (r: Result<Self>) {
        proof {
            assert(Self::parsed(parser@) == Self::model(parser@));
            assert(Self::advances());
        }
        match parser.expect(TokenKind::Keyword(Keyword::Fn)) {
            Ok(span) => {
                let leaf = Fn { span };
                proof {
                    assert(leaf.parts() == seq![span]);
                    assert(leaf.sound() == span.well_formed());
                    assert(leaf@ == leaf);
                    lemma_leaf(&leaf, span);
                }
                Ok(leaf)
            },
            Err(error) => Err(error),
        }
    }
}

/// The keyword `if`.
#[derive(Clone, Copy, Debug, PartialEq, Eq, Structural)]
pub struct If {
    pub span: Span,
}

impl View for If {
    type V = If;

    open spec fn view(&self) -> If {
        *self
    }
}

impl Spanned for If {
    open spec fn parts(&self) -> Seq<Span> {
        seq![self.span]
    }

    open spec fn sound(&self) -> bool {
        self.span.well_formed()
    }

    fn span(&self) -> (s: Span) {
        proof {
            lemma_merge_one(self.span);
            assert(self.parts() == seq![self.span]);
        }
        self.span
    }
}

impl Located for If {
    open spec fn span_in(v: If) -> Span {
        v.span
    }

    proof fn lemma_span_in(&self) {
        lemma_merge_one(self.span);
        assert(self.parts() == seq![self.span]);
        assert(self@ == *self);
    }
}

impl FromToken for If {
    open spec fn name_spec() -> Seq<char> {
        "If"@
    }

    open spec fn made_of(token: Token) -> Option<If> {
        if token.kind == TokenKind::Keyword(Keyword::If) {
            Some(If { span: token.span })
        } else {
            None
        }
    }

    fn name() -> (s: &'static str) {
        "If"
    }

    fn from_token(token: Token) -> (leaf: Option<Self>) {
        if token.kind() == TokenKind::Keyword(Keyword::If) {
            Some(If { span: token.span() })
        } else {
            None
        }
    }
}

impl If {
    /// What reading this leaf gives in the state `before`.
    pub open spec fn model(before: ParserView) -> Outcome<If> {
        spanned_leaf(
            before.expect(TokenKind::Keyword(Keyword::If)),
            |span: Span| If { span },
        )
    }
}

impl Parse for If {
    open spec fn parsed(before: ParserView) -> Outcome<If> {
        Self::model(before)
    }

    open spec fn advances() -> bool {
        true
    }

    fn parse(parser: &mut Parser) -> (r: Result<Self>) {
        proof {
            assert(Self::parsed(parser@) == Self::model(parser@));
            assert(Self::advances());
        }
        match parser.expect(TokenKind::Keyword(Keyword::If)) {
            Ok(span) => {
                let leaf = If { span };
                proof {
                    assert(leaf.parts() == seq![span]);
                    assert(leaf.sound() == span.well_formed());
                    assert(leaf@ == leaf);
                    lemma_leaf(&leaf, span);
                }
                Ok(leaf)
            },
            Err(error) => Err(error),
        }
    }
}

/// The keyword `for`.
#[derive(Clone, Copy, Debug, PartialEq, Eq, Structural)]
pub struct For {
    pub span: Span,
}

impl View for For {
    type V = For;

    open spec fn view(&self) -> For {
        *self
    }
}

impl Spanned for For {
    open spec fn parts(&self) -> Seq<Span> {
        seq![self.span]
    }

    open spec fn sound(&self) -> bool {
        self.span.well_formed()
    }

    fn span(&self) -> (s: Span) {
        proof {
            lemma_merge_one(self.span);
            assert(self.parts() == seq![self.span]);
        }
        self.span
    }
}

impl Located for For {
    open spec fn span_in(v: For) -> Span {
        v.span
    }

    proof fn lemma_span_in(&self) {
        lemma_merge_one(self.span);
        assert(self.parts() == seq![self.span]);
        assert(self@ == *self);
    }
}

impl FromToken for For {
    open spec fn name_spec() -> Seq<char> {
        "For"@
    }

    open spec fn made_of(token: Token) -> Option<For> {
        if token.kind == TokenKind::Keyword(Keyword::For) {
            Some(For { span: token.span })
        } else {
            None
        }
    }

    fn name() -> (s: &'static str) {
        "For"
    }

    fn from_token(token: Token) -> (leaf: Option<Self>) {
        if token.kind() == TokenKind::Keyword(Keyword::For) {
            Some(For { span: token.span() })
        } else {
            None
        }
    }
}

impl For {
    /// What reading this leaf gives in the state `before`.
    pub open spec fn model(before: ParserView) -> Outcome<For> {
        spanned_leaf(
            before.expect(TokenKind::Keyword(Keyword::For)),
            |span: Span| For { span },
        )
    }
}

impl Parse for For {
    open spec fn parsed(before: ParserView) -> Outcome<For> {
        Self::model(before)
    }

    open spec fn advances() -> bool {
        true
    }

    fn parse(parser: &mut Parser) -> (r: Result<Self>) {
        proof {
            assert(Self::parsed(parser@) == Self::model(parser@));
            assert(Self::advances());
        }
        match parser.expect(TokenKind::Keyword(Keyword::For)) {
            Ok(span) => {
                let leaf = For { span };
                proof {
                    assert(leaf.parts() == seq![span]);
                    assert(leaf.sound() == span.well_formed());
                    assert(leaf@ == leaf);
                    lemma_leaf(&leaf, span);
                }
                Ok(leaf)
            },
            Err(error) => Err(error),
        }
    }
}

/// The keyword `else`.
#[derive(Clone, Copy, Debug, PartialEq, Eq, Structural)]
pub struct Else {
    pub span: Span,
}

impl View for Else {
    type V = Else;

    open spec fn view(&self) -> Else {
        *self
    }
}

impl Spanned for Else {
    open spec fn parts(&self) -> Seq<Span> {
        seq![self.span]
    }

    open spec fn sound(&self) -> bool {
        self.span.well_formed()
    }

    fn span(&self) -> (s: Span) {
        proof {
            lemma_merge_one(self.span);
            assert(self.parts() == seq![self.span]);
        }
        self.span
    }
}

impl Located for Else {
    open spec fn span_in(v: Else) -> Span {
        v.span
    }

    proof fn lemma_span_in(&self) {
        lemma_merge_one(self.span);
        assert(self.parts() == seq![self.span]);
        assert(self@ == *self);
    }
}

impl FromToken for Else {
    open spec fn name_spec() -> Seq<char> {
        "Else"@
    }

    open spec fn made_of(token: Token) -> Option<Else> {
        if token.kind == TokenKind::Keyword(Keyword::Else) {
            Some(Else { span: token.span })
        } else {
            None
        }
    }

    fn name() -> (s: &'static str) {
        "Else"
    }

    fn from_token(token: Token) -> (leaf: Option<Self>) {
        if token.kind() == TokenKind::Keyword(Keyword::Else) {
            Some(Else { span: token.span() })
        } else {
            None
        }
    }
}

impl Else {
    /// What reading this leaf gives in the state `before`.
    pub open spec fn model(before: ParserView) -> Outcome<Else> {
        spanned_leaf(
            before.expect(TokenKind::Keyword(Keyword::Else)),
            |span: Span| Else { span },
        )
    }
}

impl Parse for Else {
    open spec fn parsed(before: ParserView) -> Outcome<Else> {
        Self::model(before)
    }

    open spec fn advances() -> bool {
        true
    }

    fn parse(parser: &mut Parser) -> (r: Result<Self>) {
        proof {
            assert(Self::parsed(parser@) == Self::model(parser@));
            assert(Self::advances());
        }
        match parser.expect(TokenKind::Keyword(Keyword::Else)) {
            Ok(span) => {
                let leaf = Else { span };
                proof {
                    assert(leaf.parts() == seq![span]);
                    assert(leaf.sound() == span.well_formed());
                    assert(leaf@ == leaf);
                    lemma_leaf(&leaf, span);
                }
                Ok(leaf)
            },
            Err(error) => Err(error),
        }
    }
}

/// The keyword `return`.
#[derive(Clone, Copy, Debug, PartialEq, Eq, Structural)]
pub struct Return {
    pub span: Span,
}

impl View for Return {
    type V = Return;

    open spec fn view(&self) -> Return {
        *self
    }
}

impl Spanned for Return {
    open spec fn parts(&self) -> Seq<Span> {
        seq![self.span]
    }

    open spec fn sound(&self) -> bool {
        self.span.well_formed()
    }

    fn span(&self) -> (s: Span) {
        proof {
            lemma_merge_one(self.span);
            assert(self.parts() == seq![self.span]);
        }
        self.span
    }
}

impl Located for Return {
    open spec fn span_in(v: Return) -> Span {
        v.span
    }

    proof fn lemma_span_in(&self) {
        lemma_merge_one(self.span);
        assert(self.parts() == seq![self.span]);
        assert(self@ == *self);
    }
}

impl FromToken for Return {
    open spec fn name_spec() -> Seq<char> {
        "Return"@
    }

    open spec fn made_of(token: Token) -> Option<Return> {
        if token.kind == TokenKind::Keyword(Keyword::Return) {
            Some(Return { span: token.span })
        } else {
            None
        }
    }

    fn name() -> (s: &'static str) {
        "Return"
    }

    fn from_token(token: Token) -> (leaf: Option<Self>) {
        if token.kind() == TokenKind::Keyword(Keyword::Return) {
            Some(Return { span: token.span() })
        } else {
            None
        }
    }
}

impl Return {
    /// What reading this leaf gives in the state `before`.
    pub open spec fn model(before: ParserView) -> Outcome<Return> {
        spanned_leaf(
            before.expect(TokenKind::Keyword(Keyword::Return)),
            |span: Span| Return { span },
        )
    }
}

impl Parse for Return {
    open spec fn parsed(before: ParserView) -> Outcome<Return> {
        Self::model(before)
    }

    open spec fn advances() -> bool {
        true
    }

    fn parse(parser: &mut Parser) -> (r: Result<Self>) {
        proof {
            assert(Self::parsed(parser@) == Self::model(parser@));
            assert(Self::advances());
        }
        match parser.expect(TokenKind::Keyword(Keyword::Return)) {
            Ok(span) => {
                let leaf = Return { span };
                proof {
                    assert(leaf.parts() == seq![span]);
                    assert(leaf.sound() == span.well_formed());
                    assert(leaf@ == leaf);
                    lemma_leaf(&leaf, span);
                }
                Ok(leaf)
            },
            Err(error) => Err(error),
        }
    }
}

/// An identifier: the handle of its spelling.
#[derive(Clone, Copy, Debug, PartialEq, Eq, Structural)]
pub struct Ident {
    pub value: StableRef,
    pub span: Span,
}

impl Ident {
    /// The leaf that holds `value` and stands at `span`.
    pub fn new(value: StableRef, span: Span) -> (leaf: Self)
        ensures
            leaf == (Ident { value, span }),
    {
        Ident { value, span }
    }
}

impl View for Ident {
    type V = Ident;

    open spec fn view(&self) -> Ident {
        *self
    }
}

impl Spanned for Ident {
    open spec fn parts(&self) -> Seq<Span> {
        seq![self.span]
    }

    open spec fn sound(&self) -> bool {
        self.span.well_formed()
    }

    fn span(&self) -> (s: Span) {
        proof {
            lemma_merge_one(self.span);
            assert(self.parts() == seq![self.span]);
        }
        self.span
    }
}

impl Located for Ident {
    open spec fn span_in(v: Ident) -> Span {
        v.span
    }

    proof fn lemma_span_in(&self) {
        lemma_merge_one(self.span);
        assert(self.parts() == seq![self.span]);
        assert(self@ == *self);
    }
}

impl FromToken for Ident {
    open spec fn name_spec() -> Seq<char> {
        "{identifier}"@
    }

    open spec fn made_of(token: Token) -> Option<Ident> {
        match token.kind {
            TokenKind::Ident(value) => Some(Ident { value, span: token.span }),
            _ => None,
        }
    }

    fn name() -> (s: &'static str) {
        "{identifier}"
    }

    fn from_token(token: Token) -> (leaf: Option<Self>) {
        match token.kind() {
            TokenKind::Ident(value) => Some(Ident::new(value, token.span())),
            _ => None,
        }
    }
}

impl Ident {
    /// What reading this leaf gives in the state `before`.
    pub open spec fn model(before: ParserView) -> Outcome<Ident> {
        let next = before.next_token();
        match next.result {
            Ok(token) => match token.kind {
                TokenKind::Ident(value) => Outcome {
                    result: Ok(Ident { value, span: token.span }),
                    after: next.after,
                },
                _ => Outcome {
                    result: Err(unexpected("expected '{identifier}'"@, token, next.after.table)),
                    after: next.after,
                },
            },
            Err(error) => Outcome { result: Err(error), after: next.after },
        }
    }
}

impl Parse for Ident {
    open spec fn parsed(before: ParserView) -> Outcome<Ident> {
        Self::model(before)
    }

    open spec fn advances() -> bool {
        true
    }

    fn parse(parser: &mut Parser) -> (r: Result<Self>) {
        proof {
            assert(Self::parsed(parser@) == Self::model(parser@));
            assert(Self::advances());
        }
        let tok = parser.next_token()?;
        match tok.kind() {
            TokenKind::Ident(value) => {
                let leaf = Ident::new(value, tok.span());
                proof {
                    assert(leaf.parts() == seq![tok.span]);
                    assert(leaf.sound() == tok.span.well_formed());
                    assert(leaf@ == leaf);
                    lemma_leaf(&leaf, tok.span);
                }
                Ok(leaf)
            },
            _ => {
                proof {
                    reveal_strlit("expected '{identifier}'");
                }
                Err(parser.unexpected("expected '{identifier}'", tok))
            },
        }
    }
}

/// A string literal: the handle of its text.
#[derive(Clone, Copy, Debug, PartialEq, Eq, Structural)]
pub struct LitStr {
    pub value: StableRef,
    pub span: Span,
}

impl LitStr {
    /// The leaf that holds `value` and stands at `span`.
    pub fn new(value: StableRef, span: Span) -> (leaf: Self)
        ensures
            leaf == (LitStr { value, span }),
    {
        LitStr { value, span }
    }
}

impl View for LitStr {
    type V = LitStr;

    open spec fn view(&self) -> LitStr {
        *self
    }
}

impl Spanned for LitStr {
    open spec fn parts(&self) -> Seq<Span> {
        seq![self.span]
    }

    open spec fn sound(&self) -> bool {
        self.span.well_formed()
    }

    fn span(&self) -> (s: Span) {
        proof {
            lemma_merge_one(self.span);
            assert(self.parts() == seq![self.span]);
        }
        self.span
    }
}

impl Located for LitStr {
    open spec fn span_in(v: LitStr) -> Span {
        v.span
    }

    proof fn lemma_span_in(&self) {
        lemma_merge_one(self.span);
        assert(self.parts() == seq![self.span]);
        assert(self@ == *self);
    }
}

impl FromToken for LitStr {
    open spec fn name_spec() -> Seq<char> {
        "{string}"@
    }

    open spec fn made_of(token: Token) -> Option<LitStr> {
        match token.kind {
            TokenKind::String(value) => Some(LitStr { value, span: token.span }),
            _ => None,
        }
    }

    fn name() -> (s: &'static str) {
        "{string}"
    }

    fn from_token(token: Token) -> (leaf: Option<Self>) {
        match token.kind() {
            TokenKind::String(value) => Some(LitStr::new(value, token.span())),
            _ => None,
        }
    }
}

impl LitStr {
    /// What reading this leaf gives in the state `before`.
    pub open spec fn model(before: ParserView) -> Outcome<LitStr> {
        let next = before.next_token();
        match next.result {
            Ok(token) => match token.kind {
                TokenKind::String(value) => Outcome {
                    result: Ok(LitStr { value, span: token.span }),
                    after: next.after,
                },
                _ => Outcome {
                    result: Err(unexpected("expected '{string}'"@, token, next.after.table)),
                    after: next.after,
                },
            },
            Err(error) => Outcome { result: Err(error), after: next.after },
        }
    }
}

impl Parse for LitStr {
    open spec fn parsed(before: ParserView) -> Outcome<LitStr> {
        Self::model(before)
    }

    open spec fn advances() -> bool {
        true
    }

    fn parse(parser: &mut Parser) -> (r: Result<Self>) {
        proof {
            assert(Self::parsed(parser@) == Self::model(parser@));
            assert(Self::advances());
        }
        let tok = parser.next_token()?;
        match tok.kind() {
            TokenKind::String(value) => {
                let leaf = LitStr::new(value, tok.span());
                proof {
                    assert(leaf.parts() == seq![tok.span]);
                    assert(leaf.sound() == tok.span.well_formed());
                    assert(leaf@ == leaf);
                    lemma_leaf(&leaf, tok.span);
                }
                Ok(leaf)
            },
            _ => {
                proof {
                    reveal_strlit("expected '{string}'");
                }
                Err(parser.unexpected("expected '{string}'", tok))
            },
        }
    }
}

/// A comment: the handle of its text.
#[derive(Clone, Copy, Debug, PartialEq, Eq, Structural)]
pub struct Comment {
    pub value: StableRef,
    pub span: Span,
}

impl Comment {
    /// The leaf that holds `value` and stands at `span`.
    pub fn new(value: StableRef, span: Span) -> (leaf: Self)
        ensures
            leaf == (Comment { value, span }),
    {
        Comment { value, span }
    }
}

impl View for Comment {
    type V = Comment;

    open spec fn view(&self) -> Comment {
        *self
    }
}

impl Spanned for Comment {
    open spec fn parts(&self) -> Seq<Span> {
        seq![self.span]
    }

    open spec fn sound(&self) -> bool {
        self.span.well_formed()
    }

    fn span(&self) -> (s: Span) {
        proof {
            lemma_merge_one(self.span);
            assert(self.parts() == seq![self.span]);
        }
        self.span
    }
}

impl Located for Comment {
    open spec fn span_in(v: Comment) -> Span {
        v.span
    }

    proof fn lemma_span_in(&self) {
        lemma_merge_one(self.span);
        assert(self.parts() == seq![self.span]);
        assert(self@ == *self);
    }
}

impl FromToken for Comment {
    open spec fn name_spec() -> Seq<char> {
        "{comment}"@
    }

    open spec fn made_of(token: Token) -> Option<Comment> {
        match token.kind {
            TokenKind::Comment(value) => Some(Comment { value, span: token.span }),
            _ => None,
        }
    }

    fn name() -> (s: &'static str) {
        "{comment}"
    }

    fn from_token(token: Token) -> (leaf: Option<Self>) {
        match token.kind() {
            TokenKind::Comment(value) => Some(Comment::new(value, token.span())),
            _ => None,
        }
    }
}

impl Comment {
    /// What reading this leaf gives in the state `before`.
    pub open spec fn model(before: ParserView) -> Outcome<Comment> {
        let next = before.next_token();
        match next.result {
            Ok(token) => match token.kind {
                TokenKind::Comment(value) => Outcome {
                    result: Ok(Comment { value, span: token.span }),
                    after: next.after,
                },
                _ => Outcome {
                    result: Err(unexpected("expected '{comment}'"@, token, next.after.table)),
                    after: next.after,
                },
            },
            Err(error) => Outcome { result: Err(error), after: next.after },
        }
    }
}

impl Parse for Comment {
    open spec fn parsed(before: ParserView) -> Outcome<Comment> {
        Self::model(before)
    }

    open spec fn advances() -> bool {
        true
    }

    fn parse(parser: &mut Parser) -> (r: Result<Self>) {
        proof {
            assert(Self::parsed(parser@) == Self::model(parser@));
            assert(Self::advances());
        }
        let tok = parser.next_token()?;
        match tok.kind() {
            TokenKind::Comment(value) => {
                let leaf = Comment::new(value, tok.span());
                proof {
                    assert(leaf.parts() == seq![tok.span]);
                    assert(leaf.sound() == tok.span.well_formed());
                    assert(leaf@ == leaf);
                    lemma_leaf(&leaf, tok.span);
                }
                Ok(leaf)
            },
            _ => {
                proof {
                    reveal_strlit("expected '{comment}'");
                }
                Err(parser.unexpected("expected '{comment}'", tok))
            },
        }
    }
}

/// An integer literal.
#[derive(Clone, Copy, Debug, PartialEq, Eq, Structural)]
pub struct LitInt {
    pub value: Integer,
    pub span: Span,
}

impl LitInt {
    /// The leaf that holds `value` and stands at `span`.
    pub fn new(value: Integer, span: Span) -> (leaf: Self)
        ensures
            leaf == (LitInt { value, span }),
    {
        LitInt { value, span }
    }
}

impl View for LitInt {
    type V = LitInt;

    open spec fn view(&self) -> LitInt {
        *self
    }
}

impl Spanned for LitInt {
    open spec fn parts(&self) -> Seq<Span> {
        seq![self.span]
    }

    open spec fn sound(&self) -> bool {
        self.span.well_formed()
    }

    fn span(&self) -> (s: Span) {
        proof {
            lemma_merge_one(self.span);
            assert(self.parts() == seq![self.span]);
        }
        self.span
    }
}

impl Located for LitInt {
    open spec fn span_in(v: LitInt) -> Span {
        v.span
    }

    proof fn lemma_span_in(&self) {
        lemma_merge_one(self.span);
        assert(self.parts() == seq![self.span]);
        assert(self@ == *self);
    }
}

impl FromToken for LitInt {
    open spec fn name_spec() -> Seq<char> {
        "{integer}"@
    }

    open spec fn made_of(token: Token) -> Option<LitInt> {
        match token.kind {
            TokenKind::Integer(value) => Some(LitInt { value, span: token.span }),
            _ => None,
        }
    }

    fn name() -> (s: &'static str) {
        "{integer}"
    }

    fn from_token(token: Token) -> (leaf: Option<Self>) {
        match token.kind() {
            TokenKind::Integer(value) => Some(LitInt::new(value, token.span())),
            _ => None,
        }
    }
}

impl LitInt {
    /// What reading this leaf gives in the state `before`.
    pub open spec fn model(before: ParserView) -> Outcome<LitInt> {
        let next = before.next_token();
        match next.result {
            Ok(token) => match token.kind {
                TokenKind::Integer(value) => Outcome {
                    result: Ok(LitInt { value, span: token.span }),
                    after: next.after,
                },
                _ => Outcome {
                    result: Err(unexpected("expected '{integer}'"@, token, next.after.table)),
                    after: next.after,
                },
            },
            Err(error) => Outcome { result: Err(error), after: next.after },
        }
    }
}

impl Parse for LitInt {
    open spec fn parsed(before: ParserView) -> Outcome<LitInt> {
        Self::model(before)
    }

    open spec fn advances() -> bool {
        true
    }

    fn parse(parser: &mut Parser) -> (r: Result<Self>) {
        proof {
            assert(Self::parsed(parser@) == Self::model(parser@));
            assert(Self::advances());
        }
        let tok = parser.next_token()?;
        match tok.kind() {
            TokenKind::Integer(value) => {
                let leaf = LitInt::new(value, tok.span());
                proof {
                    assert(leaf.parts() == seq![tok.span]);
                    assert(leaf.sound() == tok.span.well_formed());
                    assert(leaf@ == leaf);
                    lemma_leaf(&leaf, tok.span);
                }
                Ok(leaf)
            },
            _ => {
                proof {
                    reveal_strlit("expected '{integer}'");
                }
                Err(parser.unexpected("expected '{integer}'", tok))
            },
        }
    }
}

/// A floating-point literal.
#[derive(Clone, Copy, Debug, PartialEq, Eq, Structural)]
pub struct LitFloat {
    pub value: Float,
    pub span: Span,
}

impl LitFloat {
    /// The leaf that holds `value` and stands at `span`.
    pub fn new(value: Float, span: Span) -> (leaf: Self)
        ensures
            leaf == (LitFloat { value, span }),
    {
        LitFloat { value, span }
    }
}

impl View for LitFloat {
    type V = LitFloat;

    open spec fn view(&self) -> LitFloat {
        *self
    }
}

impl Spanned for LitFloat {
    open spec fn parts(&self) -> Seq<Span> {
        seq![self.span]
    }

    open spec fn sound(&self) -> bool {
        self.span.well_formed()
    }

    fn span(&self) -> (s: Span) {
        proof {
            lemma_merge_one(self.span);
            assert(self.parts() == seq![self.span]);
        }
        self.span
    }
}

impl Located for LitFloat {
    open spec fn span_in(v: LitFloat) -> Span {
        v.span
    }

    proof fn lemma_span_in(&self) {
        lemma_merge_one(self.span);
        assert(self.parts() == seq![self.span]);
        assert(self@ == *self);
    }
}

impl FromToken for LitFloat {
    open spec fn name_spec() -> Seq<char> {
        "{float}"@
    }

    open spec fn made_of(token: Token) -> Option<LitFloat> {
        match token.kind {
            TokenKind::Float(value) => Some(LitFloat { value, span: token.span }),
            _ => None,
        }
    }

    fn name() -> (s: &'static str) {
        "{float}"
    }

    fn from_token(token: Token) -> (leaf: Option<Self>) {
        match token.kind() {
            TokenKind::Float(value) => Some(LitFloat::new(value, token.span())),
            _ => None,
        }
    }
}

impl LitFloat {
    /// What reading this leaf gives in the state `before`.
    pub open spec fn model(before: ParserView) -> Outcome<LitFloat> {
        let next = before.next_token();
        match next.result {
            Ok(token) => match token.kind {
                TokenKind::Float(value) => Outcome {
                    result: Ok(LitFloat { value, span: token.span }),
                    after: next.after,
                },
                _ => Outcome {
                    result: Err(unexpected("expected '{float}'"@, token, next.after.table)),
                    after: next.after,
                },
            },
            Err(error) => Outcome { result: Err(error), after: next.after },
        }
    }
}

impl Parse for LitFloat {
    open spec fn parsed(before: ParserView) -> Outcome<LitFloat> {
        Self::model(before)
    }

    open spec fn advances() -> bool {
        true
    }

    fn parse(parser: &mut Parser) -> (r: Result<Self>) {
        proof {
            assert(Self::parsed(parser@) == Self::model(parser@));
            assert(Self::advances());
        }
        let tok = parser.next_token()?;
        match tok.kind() {
            TokenKind::Float(value) => {
                let leaf = LitFloat::new(value, tok.span());
                proof {
                    assert(leaf.parts() == seq![tok.span]);
                    assert(leaf.sound() == tok.span.well_formed());
                    assert(leaf@ == leaf);
                    lemma_leaf(&leaf, tok.span);
                }
                Ok(leaf)
            },
            _ => {
                proof {
                    reveal_strlit("expected '{float}'");
                }
                Err(parser.unexpected("expected '{float}'", tok))
            },
        }
    }
}

/// The end of a line, or of the input.
#[derive(Clone, Copy, Debug, PartialEq, Eq, Structural)]
pub struct Eol {
    pub span: Span,
}

impl View for Eol {
    type V = Eol;

    open spec fn view(&self) -> Eol {
        *self
    }
}

impl Spanned for Eol {
    open spec fn parts(&self) -> Seq<Span> {
        seq![self.span]
    }

    open spec fn sound(&self) -> bool {
        self.span.well_formed()
    }

    fn span(&self) -> (s: Span) {
        proof {
            lemma_merge_one(self.span);
            assert(self.parts() == seq![self.span]);
        }
        self.span
    }
}

impl Located for Eol {
    open spec fn span_in(v: Eol) -> Span {
        v.span
    }

    proof fn lemma_span_in(&self) {
        lemma_merge_one(self.span);
        assert(self.parts() == seq![self.span]);
        assert(self@ == *self);
    }
}

impl FromToken for Eol {
    open spec fn name_spec() -> Seq<char> {
        "end of line"@
    }

    open spec fn made_of(token: Token) -> Option<Eol> {
        if token.kind.is_eol_spec() {
            Some(Eol { span: token.span })
        } else {
            None
        }
    }

    fn name() -> (s: &'static str) {
        "end of line"
    }

    fn from_token(token: Token) -> (leaf: Option<Self>) {
        match token.kind() {
            TokenKind::Eol => Some(Eol { span: token.span() }),
            TokenKind::Eof => Some(Eol { span: token.span() }),
            _ => None,
        }
    }
}

impl Eol {
    /// What reading this leaf gives in the state `before`.
    pub open spec fn model(before: ParserView) -> Outcome<Eol> {
        spanned_leaf(before.expect_eol(), |span: Span| Eol { span })
    }
}

impl Parse for Eol {
    open spec fn parsed(before: ParserView) -> Outcome<Eol> {
        Self::model(before)
    }

    open spec fn advances() -> bool {
        false
    }

    fn parse(parser: &mut Parser) -> (r: Result<Self>) {
        proof {
            assert(Self::parsed(parser@) == Self::model(parser@));
        }
        match parser.expect_eol() {
            Ok(span) => {
                let leaf = Eol { span };
                proof {
                    assert(leaf.parts() == seq![span]);
                    assert(leaf.sound() == span.well_formed());
                    assert(leaf@ == leaf);
                    lemma_leaf(&leaf, span);
                }
                Ok(leaf)
            },
            Err(error) => Err(error),
        }
    }
}

} // verus!
