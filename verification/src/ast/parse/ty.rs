//! How types are read.

use crate::ast::ty::Type;
use crate::error::Result;
use crate::lexer::unexpected;
use crate::parse::{placed, Parse};
use crate::parser::{done, fail, Outcome, Parser, ParserView};
use crate::span::{lemma_merge_one, span_of, Spanned};
use crate::token::TokenKind;
use crate::token_types::Ident;
use vstd::prelude::*;

verus! {

/// A type: the next token, which must be an identifier.
pub open spec fn type_model(s: ParserView) -> Outcome<Type> {
    let peeked = s.peek_token();
    match peeked.result {
        Ok(token) => match token.kind {
            TokenKind::Ident(_) => {
                let ident = Ident::model(peeked.after);
                match ident.result {
                    Ok(i) => done(Type::Ident(i), ident.after),
                    Err(error) => fail(error, ident.after),
                }
            },
            _ => fail(unexpected("expected {type}"@, token, peeked.after.table), peeked.after),
        },
        Err(error) => fail(error, peeked.after),
    }
}

/// A type is placed where its name is.
pub proof fn lemma_type_placed(ident: Ident, file: crate::string_allocator::PathRef)
    requires
        placed(&ident, file),
    ensures
        placed(&Type::Ident(ident), file),
        Type::Ident(ident)@ == Type::Ident(ident),
        span_of(&Type::Ident(ident)) == ident.span,
{
    let ty = Type::Ident(ident);
    assert(ty.parts() == seq![ident.span]);
    assert(ident.parts() == seq![ident.span]);
    lemma_merge_one(ident.span);
}

impl Parse for Type {
    open spec fn parsed(before: ParserView) -> Outcome<Type> {
        type_model(before)
    }

    open spec fn advances() -> bool {
        true
    }

    fn parse(parser: &mut Parser) -> (r: Result<Self>) {
        proof {
            assert(Self::parsed(parser@) == type_model(parser@));
            assert(Self::advances());
        }
        let ghost file = parser@.file;
        let tok = parser.peek_token()?;
        match tok.kind() {
            TokenKind::Ident(_) => {
                let ident = Ident::parse(parser)?;
                proof {
                    lemma_type_placed(ident, file);
                    assert(ident@ == ident);
                }
                Ok(Type::Ident(ident))
            },
            _ => {
                proof {
                    reveal_strlit("expected {type}");
                }
                Err(parser.unexpected("expected {type}", tok))
            },
        }
    }
}

} // verus!
