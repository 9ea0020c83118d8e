//! Types, as far as the grammar has them.

use crate::span::{lemma_merge_one, Span, Spanned};
use crate::token_types::Ident;
use vstd::prelude::*;

verus! {

/// A type: a name.
#[derive(Clone, Copy, Debug, PartialEq, Eq, Structural)]
pub enum Type {
    Ident(Ident),
}

impl View for Type {
    type V = Type;

    open spec fn view(&self) -> Type {
        *self
    }
}

impl Spanned for Type {
    open spec fn parts(&self) -> Seq<Span> {
        match self {
            Type::Ident(ident) => seq![ident.span],
        }
    }

    open spec fn sound(&self) -> bool {
        match self {
            Type::Ident(ident) => ident.span.well_formed(),
        }
    }

    fn span(&self) -> (s: Span) {
        match self {
            Type::Ident(ident) => {
                proof {
                    lemma_merge_one(ident.span);
                }
                ident.span()
            },
        }
    }
}

} // verus!
