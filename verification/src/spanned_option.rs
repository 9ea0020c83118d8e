//! Syntax that may be absent and has a place all the same.

use crate::error::{ErrorView, Result};
use crate::parse::{placed, Parse};
use crate::parser::{follows, told, Parser};
use crate::span::{lemma_merge_one, span_of, Span, Spanned};
use crate::token::TokenKind;
use vstd::prelude::*;

verus! {

/// A node that may be absent, with a span in either case: that of the node
/// where there is one, else the place where it would have stood.
#[derive(Clone, Copy, Debug, PartialEq, Eq, Hash)]
pub struct SpannedOption<T> {
    pub value: Option<T>,
    pub span: Span,
}

/// What an optional node holds.
pub struct SpannedOptionView<T> {
    pub value: Option<T>,
    pub span: Span,
}

impl<T: View> View for SpannedOption<T> {
    type V = SpannedOptionView<T::V>;

    open spec fn view(&self) -> SpannedOptionView<T::V> {
        SpannedOptionView {
            value: match self.value {
                Some(node) => Some(node@),
                None => None,
            },
            span: self.span,
        }
    }
}

impl<T: Spanned> Spanned for SpannedOption<T> {
    open spec fn parts(&self) -> Seq<Span> {
        seq![self.span]
    }

    open spec fn sound(&self) -> bool {
        &&& self.span.well_formed()
        &&& self.value matches Some(node) ==> node.sound()
    }

    fn span(&self) -> (s: Span) {
        proof {
            lemma_merge_one(self.span);
            assert(self.parts() == seq![self.span]);
        }
        self.span
    }
}

impl<T> SpannedOption<T> {
    /// The node, if there is one.
    pub fn value(&self) -> (v: &Option<T>)
        ensures
            *v == self.value,
    {
        &self.value
    }

    /// Reads a node of the type `T` if the next token is of the kind `kind`.
    /// Where it is not, nothing is read, and the span is the empty span at
    /// the cursor, which then stands behind the token that was looked at.
    pub fn parse_if_next(parser: &mut Parser, kind: TokenKind) -> (r: Result<Self>) where
        T: Parse + Spanned,

        requires
            old(parser).wf(),
        ensures
            final(parser).wf(),
            follows(final(parser)@, old(parser)@),
            told(r),
            r matches Ok(option) ==> placed(&option, old(parser)@.file),
            ({
                let peeked = old(parser)@.peek_token();
                match peeked.result {
                    Ok(token) => if token.kind == kind {
                        let node = T::parsed(peeked.after);
                        &&& final(parser)@ == node.after
                        &&& match r {
                            Ok(option) => {
                                &&& option.value matches Some(value)
                                &&& node.result == Ok::<T::V, ErrorView>(value@)
                                &&& option.span == span_of(&value)
                                &&& placed(&value, old(parser)@.file)
                            },
                            Err(error) => node.result == Err::<T::V, ErrorView>(error@),
                        }
                    } else {
                        &&& final(parser)@ == peeked.after
                        &&& r matches Ok(option)
                        &&& option.value is None
                        &&& option.span == peeked.after.position()
                    },
                    Err(error) => {
                        &&& final(parser)@ == peeked.after
                        &&& r matches Err(e)
                        &&& e@ == error
                    },
                }
            }),
    {
        let tok = parser.peek_token()?;
        if tok.kind() == kind {
            let value = T::parse(parser)?;
            let span = value.span();
            let option = SpannedOption { span, value: Some(value) };
            proof {
                lemma_merge_one(span);
                assert(option.parts() == seq![option.span]);
            }
            Ok(option)
        } else {
            let option = SpannedOption { value: None, span: parser.span() };
            proof {
                lemma_merge_one(option.span);
                assert(option.parts() == seq![option.span]);
            }
            Ok(option)
        }
    }
}

} // verus!
