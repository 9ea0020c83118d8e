//! Contents between delimiters.

use crate::error::Result;
use crate::parse::{parse_post, ByType, Parse, ParseWith};
use crate::parser::{done, fail, Outcome, Parser, ParserView};
use crate::span::{all_within, lemma_parts_within, merge_spans, span_of, Span, Spanned};
use crate::token_types::{Gt, Lt};
use vstd::prelude::*;

verus! {

/// Contents between `<` and `>`.
#[derive(Clone, Debug)]
pub struct Tupled<T> {
    pub open: Lt,
    pub contents: T,
    pub close: Gt,
}

/// What a tuple holds.
pub struct TupledView<T> {
    pub open: Lt,
    pub contents: T,
    pub close: Gt,
}

impl<T: View> View for Tupled<T> {
    type V = TupledView<T::V>;

    open spec fn view(&self) -> TupledView<T::V> {
        TupledView { open: self.open, contents: self.contents@, close: self.close }
    }
}

impl<T: Spanned> Spanned for Tupled<T> {
    open spec fn parts(&self) -> Seq<Span> {
        seq![span_of(&self.open), span_of(&self.contents), span_of(&self.close)]
    }

    open spec fn sound(&self) -> bool {
        &&& self.contents.sound()
        &&& self.open.sound()
        &&& self.close.sound()
        &&& all_within(self.parts(), self.parts()[0].file_path)
    }

    fn span(&self) -> (s: Span) {
        let parts = [self.open.span(), self.contents.span(), self.close.span()];
        assert(parts@ =~= self.parts());
        merge_spans(parts.as_slice())
    }
}

/// Contents read by `f` between `<` and `>`.
pub open spec fn tupled_model<T: View + Spanned, F: ParseWith<T>>(
    f: &F,
    s: ParserView,
) -> Outcome<TupledView<T::V>> {
    let open = Lt::model(s);
    match open.result {
        Ok(o) => {
            let contents = f.parsed(open.after);
            match contents.result {
                Ok(c) => {
                    let close = Gt::model(contents.after);
                    match close.result {
                        Ok(g) => done(
                            TupledView { open: o, contents: c, close: g },
                            close.after,
                        ),
                        Err(error) => fail(error, close.after),
                    }
                },
                Err(error) => fail(error, contents.after),
            }
        },
        Err(error) => fail(error, open.after),
    }
}

impl<T: View + Spanned> Tupled<T> {
    /// Reads `<`, then the contents by the rule `f`, then `>`.
    pub fn parse_with<F: ParseWith<T>>(parser: &mut Parser, f: F) -> (r: Result<Self>)
        requires
            old(parser).wf(),
            f.usable(),
        ensures
            final(parser).wf(),
            parse_post(r, old(parser)@, final(parser)@, tupled_model::<T, F>(&f, old(parser)@)),
            r is Ok ==> final(parser)@.remaining() < old(parser)@.remaining(),
    {
        let ghost file = parser@.file;
        let open = Lt::parse(parser)?;
        let contents = f.run(parser)?;
        let close = Gt::parse(parser)?;
        let node = Tupled { open, contents, close };
        proof {
            assert(node.parts() =~= seq![span_of(&open), span_of(&contents), span_of(&close)]);
            assert(span_of(&open) == open.span) by {
                crate::span::lemma_merge_one(open.span);
                assert(open.parts() == seq![open.span]);
            }
            lemma_parts_within(node.parts(), Some(file));
            assert(open@ == open);
            assert(close@ == close);
        }
        Ok(node)
    }
}

impl<T: Parse> Parse for Tupled<T> {
    open spec fn parsed(before: ParserView) -> Outcome<TupledView<T::V>> {
        tupled_model::<T, ByType>(&ByType, before)
    }

    open spec fn advances() -> bool {
        true
    }

    fn parse(parser: &mut Parser) -> (r: Result<Self>) {
        proof {
            assert(Self::parsed(parser@) == tupled_model::<T, ByType>(&ByType, parser@));
            assert(Self::advances());
        }
        Self::parse_with(parser, ByType)
    }
}

} // verus!
