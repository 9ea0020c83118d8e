//! Lists of items with separators between them.

use crate::error::{Result};
use crate::parse::{parse_post, placed, ByType, Parse, ParseWith};
use crate::parser::{done, fail, follows, stalled, Outcome, Parser, ParserView};
use crate::span::{
    all_within, lemma_merge_one, lemma_merge_push, list_span, merge_all, span_of, Located, Span,
    Spanned,
};
use crate::token::TokenKind;
use vstd::prelude::*;

verus! {

/// A rule that says at which token a list ends.
pub trait Termination {
    /// Whether a list ends before a token of the kind `kind`.
    spec fn ends(&self, kind: TokenKind) -> bool;

    /// Whether a list ends before a token of the kind `kind`.
    fn terminate(&self, kind: &TokenKind) -> (b: bool)
        ensures
            b == self.ends(*kind),
    ;
}

/// A list ends before the token of exactly this kind.
impl Termination for TokenKind {
    open spec fn ends(&self, kind: TokenKind) -> bool {
        *self == kind
    }

    fn terminate(&self, kind: &TokenKind) -> (b: bool) {
        *self == *kind
    }
}

/// Items with separators between them, and the place of the whole list. The
/// place is kept with the list, so that a list without items has one too.
#[derive(Clone, Debug)]
pub struct Punctuated<I, P> {
    pub items: Vec<I>,
    pub punct: Vec<P>,
    pub span: Span,
}

/// What a list holds: its items, its separators, and its place.
pub struct PunctuatedView<I, P> {
    pub items: Seq<I>,
    pub punct: Seq<P>,
    pub span: Span,
}

/// The views of the elements of `nodes`, in their order.
pub open spec fn views<T: View>(nodes: Seq<T>) -> Seq<T::V> {
    Seq::new(nodes.len(), |i: int| nodes[i]@)
}

impl<I: View, P: View> View for Punctuated<I, P> {
    type V = PunctuatedView<I::V, P::V>;

    open spec fn view(&self) -> PunctuatedView<I::V, P::V> {
        PunctuatedView { items: views(self.items@), punct: views(self.punct@), span: self.span }
    }
}

impl<I: Spanned, P: Spanned> Spanned for Punctuated<I, P> {
    open spec fn parts(&self) -> Seq<Span> {
        seq![self.span]
    }

    open spec fn sound(&self) -> bool {
        &&& self.span.well_formed()
        &&& forall|i: int| 0 <= i < self.items@.len() ==> (#[trigger] self.items@[i]).sound()
        &&& forall|i: int| 0 <= i < self.punct@.len() ==> (#[trigger] self.punct@[i]).sound()
    }

    fn span(&self) -> (s: Span) {
        proof {
            lemma_merge_one(self.span);
        }
        self.span
    }
}

/// The spans of the items and separators of a list, in the order in which
/// they stand in the source: an item, a separator, an item, and so on.
pub open spec fn element_spans<I: Spanned, P: Spanned>(items: Seq<I>, puncts: Seq<P>) -> Seq<Span> {
    Seq::new(
        items.len() + puncts.len(),
        |k: int|
            if k % 2 == 0 {
                span_of(&items[k / 2])
            } else {
                span_of(&puncts[k / 2])
            },
    )
}

/// The span of the list is the union of the spans of its items and
/// separators, which are well formed and lie in the unit `file`; a list that
/// holds nothing has the empty span `cursor`.
pub open spec fn spans_elements<I: Spanned, P: Spanned>(
    list: &Punctuated<I, P>,
    cursor: Span,
    file: crate::string_allocator::PathRef,
) -> bool {
    &&& list.span == list_span(element_spans(list.items@, list.punct@), cursor)
    &&& all_within(element_spans(list.items@, list.punct@), Some(file))
}

/// A list that holds something starts where the first of its items and
/// separators starts and ends where the last of them ends: the start of its
/// span is the least of their starts, and its end the greatest of their
/// ends. The token that ended the list is no part of it.
pub proof fn list_covers_its_elements<I: Spanned, P: Spanned>(
    list: &Punctuated<I, P>,
    cursor: Span,
    file: crate::string_allocator::PathRef,
)
    requires
        spans_elements(list, cursor, file),
        list.items@.len() + list.punct@.len() > 0,
    ensures
        ({
            let spans = element_spans(list.items@, list.punct@);
            &&& forall|k: int| 0 <= k < spans.len() ==> list.span.start <= (#[trigger] spans[k]).start
            &&& exists|k: int| 0 <= k < spans.len() && list.span.start == (#[trigger] spans[k]).start
            &&& forall|k: int|
                0 <= k < spans.len() ==> list.span.end_spec() >= (#[trigger] spans[k]).end_spec()
            &&& exists|k: int|
                0 <= k < spans.len() && list.span.end_spec() == (#[trigger] spans[k]).end_spec()
        }),
{
    crate::span::merge_all_covers(element_spans(list.items@, list.punct@));
}

/// The rest of a list, after the items and separators read so far, whose
/// spans are `spans`. Before each item and after each item the next token
/// is looked at, and the list ends where `end` says so; else an item, or
/// after an item a separator, is read. The span of the list is the union of
/// the spans of its items and separators; the span of a list that holds
/// nothing is the empty span at the cursor, as it stands when the list has
/// ended.
pub open spec fn punctuated_rest<I, P, FI, FP, Tm>(
    item: &FI,
    punct: &FP,
    end: &Tm,
    s: ParserView,
    spans: Seq<Span>,
    items: Seq<I::V>,
    puncts: Seq<P::V>,
) -> Outcome<PunctuatedView<I::V, P::V>> where
    I: Located,
    P: Located,
    FI: ParseWith<I>,
    FP: ParseWith<P>,
    Tm: Termination,

    decreases s.remaining(),
{
    let peeked = s.peek_token();
    match peeked.result {
        Ok(token) => if end.ends(token.kind) {
            done(
                PunctuatedView {
                    items,
                    punct: puncts,
                    span: list_span(spans, peeked.after.position()),
                },
                peeked.after,
            )
        } else {
            let one = item.parsed(peeked.after);
            match one.result {
                Ok(i) => {
                    let again = one.after.peek_token();
                    match again.result {
                        Ok(next) => if end.ends(next.kind) {
                            done(
                                PunctuatedView {
                                    items: items.push(i),
                                    punct: puncts,
                                    span: merge_all(spans.push(I::span_in(i))),
                                },
                                again.after,
                            )
                        } else {
                            let separator = punct.parsed(again.after);
                            match separator.result {
                                Ok(p) => if separator.after.remaining() < s.remaining()
                                    && separator.after.valid() {
                                    punctuated_rest::<I, P, FI, FP, Tm>(
                                        item,
                                        punct,
                                        end,
                                        separator.after,
                                        spans.push(I::span_in(i)).push(P::span_in(p)),
                                        items.push(i),
                                        puncts.push(p),
                                    )
                                } else {
                                    stalled(separator.after)
                                },
                                Err(error) => fail(error, separator.after),
                            }
                        },
                        Err(error) => fail(error, again.after),
                    }
                },
                Err(error) => fail(error, one.after),
            }
        },
        Err(error) => fail(error, peeked.after),
    }
}

/// A list read from the state `s`: items read by `item` with separators
/// read by `punct` between them, up to the token at which `end` says that
/// the list ends.
pub open spec fn punctuated_model<I, P, FI, FP, Tm>(
    item: &FI,
    punct: &FP,
    end: &Tm,
    s: ParserView,
) -> Outcome<PunctuatedView<I::V, P::V>> where
    I: Located,
    P: Located,
    FI: ParseWith<I>,
    FP: ParseWith<P>,
    Tm: Termination,
 {
    punctuated_rest::<I, P, FI, FP, Tm>(
        item,
        punct,
        end,
        s,
        Seq::empty(),
        Seq::empty(),
        Seq::empty(),
    )
}

/// The union so far and one more span.
pub fn grow(so_far: Option<Span>, next: Span) -> (r: Span)
    requires
        next.well_formed(),
        so_far matches Some(a) ==> a.well_formed() && a.same_unit(next),
    ensures
        r == (match so_far {
            Some(a) => a.merge(next),
            None => next,
        }),
        r.well_formed(),
{
    match so_far {
        Some(a) => a.join(next),
        None => next,
    }
}

impl<I: Located, P: Located> Punctuated<I, P> {
    /// Reads a list of items and separators, each by the rule of its type,
    /// up to the token at which `termination` says that the list ends.
    pub fn parse_terminated<Tm: Termination>(parser: &mut Parser, termination: Tm) -> (r: Result<
        Self,
    >) where I: Parse, P: Parse
        requires
            old(parser).wf(),
            I::advances() || P::advances(),
        ensures
            final(parser).wf(),
            parse_post(
                r,
                old(parser)@,
                final(parser)@,
                punctuated_model::<I, P, ByType, ByType, Tm>(
                    &ByType,
                    &ByType,
                    &termination,
                    old(parser)@,
                ),
            ),
            r matches Ok(list) ==> spans_elements(
                &list,
                final(parser)@.position(),
                old(parser)@.file,
            ),
    {
        Self::parse_terminated_with(parser, ByType, ByType, termination)
    }

    /// Reads a list of items read by `parse_item` with separators read by
    /// `parse_punct` between them, up to the token at which `termination`
    /// says that the list ends. The token that ends the list is looked at
    /// and not taken, and is no part of the list.
    pub fn parse_terminated_with<FI: ParseWith<I>, FP: ParseWith<P>, Tm: Termination>(
        parser: &mut Parser,
        parse_item: FI,
        parse_punct: FP,
        termination: Tm,
    ) -> (r: Result<Self>)
        requires
            old(parser).wf(),
            parse_item.usable(),
            parse_punct.usable(),
            parse_item.advances() || parse_punct.advances(),
        ensures
            final(parser).wf(),
            parse_post(
                r,
                old(parser)@,
                final(parser)@,
                punctuated_model::<I, P, FI, FP, Tm>(
                    &parse_item,
                    &parse_punct,
                    &termination,
                    old(parser)@,
                ),
            ),
            r matches Ok(list) ==> spans_elements(
                &list,
                final(parser)@.position(),
                old(parser)@.file,
            ),
    {
        let ghost file = parser@.file;
        let mut span: Option<Span> = None;
        let ghost mut spans: Seq<Span> = Seq::empty();
        let mut items: Vec<I> = Vec::new();
        let mut punct: Vec<P> = Vec::new();
        proof {
            assert(views(items@) =~= Seq::<I::V>::empty());
            assert(views(punct@) =~= Seq::<P::V>::empty());
            assert(element_spans(items@, punct@) =~= spans);
        }
        loop
            invariant
                parser.wf(),
                parse_item.usable(),
                parse_punct.usable(),
                parse_item.advances() || parse_punct.advances(),
                file == old(parser)@.file,
                follows(parser@, old(parser)@),
                items@.len() == punct@.len(),
                spans == element_spans(items@, punct@),
                all_within(spans, Some(file)),
                span is None <==> spans.len() == 0,
                span matches Some(a) ==> a == merge_all(spans) && a.well_formed() && a.file_path
                    == Some(file),
                forall|i: int| 0 <= i < items@.len() ==> (#[trigger] items@[i]).sound(),
                forall|i: int| 0 <= i < punct@.len() ==> (#[trigger] punct@[i]).sound(),
                punctuated_rest::<I, P, FI, FP, Tm>(
                    &parse_item,
                    &parse_punct,
                    &termination,
                    parser@,
                    spans,
                    views(items@),
                    views(punct@),
                ) == punctuated_model::<I, P, FI, FP, Tm>(
                    &parse_item,
                    &parse_punct,
                    &termination,
                    old(parser)@,
                ),
            decreases parser@.remaining(),
        {
            let ghost seen_items = views(items@);
            let ghost seen_punct = views(punct@);
            let ghost old_items = items@;
            let ghost old_punct = punct@;
            let tok = parser.peek_token()?;
            if termination.terminate(&tok.kind()) {
                let whole = match span {
                    Some(a) => a,
                    None => parser.span(),
                };
                proof {
                    lemma_merge_one(whole);
                }
                let list = Punctuated { items, punct, span: whole };
                proof {
                    assert(list.parts() == seq![whole]);
                }
                return Ok(list);
            }
            let item = parse_item.run(parser)?;
            let item_span = item.span();
            proof {
                item.lemma_span_in();
                lemma_merge_push(spans, item_span);
            }
            let with_item = grow(span, item_span);
            items.push(item);
            proof {
                assert(views(items@) =~= seen_items.push(item@));
                assert(element_spans(items@, punct@) =~= spans.push(item_span)) by {
                    assert forall|k: int| 0 <= k < spans.len() implies #[trigger] element_spans(
                        items@,
                        punct@,
                    )[k] == spans[k] by {
                        if k % 2 == 0 {
                            assert(items@[k / 2] == old_items[k / 2]);
                        }
                    }
                }
            }
            let tok = parser.peek_token()?;
            if termination.terminate(&tok.kind()) {
                proof {
                    lemma_merge_one(with_item);
                }
                let list = Punctuated { items, punct, span: with_item };
                proof {
                    assert(list.parts() == seq![with_item]);
                }
                return Ok(list);
            }
            let separator = parse_punct.run(parser)?;
            let separator_span = separator.span();
            proof {
                separator.lemma_span_in();
                lemma_merge_push(spans.push(item_span), separator_span);
            }
            let with_both = with_item.join(separator_span);
            punct.push(separator);
            proof {
                assert(views(punct@) =~= seen_punct.push(separator@));
                assert(element_spans(items@, punct@) =~= spans.push(item_span).push(
                    separator_span,
                )) by {
                    assert forall|k: int| 0 <= k <= spans.len() implies #[trigger] element_spans(
                        items@,
                        punct@,
                    )[k] == spans.push(item_span)[k] by {
                        if k % 2 == 1 {
                            assert(punct@[k / 2] == old_punct[k / 2]);
                        }
                    }
                }
                spans = spans.push(item_span).push(separator_span);
            }
            span = Some(with_both);
        }
    }
}

/// The rule that reads a list up to the token at which `end` says that the
/// list ends, with items and separators each read by the rule of its type.
#[derive(Clone, Copy, Debug)]
pub struct Terminated<Tm> {
    pub end: Tm,
}

impl<I: Parse + Located, P: Parse + Located, Tm: Termination + Copy> ParseWith<
    Punctuated<I, P>,
> for Terminated<Tm> {
    open spec fn usable(&self) -> bool {
        I::advances() || P::advances()
    }

    open spec fn parsed(&self, before: ParserView) -> Outcome<PunctuatedView<I::V, P::V>> {
        punctuated_model::<I, P, ByType, ByType, Tm>(&ByType, &ByType, &self.end, before)
    }

    open spec fn advances(&self) -> bool {
        false
    }

    fn run(&self, parser: &mut Parser) -> (r: Result<Punctuated<I, P>>) {
        Punctuated::parse_terminated_with(parser, ByType, ByType, self.end)
    }
}

} // verus!
