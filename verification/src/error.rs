//! Diagnostics: a primary message and the hints gathered on the way, each
//! with the place it speaks of.

use crate::span::Span;
use vstd::prelude::*;

verus! {

/// What a hint says, and of which place.
pub struct HintView {
    pub msg: Seq<char>,
    pub span: Span,
}

/// What an error says: its message, and its hints in the order in which
/// they were added.
pub struct ErrorView {
    pub msg: Seq<char>,
    pub hints: Seq<HintView>,
}

/// A remark on a place in the source.
#[derive(Clone, Debug)]
pub struct ErrorHint {
    span: Span,
    msg: String,
}

/// A failed parse: a short message and any number of hints.
#[derive(Clone, Debug)]
pub struct Error {
    hints: Vec<ErrorHint>,
    msg: String,
}

/// The outcome of an operation that may fail with an [`Error`].
pub type Result<T> = core::result::Result<T, Error>;

impl View for ErrorHint {
    type V = HintView;

    closed spec fn view(&self) -> HintView {
        HintView { msg: self.msg@, span: self.span }
    }
}

impl View for Error {
    type V = ErrorView;

    closed spec fn view(&self) -> ErrorView {
        ErrorView {
            msg: self.msg@,
            hints: Seq::new(self.hints@.len(), |i: int| self.hints@[i]@),
        }
    }
}

impl ErrorHint {
    /// The hint that says `msg` of `span`.
    pub fn new(msg: &str, span: Span) -> (h: Self)
        ensures
            h@ == (HintView { msg: msg@, span }),
    {
        ErrorHint { span, msg: msg.to_owned() }
    }

    /// The place that the hint speaks of.
    pub fn span(&self) -> (s: Span)
        ensures
            s == self@.span,
    {
        self.span
    }

    /// What the hint says.
    pub fn msg(&self) -> (m: &str)
        ensures
            m@ == self@.msg,
    {
        self.msg.as_str()
    }
}

impl Error {
    /// The error that says `msg`, with no hint yet.
    pub fn new(msg: &str) -> (e: Self)
        ensures
            e@ == (ErrorView { msg: msg@, hints: Seq::empty() }),
    {
        let e = Error { hints: Vec::new(), msg: msg.to_owned() };
        assert(e@.hints =~= Seq::empty());
        e
    }

    /// The same error with one more hint, after those it had.
    pub fn with_hint(self, msg: &str, span: Span) -> (e: Self)
        ensures
            e@ == (ErrorView {
                msg: self@.msg,
                hints: self@.hints.push(HintView { msg: msg@, span }),
            }),
    {
        let mut e = self;
        e.hints.push(ErrorHint::new(msg, span));
        assert(e@.hints =~= self@.hints.push(HintView { msg: msg@, span }));
        e
    }

    /// The hints, in the order in which they were added.
    pub fn hints(&self) -> (h: &[ErrorHint])
        ensures
            h@.len() == self@.hints.len(),
            forall|i: int| 0 <= i < h@.len() ==> (#[trigger] h@[i])@ == self@.hints[i],
    {
        self.hints.as_slice()
    }

    /// The primary message.
    pub fn msg(&self) -> (m: &str)
        ensures
            m@ == self@.msg,
    {
        self.msg.as_str()
    }
}

/// The view of a result that fails with an [`Error`]: the value as it is, the
/// error by what it says.
pub open spec fn seen<T>(r: Result<T>) -> core::result::Result<T, ErrorView> {
    match r {
        Ok(v) => Ok(v),
        Err(e) => Err(e@),
    }
}

} // verus!
