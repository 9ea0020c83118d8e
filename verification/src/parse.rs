//! Parsing by type: every syntax node says how it is read from a parser.

use crate::error::{ErrorView, Result};
use crate::parser::{follows, told, Outcome, Parser, ParserView};
use crate::span::{span_of, Spanned};
use crate::string_allocator::PathRef;
use vstd::prelude::*;

verus! {

/// The result `r` and the state `after` are what `expected` says: the node
/// by its view, an error by what it says.
pub open spec fn parsed_as<T: View>(r: Result<T>, after: ParserView, expected: Outcome<T::V>) -> bool {
    &&& after == expected.after
    &&& match r {
        Ok(node) => expected.result == Ok::<T::V, ErrorView>(node@),
        Err(error) => expected.result == Err::<T::V, ErrorView>(error@),
    }
}

/// The node's spans can be merged, and its span lies in the unit `file`.
pub open spec fn placed<T: Spanned>(node: &T, file: PathRef) -> bool {
    &&& node.sound()
    &&& span_of(node).well_formed()
    &&& span_of(node).file_path == Some(file)
}

/// What every parse promises: the result and the state are what the rule
/// says, the state follows the one before, and a node that was read has its
/// place in the unit that is read.
pub open spec fn parse_post<T: View + Spanned>(
    r: Result<T>,
    before: ParserView,
    after: ParserView,
    expected: Outcome<T::V>,
) -> bool {
    &&& parsed_as(r, after, expected)
    &&& follows(after, before)
    &&& r matches Ok(node) ==> placed(&node, before.file)
    &&& told(r)
}

/// A syntax node that can be read from a parser.
pub trait Parse: Sized + View + Spanned {
    /// What parsing gives in the state `before`: the node or the error, and
    /// the state afterwards.
    spec fn parsed(before: ParserView) -> Outcome<Self::V>;

    /// Whether every node of this type takes at least one token other than
    /// the end of the input.
    spec fn advances() -> bool;

    /// Reads one node at the cursor. On an error nothing is given back: the
    /// first error ends the parse.
    fn parse(parser: &mut Parser) -> (r: Result<Self>)
        requires
            old(parser).wf(),
        ensures
            final(parser).wf(),
            parse_post(r, old(parser)@, final(parser)@, Self::parsed(old(parser)@)),
            r is Ok && Self::advances() ==> final(parser)@.remaining() < old(parser)@.remaining(),
    ;
}

impl<T: Parse> Parse for Box<T> {
    open spec fn parsed(before: ParserView) -> Outcome<T::V> {
        T::parsed(before)
    }

    open spec fn advances() -> bool {
        T::advances()
    }

    fn parse(parser: &mut Parser) -> (r: Result<Self>) {
        match T::parse(parser) {
            Ok(node) => Ok(Box::new(node)),
            Err(error) => Err(error),
        }
    }
}

/// A rule by which a node of the type `T` is read, for the places where the
/// grammar reads a node otherwise than by the rule of its type.
pub trait ParseWith<T: View + Spanned> {
    /// Whether the rule can be used at all.
    spec fn usable(&self) -> bool;

    /// What the rule gives in the state `before`.
    spec fn parsed(&self, before: ParserView) -> Outcome<T::V>;

    /// Whether every node read by the rule takes at least one token other
    /// than the end of the input.
    spec fn advances(&self) -> bool;

    /// Reads one node by the rule.
    fn run(&self, parser: &mut Parser) -> (r: Result<T>)
        requires
            old(parser).wf(),
            self.usable(),
        ensures
            final(parser).wf(),
            parse_post(r, old(parser)@, final(parser)@, self.parsed(old(parser)@)),
            r is Ok && self.advances() ==> final(parser)@.remaining() < old(parser)@.remaining(),
    ;
}

/// The rule of the node's own type.
#[derive(Clone, Copy, Debug)]
pub struct ByType;

impl<T: Parse> ParseWith<T> for ByType {
    open spec fn usable(&self) -> bool {
        true
    }

    open spec fn parsed(&self, before: ParserView) -> Outcome<T::V> {
        T::parsed(before)
    }

    open spec fn advances(&self) -> bool {
        T::advances()
    }

    fn run(&self, parser: &mut Parser) -> (r: Result<T>) {
        T::parse(parser)
    }
}

/// The rule of the node's own type, and then every end of line that follows.
#[derive(Clone, Copy, Debug)]
pub struct ThenEol;

/// What reading a node of the type `T` and the ends of line after it gives.
pub open spec fn then_eol<T: Parse>(before: ParserView) -> Outcome<T::V> {
    let node = T::parsed(before);
    match node.result {
        Ok(value) => {
            let skipped = node.after.skip_eol();
            match skipped.result {
                Ok(_) => Outcome { result: Ok(value), after: skipped.after },
                Err(error) => Outcome { result: Err(error), after: skipped.after },
            }
        },
        Err(error) => Outcome { result: Err(error), after: node.after },
    }
}

impl<T: Parse> ParseWith<T> for ThenEol {
    open spec fn usable(&self) -> bool {
        true
    }

    open spec fn parsed(&self, before: ParserView) -> Outcome<T::V> {
        then_eol::<T>(before)
    }

    open spec fn advances(&self) -> bool {
        T::advances()
    }

    fn run(&self, parser: &mut Parser) -> (r: Result<T>) {
        let node = T::parse(parser)?;
        parser.skip_eol()?;
        Ok(node)
    }
}

} // verus!
