//! Spans: byte ranges within one source unit, their union, and the rule by
//! which every syntax node gets its span from its parts.

use crate::string_allocator::PathRef;
use vstd::prelude::*;

verus! {

/// A range of bytes in a source unit.
#[derive(Clone, Copy, Debug, PartialEq, Eq, Hash, Structural)]
pub struct Span {
    pub file_path: Option<PathRef>,
    pub start: usize,
    pub length: usize,
}

impl Span {
    /// The span of `length` bytes from `start` in the unit `file_path`.
    pub fn new(file_path: PathRef, start: usize, length: usize) -> (s: Self)
        ensures
            s == (Span { file_path: Some(file_path), start, length }),
    {
        Span { file_path: Some(file_path), start, length }
    }

    /// The source unit of the span.
    pub fn file_path(&self) -> (p: Option<PathRef>)
        ensures
            p == self.file_path,
    {
        self.file_path
    }

    /// The offset of the first byte.
    pub fn start(&self) -> (n: usize)
        ensures
            n == self.start,
    {
        self.start
    }

    /// The number of bytes.
    pub fn length(&self) -> (n: usize)
        ensures
            n == self.length,
    {
        self.length
    }

    /// The offset just past the last byte.
    pub open spec fn end_spec(self) -> int {
        self.start + self.length
    }

    /// The end of the span is an offset that the machine can hold.
    pub open spec fn well_formed(self) -> bool {
        self.start + self.length <= usize::MAX
    }

    /// The offset just past the last byte.
    pub fn end(&self) -> (n: usize)
        requires
            self.well_formed(),
        ensures
            n == self.end_spec(),
    {
        self.start + self.length
    }

    /// Whether the two spans may be merged: they do not name two different
    /// source units.
    pub open spec fn same_unit(self, other: Span) -> bool {
        self.file_path is Some && other.file_path is Some ==> self.file_path == other.file_path
    }

    /// The union of two spans: from the lesser start to the greater end, in
    /// the unit of the first. Spans of two different units are not merged.
    pub fn join(self, rhs: Span) -> (r: Span)
        requires
            self.well_formed(),
            rhs.well_formed(),
            self.same_unit(rhs),
        ensures
            r == self.merge(rhs),
            r.well_formed(),
    {
        let start = if self.start <= rhs.start {
            self.start
        } else {
            rhs.start
        };
        let end = if self.end() >= rhs.end() {
            self.end()
        } else {
            rhs.end()
        };
        Span { file_path: self.file_path, start, length: end - start }
    }

    /// The union of two spans where they can be merged; none where one of
    /// them ends beyond what the machine can hold, or where they lie in two
    /// different source units.
    pub fn checked_join(self, rhs: Span) -> (r: Option<Span>)
        ensures
            r == (if self.well_formed() && rhs.well_formed() && self.same_unit(rhs) {
                Some(self.merge(rhs))
            } else {
                None
            }),
    {
        let same = match (self.file_path, rhs.file_path) {
            (Some(a), Some(b)) => a == b,
            _ => true,
        };
        if !same {
            return None;
        }
        match (self.start.checked_add(self.length), rhs.start.checked_add(rhs.length)) {
            (Some(_), Some(_)) => Some(self.join(rhs)),
            _ => None,
        }
    }

    /// The union of two spans: from the lesser start to the greater end, in
    /// the unit of the first.
    pub open spec fn merge(self, other: Span) -> Span {
        let start = if self.start <= other.start {
            self.start
        } else {
            other.start
        };
        let end = if self.end_spec() >= other.end_spec() {
            self.end_spec()
        } else {
            other.end_spec()
        };
        Span { file_path: self.file_path, start, length: (end - start) as usize }
    }
}

/// The spans of a node's parts merged from left to right. Of no span at all
/// it is the empty span at offset zero of no unit.
pub open spec fn merge_all(spans: Seq<Span>) -> Span
    decreases spans.len(),
{
    if spans.len() == 0 {
        Span { file_path: None, start: 0, length: 0 }
    } else if spans.len() == 1 {
        spans[0]
    } else {
        merge_all(spans.drop_last()).merge(spans.last())
    }
}

/// Every span is well formed and lies in the unit `unit`.
pub open spec fn all_within(spans: Seq<Span>, unit: Option<PathRef>) -> bool {
    forall|i: int| 0 <= i < spans.len() ==> (#[trigger] spans[i]).well_formed() && spans[i].file_path == unit
}

/// The union of two well-formed spans starts at the lesser start, ends at
/// the greater end, and is well formed.
pub proof fn merge_covers(a: Span, b: Span)
    requires
        a.well_formed(),
        b.well_formed(),
    ensures
        a.merge(b).well_formed(),
        a.merge(b).file_path == a.file_path,
        a.merge(b).start <= a.start && a.merge(b).start <= b.start,
        a.merge(b).start == a.start || a.merge(b).start == b.start,
        a.merge(b).end_spec() >= a.end_spec() && a.merge(b).end_spec() >= b.end_spec(),
        a.merge(b).end_spec() == a.end_spec() || a.merge(b).end_spec() == b.end_spec(),
{
}

/// The span of a node starts where the first of its parts starts and ends
/// where the last of them ends: its start is the minimum of their starts and
/// its end the maximum of their ends.
pub proof fn merge_all_covers(spans: Seq<Span>)
    requires
        spans.len() > 0,
        forall|i: int| 0 <= i < spans.len() ==> (#[trigger] spans[i]).well_formed(),
    ensures
        merge_all(spans).well_formed(),
        merge_all(spans).file_path == spans[0].file_path,
        forall|i: int| 0 <= i < spans.len() ==> merge_all(spans).start <= (#[trigger] spans[i]).start,
        exists|i: int| 0 <= i < spans.len() && merge_all(spans).start == (#[trigger] spans[i]).start,
        forall|i: int|
            0 <= i < spans.len() ==> merge_all(spans).end_spec() >= (#[trigger] spans[i]).end_spec(),
        exists|i: int|
            0 <= i < spans.len() && merge_all(spans).end_spec() == (#[trigger] spans[i]).end_spec(),
    decreases spans.len(),
{
    if spans.len() == 1 {
        assert(merge_all(spans).start == spans[0].start);
        assert(merge_all(spans).end_spec() == spans[0].end_spec());
    } else {
        let front = spans.drop_last();
        let last = spans.last();
        assert forall|i: int| 0 <= i < front.len() implies (#[trigger] front[i]).well_formed() by {
            assert(front[i] == spans[i]);
        }
        merge_all_covers(front);
        let m = merge_all(front);
        merge_covers(m, last);
        let whole = merge_all(spans);
        assert(whole == m.merge(last));
        assert(front[0] == spans[0]);
        assert forall|i: int| 0 <= i < spans.len() implies whole.start <= (#[trigger] spans[i]).start
            && whole.end_spec() >= spans[i].end_spec() by {
            if i < front.len() {
                assert(front[i] == spans[i]);
            }
        }
        let lo = choose|i: int| 0 <= i < front.len() && m.start == (#[trigger] front[i]).start;
        let hi = choose|i: int| 0 <= i < front.len() && m.end_spec() == (#[trigger] front[i]).end_spec();
        assert(front[lo] == spans[lo]);
        assert(front[hi] == spans[hi]);
        if whole.start == m.start {
            assert(whole.start == spans[lo].start);
        } else {
            assert(whole.start == spans[spans.len() - 1].start);
        }
        if whole.end_spec() == m.end_spec() {
            assert(whole.end_spec() == spans[hi].end_spec());
        } else {
            assert(whole.end_spec() == spans[spans.len() - 1].end_spec());
        }
    }
}

/// Spans of one unit merge into a span of that unit.
pub proof fn merge_all_within(spans: Seq<Span>, unit: Option<PathRef>)
    requires
        spans.len() > 0,
        all_within(spans, unit),
    ensures
        merge_all(spans).well_formed(),
        merge_all(spans).file_path == unit,
{
    merge_all_covers(spans);
}

/// A node with a single part has the span of that part.
pub proof fn lemma_merge_one(s: Span)
    ensures
        merge_all(seq![s]) == s,
{
    assert(seq![s].len() == 1);
    assert(seq![s][0] == s);
}

/// The union of the spans in `parts`, from left to right: the one routine by
/// which every node with parts comes to its span.
pub fn merge_spans(parts: &[Span]) -> (s: Span)
    requires
        parts@.len() > 0,
        all_within(parts@, parts@[0].file_path),
    ensures
        s == merge_all(parts@),
        s.well_formed(),
        s.file_path == parts@[0].file_path,
{
    let mut s = parts[0];
    let mut i: usize = 1;
    assert(parts@.take(1) =~= seq![parts@[0]]);
    while i < parts.len()
        invariant
            1 <= i <= parts@.len(),
            all_within(parts@, parts@[0].file_path),
            s == merge_all(parts@.take(i as int)),
            s.well_formed(),
            s.file_path == parts@[0].file_path,
        decreases parts@.len() - i,
    {
        proof {
            let next = parts@.take(i as int + 1);
            assert(next.drop_last() =~= parts@.take(i as int));
            assert(next.last() == parts@[i as int]);
            merge_covers(s, parts@[i as int]);
        }
        s = s.join(parts[i]);
        i += 1;
    }
    assert(parts@.take(parts@.len() as int) =~= parts@);
    s
}

/// The spans in `parts` can be merged from left to right: there is one at
/// least, each is well formed, and none lies in another unit than what was
/// merged before it.
pub open spec fn mergeable(parts: Seq<Span>) -> bool
    decreases parts.len(),
{
    if parts.len() == 0 {
        false
    } else if parts.len() == 1 {
        parts[0].well_formed()
    } else {
        &&& mergeable(parts.drop_last())
        &&& parts.last().well_formed()
        &&& merge_all(parts.drop_last()).same_unit(parts.last())
    }
}

/// The union of the spans in `parts`, from left to right, where they can be
/// merged; none where there is no span, where one ends beyond what the
/// machine can hold, or where two lie in different source units.
pub fn checked_merge_spans(parts: &[Span]) -> (r: Option<Span>)
    ensures
        r == (if mergeable(parts@) {
            Some(merge_all(parts@))
        } else {
            None
        }),
{
    if parts.len() == 0 {
        return None;
    }
    let first = parts[0];
    if first.start.checked_add(first.length).is_none() {
        proof {
            assert(parts@.take(1) =~= seq![parts@[0]]);
            if mergeable(parts@) {
                lemma_mergeable_prefix(parts@, 1);
            }
        }
        return None;
    }
    let mut s = first;
    let mut i: usize = 1;
    assert(parts@.take(1) =~= seq![parts@[0]]);
    while i < parts.len()
        invariant
            1 <= i <= parts@.len(),
            mergeable(parts@.take(i as int)),
            s == merge_all(parts@.take(i as int)),
            s.well_formed(),
        decreases parts@.len() - i,
    {
        proof {
            let next = parts@.take(i as int + 1);
            assert(next.drop_last() =~= parts@.take(i as int));
            assert(next.last() == parts@[i as int]);
        }
        match s.checked_join(parts[i]) {
            Some(joined) => {
                proof {
                    merge_covers(s, parts@[i as int]);
                }
                s = joined;
            },
            None => {
                proof {
                    if mergeable(parts@) {
                        lemma_mergeable_prefix(parts@, i as int + 1);
                    }
                }
                return None;
            },
        }
        i += 1;
    }
    assert(parts@.take(parts@.len() as int) =~= parts@);
    Some(s)
}

/// Spans that can be merged can be merged up to any point.
pub proof fn lemma_mergeable_prefix(parts: Seq<Span>, n: int)
    requires
        1 <= n <= parts.len(),
        mergeable(parts),
    ensures
        mergeable(parts.take(n)),
    decreases parts.len(),
{
    if n == parts.len() {
        assert(parts.take(n) =~= parts);
    } else {
        assert(parts.drop_last().take(n) =~= parts.take(n));
        lemma_mergeable_prefix(parts.drop_last(), n);
    }
}

/// Something that has a place in the source. A node's span is the union of
/// the spans of its parts, taken in the order in which they are declared.
pub trait Spanned {
    /// The spans of the parts that the node's span is made of. A leaf has
    /// one: the span it was read at.
    spec fn parts(&self) -> Seq<Span>;

    /// The spans of the node, and of what it is made of, can be merged: they
    /// are well formed and lie in one source unit.
    spec fn sound(&self) -> bool;

    /// The span of the node: the union of its parts.
    fn span(&self) -> (s: Span)
        requires
            self.sound(),
        ensures
            s == merge_all(self.parts()),
    ;
}

/// The span of a node, as a specification.
pub open spec fn span_of<T: Spanned>(node: &T) -> Span {
    merge_all(node.parts())
}

/// A node whose span can be told from what it holds.
pub trait Located: View + Spanned + Sized {
    /// The span of a node that holds `v`.
    spec fn span_in(v: Self::V) -> Span;

    /// The span of a node is the one told from what it holds.
    proof fn lemma_span_in(&self)
        ensures
            span_of(self) == Self::span_in(self@),
    ;
}

/// The span of a list that ended with the cursor at `cursor`, and whose
/// items and separators have the spans `spans`, in the order in which they
/// were read: their union, and the empty span at the cursor where the list
/// holds nothing.
pub open spec fn list_span(spans: Seq<Span>, cursor: Span) -> Span {
    if spans.len() == 0 {
        cursor
    } else {
        merge_all(spans)
    }
}

/// One more span joins the union of those before it.
pub proof fn lemma_merge_push(spans: Seq<Span>, next: Span)
    ensures
        merge_all(spans.push(next)) == (if spans.len() == 0 {
            next
        } else {
            merge_all(spans).merge(next)
        }),
{
    let all = spans.push(next);
    assert(all.drop_last() =~= spans);
    assert(all.last() == next);
    if spans.len() == 0 {
        assert(all[0] == next);
    }
}

/// The span of a node covers its parts and no more: it starts where the
/// first of them starts and ends where the last of them ends, so that its
/// start is the least of their starts and its end the greatest of their ends.
pub proof fn span_covers_parts<T: Spanned>(node: &T)
    requires
        node.parts().len() > 0,
        forall|i: int| 0 <= i < node.parts().len() ==> (#[trigger] node.parts()[i]).well_formed(),
    ensures
        forall|i: int|
            0 <= i < node.parts().len() ==> span_of(node).start <= (#[trigger] node.parts()[i]).start,
        exists|i: int|
            0 <= i < node.parts().len() && span_of(node).start == (#[trigger] node.parts()[i]).start,
        forall|i: int|
            0 <= i < node.parts().len() ==> span_of(node).end_spec() >= (
            #[trigger] node.parts()[i]).end_spec(),
        exists|i: int|
            0 <= i < node.parts().len() && span_of(node).end_spec() == (
            #[trigger] node.parts()[i]).end_spec(),
{
    merge_all_covers(node.parts());
}

impl Spanned for Span {
    open spec fn parts(&self) -> Seq<Span> {
        seq![*self]
    }

    open spec fn sound(&self) -> bool {
        self.well_formed()
    }

    fn span(&self) -> (s: Span) {
        *self
    }
}

impl<T: Spanned> Spanned for Box<T> {
    open spec fn parts(&self) -> Seq<Span> {
        (**self).parts()
    }

    open spec fn sound(&self) -> bool {
        (**self).sound()
    }

    fn span(&self) -> (s: Span) {
        (**self).span()
    }
}

/// What holds of the parts of a node all of whose parts are well formed and
/// lie in `unit`.
pub proof fn lemma_parts_within(parts: Seq<Span>, unit: Option<PathRef>)
    requires
        parts.len() > 0,
        all_within(parts, unit),
    ensures
        all_within(parts, parts[0].file_path),
        merge_all(parts).well_formed(),
        merge_all(parts).file_path == unit,
{
    merge_all_within(parts, unit);
}

} // verus!
