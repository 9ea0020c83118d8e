//! Interning: equal spellings share one entry of a table, and a handle is the
//! entry's index. The table only grows, so a handle stays good for as long as
//! the allocator lives.

use crate::text::str_eq;
use vstd::prelude::*;

verus! {

/// A handle to an interned string: the index of its entry.
#[derive(Clone, Copy, Debug, PartialEq, Eq, Hash, Structural)]
pub struct StableRef {
    pub index: usize,
}

/// A handle to an interned string that names a source unit.
#[derive(Clone, Copy, Debug, PartialEq, Eq, Hash, Structural)]
pub struct PathRef {
    pub text: StableRef,
}

/// The table of interned strings.
pub struct StringAllocator {
    allocations: Vec<String>,
}

/// The index of the first entry at or after `from` that equals `text`; the
/// table's length where there is none.
pub open spec fn find_from(table: Seq<Seq<char>>, text: Seq<char>, from: nat) -> nat
    decreases table.len() - from,
{
    if from >= table.len() {
        table.len()
    } else if table[from as int] == text {
        from
    } else {
        find_from(table, text, from + 1)
    }
}

/// Interning `text`: the table afterwards, and the index that stands for `text`.
/// A spelling that the table holds keeps its index and the table stays as it
/// is; a new one goes to the end.
pub open spec fn intern(table: Seq<Seq<char>>, text: Seq<char>) -> (Seq<Seq<char>>, nat) {
    let index = find_from(table, text, 0);
    if index < table.len() {
        (table, index)
    } else {
        (table.push(text), index)
    }
}

/// The text behind a handle; empty where the table has no such entry.
pub open spec fn text_of(table: Seq<Seq<char>>, index: nat) -> Seq<char> {
    if index < table.len() {
        table[index as int]
    } else {
        Seq::empty()
    }
}

/// No spelling occurs twice.
pub open spec fn distinct(table: Seq<Seq<char>>) -> bool {
    forall|i: int, j: int| 0 <= i < j < table.len() ==> table[i] != table[j]
}

/// What `find_from` finds is the first match, if there is any.
pub proof fn lemma_find_from(table: Seq<Seq<char>>, text: Seq<char>, from: nat)
    ensures
        from <= find_from(table, text, from) || find_from(table, text, from) == table.len(),
        find_from(table, text, from) <= table.len(),
        find_from(table, text, from) < table.len() ==> table[find_from(table, text, from) as int]
            == text,
        forall|k: int| from <= k < find_from(table, text, from) ==> table[k] != text,
    decreases table.len() - from,
{
    if from < table.len() && table[from as int] != text {
        lemma_find_from(table, text, from + 1);
    }
}

/// Interning answers with an entry that holds the text, and keeps every
/// earlier entry where it was.
pub proof fn lemma_intern(table: Seq<Seq<char>>, text: Seq<char>)
    ensures
        ({
            let (after, index) = intern(table, text);
            &&& index < after.len()
            &&& after[index as int] == text
            &&& table.len() <= after.len() <= table.len() + 1
            &&& forall|k: int| 0 <= k < table.len() ==> after[k] == table[k]
            &&& forall|k: int| 0 <= k < index ==> after[k] != text
            &&& distinct(table) ==> distinct(after)
        }),
{
    lemma_find_from(table, text, 0);
}

/// Two spellings interned one after the other get the same handle exactly
/// when they are equal, whatever the table held before; and the first handle
/// still stands for its text after the second call.
pub proof fn intern_identity(table: Seq<Seq<char>>, first: Seq<char>, second: Seq<char>)
    ensures
        ({
            let (t1, a) = intern(table, first);
            let (t2, b) = intern(t1, second);
            &&& (a == b <==> first == second)
            &&& text_of(t2, a) == first
            &&& text_of(t2, b) == second
        }),
{
    let (t1, a) = intern(table, first);
    lemma_intern(table, first);
    lemma_intern(t1, second);
}

/// Every entry keeps its place and its text however many spellings are
/// interned after it, in whatever order.
pub proof fn intern_stable(table: Seq<Seq<char>>, later: Seq<Seq<char>>)
    ensures
        table.len() <= intern_all(table, later).len(),
        forall|k: int|
            0 <= k < table.len() ==> (#[trigger] intern_all(table, later)[k]) == table[k],
    decreases later.len(),
{
    if later.len() > 0 {
        lemma_intern(table, later[0]);
        intern_stable(intern(table, later[0]).0, later.drop_first());
    }
}

/// The table after interning each of `texts` in turn.
pub open spec fn intern_all(table: Seq<Seq<char>>, texts: Seq<Seq<char>>) -> Seq<Seq<char>>
    decreases texts.len(),
{
    if texts.len() == 0 {
        table
    } else {
        intern_all(intern(table, texts[0]).0, texts.drop_first())
    }
}

/// Equal spellings get equal handles and different spellings different ones,
/// whatever was interned between the two calls.
pub proof fn intern_identity_across(
    table: Seq<Seq<char>>,
    first: Seq<char>,
    between: Seq<Seq<char>>,
    second: Seq<char>,
)
    ensures
        ({
            let (t1, a) = intern(table, first);
            let t2 = intern_all(t1, between);
            let (t3, b) = intern(t2, second);
            a == b <==> first == second
        }),
{
    let (t1, a) = intern(table, first);
    lemma_intern(table, first);
    let t2 = intern_all(t1, between);
    intern_stable(t1, between);
    lemma_intern(t2, second);
    let (t3, b) = intern(t2, second);
    assert(t2[a as int] == first);
    if first == second {
        if b < a {
            assert(t2[b as int] == t1[b as int]);
        }
    }
}

impl View for StringAllocator {
    type V = Seq<Seq<char>>;

    closed spec fn view(&self) -> Seq<Seq<char>> {
        Seq::new(self.allocations@.len(), |i: int| self.allocations@[i]@)
    }
}

impl StringAllocator {
    /// An allocator that holds nothing yet.
    pub fn new() -> (r: Self)
        ensures
            r@ == Seq::<Seq<char>>::empty(),
    {
        let r = StringAllocator { allocations: Vec::new() };
        assert(r@ =~= Seq::<Seq<char>>::empty());
        r
    }

    /// The number of spellings held.
    pub fn len(&self) -> (n: usize)
        ensures
            n == self@.len(),
    {
        self.allocations.len()
    }

    /// The handle of `string`, which is interned first where the table does
    /// not hold it yet.
    pub fn get(&mut self, string: &str) -> (r: StableRef)
        ensures
            (final(self)@, r.index as nat) == intern(old(self)@, string@),
    {
        let mut i: usize = 0;
        while i < self.allocations.len()
            invariant
                i <= self.allocations.len(),
                self@ == old(self)@,
                self.allocations@.len() == self@.len(),
                forall|k: int| 0 <= k < i ==> self@[k] != string@,
                find_from(self@, string@, 0) == find_from(self@, string@, i as nat),
            decreases self.allocations.len() - i,
        {
            if str_eq(self.allocations[i].as_str(), string) {
                return StableRef { index: i };
            }
            i += 1;
        }
        let ghost before = self@;
        self.allocations.push(string.to_owned());
        assert(self@ =~= before.push(string@));
        StableRef { index: i }
    }

    /// The handle of `string` as the name of a source unit, over the same table.
    pub fn get_path(&mut self, string: &str) -> (r: PathRef)
        ensures
            (final(self)@, r.text.index as nat) == intern(old(self)@, string@),
    {
        PathRef { text: self.get(string) }
    }

    /// The text behind a handle of this allocator; `None` for an index that
    /// the table does not have.
    pub fn resolve(&self, r: StableRef) -> (s: Option<&str>)
        ensures
            match s {
                Some(t) => r.index < self@.len() && t@ == self@[r.index as int],
                None => r.index >= self@.len(),
            },
    {
        if r.index < self.allocations.len() {
            Some(self.allocations[r.index].as_str())
        } else {
            None
        }
    }

    /// Releases every interned string. No handle of this allocator can be
    /// resolved from here on, as the allocator is gone.
    pub fn dealloc(self) {
    }

    /// The text behind a path handle of this allocator.
    pub fn resolve_path(&self, r: PathRef) -> (s: Option<&str>)
        ensures
            match s {
                Some(t) => r.text.index < self@.len() && t@ == self@[r.text.index as int],
                None => r.text.index >= self@.len(),
            },
    {
        self.resolve(r.text)
    }
}

} // verus!
