//! Statements.

use crate::ast::delim::{Tupled, TupledView};
use crate::ast::expr::{Expr, ExprView};
use crate::ast::punctuated::{Punctuated, PunctuatedView};
use crate::ast::ty::Type;
use crate::span::{all_within, lemma_merge_one, merge_all, merge_spans, span_of, Span, Spanned};
use crate::spanned_option::{SpannedOption, SpannedOptionView};
use crate::token_types::{
    CloseBrace, CloseParen, Colon, ColonEqual, Comma, Eol, Equal, Ident, Ln, OpenBrace, OpenParen,
    Where,
};
use vstd::prelude::*;

verus! {

/// The first assignment to a name: `ident := expr`, to the end of the line.
#[derive(Debug)]
pub struct AssignNewStmt {
    pub ident: Ident,
    pub equal: ColonEqual,
    pub expr: Expr,
    pub eol: Eol,
}

/// An assignment: `ident = expr`, to the end of the line.
#[derive(Debug)]
pub struct AssignStmt {
    pub ident: Ident,
    pub equal: Equal,
    pub expr: Expr,
    pub eol: Eol,
}

/// Statements between braces.
#[derive(Debug)]
pub struct Block {
    pub open: OpenBrace,
    pub stmts: Vec<Stmt>,
    pub close: CloseBrace,
}

/// A named argument of a listener: `name: type`.
#[derive(Clone, Copy, Debug, PartialEq, Eq, Structural)]
pub struct Argument {
    pub ident: Ident,
    pub colon: Colon,
    pub ty: Type,
}

/// An argument of a listener: a type alone, or a name and its type.
#[derive(Clone, Copy, Debug, PartialEq, Eq, Structural)]
pub enum ListenerArgument {
    Expanded(Type),
    Args(Argument),
}

/// The arguments of a listener, in parentheses.
#[derive(Debug)]
pub struct ListenerArguments {
    pub open: OpenParen,
    pub args: Punctuated<ListenerArgument, Comma>,
    pub close: CloseParen,
}

/// The bounds of a listener: `where` and conditions with commas between them.
#[derive(Debug)]
pub struct WhereClause {
    pub _where: Where,
    pub bounds: Punctuated<Expr, Comma>,
}

/// The name of an event that a listener hears by default.
#[derive(Clone, Copy, Debug, PartialEq, Eq, Structural)]
pub struct DefaultEvent {
    pub ident: Ident,
}

/// The events that a listener hears by default, between `<` and `>`.
#[derive(Debug)]
pub struct DefaultEvents {
    pub events: Tupled<Punctuated<DefaultEvent, Comma>>,
}

/// The declaration of a listener.
#[derive(Debug)]
pub struct LnStmt {
    pub ln: Ln,
    pub ident: Ident,
    pub default_events: SpannedOption<DefaultEvents>,
    pub args: ListenerArguments,
    pub where_clause: SpannedOption<WhereClause>,
    pub block: Block,
}

/// An expression that stands as a statement.
#[derive(Debug)]
pub struct ExprStmt {
    pub expr: Expr,
}

/// A statement.
#[derive(Debug)]
pub enum Stmt {
    Ln(LnStmt),
    AssignNew(AssignNewStmt),
    Assign(AssignStmt),
    Expr(ExprStmt),
}

/// What a first assignment holds.
pub struct AssignNewStmtView {
    pub ident: Ident,
    pub equal: ColonEqual,
    pub expr: ExprView,
    pub eol: Eol,
}

/// What an assignment holds.
pub struct AssignStmtView {
    pub ident: Ident,
    pub equal: Equal,
    pub expr: ExprView,
    pub eol: Eol,
}

/// What a block holds.
pub struct BlockView {
    pub open: OpenBrace,
    pub stmts: Seq<StmtView>,
    pub close: CloseBrace,
}

/// What the arguments of a listener hold.
pub struct ListenerArgumentsView {
    pub open: OpenParen,
    pub args: PunctuatedView<ListenerArgument, Comma>,
    pub close: CloseParen,
}

/// What the bounds of a listener hold.
pub struct WhereClauseView {
    pub _where: Where,
    pub bounds: PunctuatedView<ExprView, Comma>,
}

/// What the default events of a listener hold.
pub struct DefaultEventsView {
    pub events: TupledView<PunctuatedView<DefaultEvent, Comma>>,
}

/// What the declaration of a listener holds.
pub struct LnStmtView {
    pub ln: Ln,
    pub ident: Ident,
    pub default_events: SpannedOptionView<DefaultEventsView>,
    pub args: ListenerArgumentsView,
    pub where_clause: SpannedOptionView<WhereClauseView>,
    pub block: BlockView,
}

/// What an expression statement holds.
pub struct ExprStmtView {
    pub expr: ExprView,
}

/// What a statement holds.
pub enum StmtView {
    Ln(LnStmtView),
    AssignNew(AssignNewStmtView),
    Assign(AssignStmtView),
    Expr(ExprStmtView),
}

impl View for AssignNewStmt {
    type V = AssignNewStmtView;

    open spec fn view(&self) -> AssignNewStmtView {
        AssignNewStmtView {
            ident: self.ident@,
            equal: self.equal@,
            expr: self.expr@,
            eol: self.eol@,
        }
    }
}

impl Spanned for AssignNewStmt {
    open spec fn parts(&self) -> Seq<Span> {
        seq![span_of(&self.ident), span_of(&self.equal), span_of(&self.expr), span_of(&self.eol)]
    }

    open spec fn sound(&self) -> bool {
        &&& all_within(self.parts(), self.parts()[0].file_path)
        &&& self.ident.sound()
        &&& self.equal.sound()
        &&& self.expr.sound()
        &&& self.eol.sound()
    }

    fn span(&self) -> (s: Span) {
        let parts = [self.ident.span(), self.equal.span(), self.expr.span(), self.eol.span()];
        assert(parts@ =~= self.parts());
        merge_spans(parts.as_slice())
    }
}

impl View for AssignStmt {
    type V = AssignStmtView;

    open spec fn view(&self) -> AssignStmtView {
        AssignStmtView {
            ident: self.ident@,
            equal: self.equal@,
            expr: self.expr@,
            eol: self.eol@,
        }
    }
}

impl Spanned for AssignStmt {
    open spec fn parts(&self) -> Seq<Span> {
        seq![span_of(&self.ident), span_of(&self.equal), span_of(&self.expr), span_of(&self.eol)]
    }

    open spec fn sound(&self) -> bool {
        &&& all_within(self.parts(), self.parts()[0].file_path)
        &&& self.ident.sound()
        &&& self.equal.sound()
        &&& self.expr.sound()
        &&& self.eol.sound()
    }

    fn span(&self) -> (s: Span) {
        let parts = [self.ident.span(), self.equal.span(), self.expr.span(), self.eol.span()];
        assert(parts@ =~= self.parts());
        merge_spans(parts.as_slice())
    }
}

impl View for Argument {
    type V = Argument;

    open spec fn view(&self) -> Argument {
        *self
    }
}

impl Spanned for Argument {
    open spec fn parts(&self) -> Seq<Span> {
        seq![span_of(&self.ident), span_of(&self.colon), span_of(&self.ty)]
    }

    open spec fn sound(&self) -> bool {
        &&& all_within(self.parts(), self.parts()[0].file_path)
        &&& self.ident.sound()
        &&& self.colon.sound()
        &&& self.ty.sound()
    }

    fn span(&self) -> (s: Span) {
        let parts = [self.ident.span(), self.colon.span(), self.ty.span()];
        assert(parts@ =~= self.parts());
        merge_spans(parts.as_slice())
    }
}

impl View for ListenerArgument {
    type V = ListenerArgument;

    open spec fn view(&self) -> ListenerArgument {
        *self
    }
}

impl Spanned for ListenerArgument {
    open spec fn parts(&self) -> Seq<Span> {
        match self {
            ListenerArgument::Expanded(x) => seq![span_of(x)],
            ListenerArgument::Args(x) => seq![span_of(x)],
        }
    }

    open spec fn sound(&self) -> bool {
        &&& self.parts()[0].well_formed()
        &&& match self {
            ListenerArgument::Expanded(x) => x.sound(),
            ListenerArgument::Args(x) => x.sound(),
        }
    }

    fn span(&self) -> (s: Span) {
        proof {
            lemma_merge_one(self.parts()[0]);
            assert(self.parts() =~= seq![self.parts()[0]]);
        }
        match self {
            ListenerArgument::Expanded(x) => x.span(),
            ListenerArgument::Args(x) => x.span(),
        }
    }
}

impl View for ListenerArguments {
    type V = ListenerArgumentsView;

    open spec fn view(&self) -> ListenerArgumentsView {
        ListenerArgumentsView {
            open: self.open@,
            args: self.args@,
            close: self.close@,
        }
    }
}

impl Spanned for ListenerArguments {
    open spec fn parts(&self) -> Seq<Span> {
        seq![span_of(&self.open), span_of(&self.args), span_of(&self.close)]
    }

    open spec fn sound(&self) -> bool {
        &&& all_within(self.parts(), self.parts()[0].file_path)
        &&& self.open.sound()
        &&& self.args.sound()
        &&& self.close.sound()
    }

    fn span(&self) -> (s: Span) {
        let parts = [self.open.span(), self.args.span(), self.close.span()];
        assert(parts@ =~= self.parts());
        merge_spans(parts.as_slice())
    }
}

impl View for WhereClause {
    type V = WhereClauseView;

    open spec fn view(&self) -> WhereClauseView {
        WhereClauseView {
            _where: self._where@,
            bounds: self.bounds@,
        }
    }
}

impl Spanned for WhereClause {
    open spec fn parts(&self) -> Seq<Span> {
        seq![span_of(&self._where), span_of(&self.bounds)]
    }

    open spec fn sound(&self) -> bool {
        &&& all_within(self.parts(), self.parts()[0].file_path)
        &&& self._where.sound()
        &&& self.bounds.sound()
    }

    fn span(&self) -> (s: Span) {
        let parts = [self._where.span(), self.bounds.span()];
        assert(parts@ =~= self.parts());
        merge_spans(parts.as_slice())
    }
}

impl View for DefaultEvent {
    type V = DefaultEvent;

    open spec fn view(&self) -> DefaultEvent {
        *self
    }
}

impl Spanned for DefaultEvent {
    open spec fn parts(&self) -> Seq<Span> {
        seq![span_of(&self.ident)]
    }

    open spec fn sound(&self) -> bool {
        &&& all_within(self.parts(), self.parts()[0].file_path)
        &&& self.ident.sound()
    }

    fn span(&self) -> (s: Span) {
        proof {
            lemma_merge_one(self.parts()[0]);
            assert(self.parts() =~= seq![self.parts()[0]]);
        }
        self.ident.span()
    }
}

impl View for DefaultEvents {
    type V = DefaultEventsView;

    open spec fn view(&self) -> DefaultEventsView {
        DefaultEventsView {
            events: self.events@,
        }
    }
}

impl Spanned for DefaultEvents {
    open spec fn parts(&self) -> Seq<Span> {
        seq![span_of(&self.events)]
    }

    open spec fn sound(&self) -> bool {
        &&& all_within(self.parts(), self.parts()[0].file_path)
        &&& self.events.sound()
    }

    fn span(&self) -> (s: Span) {
        proof {
            lemma_merge_one(self.parts()[0]);
            assert(self.parts() =~= seq![self.parts()[0]]);
        }
        self.events.span()
    }
}

impl View for ExprStmt {
    type V = ExprStmtView;

    open spec fn view(&self) -> ExprStmtView {
        ExprStmtView {
            expr: self.expr@,
        }
    }
}

impl Spanned for ExprStmt {
    open spec fn parts(&self) -> Seq<Span> {
        seq![span_of(&self.expr)]
    }

    open spec fn sound(&self) -> bool {
        &&& all_within(self.parts(), self.parts()[0].file_path)
        &&& self.expr.sound()
    }

    fn span(&self) -> (s: Span) {
        proof {
            lemma_merge_one(self.parts()[0]);
            assert(self.parts() =~= seq![self.parts()[0]]);
        }
        self.expr.span()
    }
}

/// What a block holds.
pub open spec fn block_view(n: Block) -> BlockView
    decreases n,
{
    BlockView {
        open: n.open@,
        stmts: stmt_views(n.stmts@),
        close: n.close@,
    }
}

/// The spans of the statements `nodes`, in their order.
pub open spec fn stmt_spans(nodes: Seq<Stmt>) -> Seq<Span>
    decreases nodes,
{
    Seq::new(
        nodes.len(),
        |i: int|
            if 0 <= i < nodes.len() {
                merge_all(stmt_parts(nodes[i]))
            } else {
                arbitrary()
            },
    )
}

/// The spans of the parts of a block, in the order in which they stand: the
/// opening brace, the statements, the closing brace.
pub open spec fn block_parts(n: Block) -> Seq<Span>
    decreases n,
{
    seq![span_of(&n.open)] + stmt_spans(n.stmts@) + seq![span_of(&n.close)]
}

/// The spans in a block can be merged: each part is sound, and the parts
/// are well formed and lie in one unit.
pub open spec fn block_sound(n: Block) -> bool
    decreases n,
{
    &&& all_within(block_parts(n), block_parts(n)[0].file_path)
    &&& n.open.sound()
    &&& forall|i: int| 0 <= i < n.stmts@.len() ==> stmt_sound(#[trigger] n.stmts@[i])
    &&& n.close.sound()
}

/// The span of a block: the union of the spans of its parts.
pub fn span_of_block(n: &Block) -> (s: Span)
    requires
        block_sound(*n),
    ensures
        s == merge_all(block_parts(*n)),
        s.well_formed(),
        s.file_path == block_parts(*n)[0].file_path,
    decreases n,
{
    let mut parts: Vec<Span> = Vec::new();
    parts.push(n.open.span());
    let mut i: usize = 0;
    while i < n.stmts.len()
        invariant
            block_sound(*n),
            i <= n.stmts@.len(),
            parts@ == seq![span_of(&n.open)] + stmt_spans(n.stmts@).take(i as int),
        decreases n.stmts@.len() - i,
    {
        proof {
            vstd::std_specs::vec::axiom_vec_index_decreases(n.stmts, i as int);
            assert(decreases_to!(*n => n.stmts));
            assert(decreases_to!(n.stmts => n.stmts[i as int]));
        }
        parts.push(span_of_stmt(&n.stmts[i]));
        proof {
            assert(parts@ =~= seq![span_of(&n.open)] + stmt_spans(n.stmts@).take(i as int + 1));
        }
        i += 1;
    }
    parts.push(n.close.span());
    proof {
        assert(stmt_spans(n.stmts@).take(n.stmts@.len() as int) =~= stmt_spans(n.stmts@));
        assert(parts@ =~= block_parts(*n));
    }
    merge_spans(parts.as_slice())
}

/// What the declaration of a listener holds.
pub open spec fn ln_stmt_view(n: LnStmt) -> LnStmtView
    decreases n,
{
    LnStmtView {
        ln: n.ln@,
        ident: n.ident@,
        default_events: n.default_events@,
        args: n.args@,
        where_clause: n.where_clause@,
        block: block_view(n.block),
    }
}

/// The spans of the parts of the declaration of a listener, in the order in which they are declared.
pub open spec fn ln_stmt_parts(n: LnStmt) -> Seq<Span>
    decreases n,
{
    seq![span_of(&n.ln), span_of(&n.ident), span_of(&n.default_events), span_of(&n.args), span_of(&n.where_clause), merge_all(block_parts(n.block))]
}

/// The spans in the declaration of a listener can be merged: each part is sound, and the parts
/// are well formed and lie in one unit.
pub open spec fn ln_stmt_sound(n: LnStmt) -> bool
    decreases n,
{
    &&& all_within(ln_stmt_parts(n), ln_stmt_parts(n)[0].file_path)
    &&& n.ln.sound()
    &&& n.ident.sound()
    &&& n.default_events.sound()
    &&& n.args.sound()
    &&& n.where_clause.sound()
    &&& block_sound(n.block)
}

/// The span of the declaration of a listener: the union of the spans of its parts.
pub fn span_of_ln_stmt(n: &LnStmt) -> (s: Span)
    requires
        ln_stmt_sound(*n),
    ensures
        s == merge_all(ln_stmt_parts(*n)),
        s.well_formed(),
        s.file_path == ln_stmt_parts(*n)[0].file_path,
    decreases n,
{
    let parts = [n.ln.span(), n.ident.span(), n.default_events.span(), n.args.span(), n.where_clause.span(), span_of_block(&n.block)];
    assert(parts@ =~= ln_stmt_parts(*n));
    merge_spans(parts.as_slice())
}

/// What a statement holds.
pub open spec fn stmt_view(n: Stmt) -> StmtView
    decreases n,
{
    match n {
        Stmt::Ln(x) => StmtView::Ln(ln_stmt_view(x)),
        Stmt::AssignNew(x) => StmtView::AssignNew(x@),
        Stmt::Assign(x) => StmtView::Assign(x@),
        Stmt::Expr(x) => StmtView::Expr(x@),
    }
}

/// What the elements of `nodes` hold, in their order.
pub open spec fn stmt_views(nodes: Seq<Stmt>) -> Seq<StmtView>
    decreases nodes,
{
    Seq::new(
        nodes.len(),
        |i: int|
            if 0 <= i < nodes.len() {
                stmt_view(nodes[i])
            } else {
                arbitrary()
            },
    )
}

/// The one part of a statement: the node that it is.
pub open spec fn stmt_parts(n: Stmt) -> Seq<Span>
    decreases n,
{
    match n {
        Stmt::Ln(x) => seq![merge_all(ln_stmt_parts(x))],
        Stmt::AssignNew(x) => seq![span_of(&x)],
        Stmt::Assign(x) => seq![span_of(&x)],
        Stmt::Expr(x) => seq![span_of(&x)],
    }
}

/// The spans in a statement can be merged.
pub open spec fn stmt_sound(n: Stmt) -> bool
    decreases n,
{
    &&& all_within(stmt_parts(n), stmt_parts(n)[0].file_path)
    &&& match n {
        Stmt::Ln(x) => ln_stmt_sound(x),
        Stmt::AssignNew(x) => x.sound(),
        Stmt::Assign(x) => x.sound(),
        Stmt::Expr(x) => x.sound(),
    }
}

/// The span of a statement: that of the node that it is.
pub fn span_of_stmt(n: &Stmt) -> (s: Span)
    requires
        stmt_sound(*n),
    ensures
        s == merge_all(stmt_parts(*n)),
        s.well_formed(),
        s.file_path == stmt_parts(*n)[0].file_path,
    decreases n,
{
    proof {
        lemma_merge_one(stmt_parts(*n)[0]);
        assert(stmt_parts(*n) =~= seq![stmt_parts(*n)[0]]);
    }
    match n {
        Stmt::Ln(x) => span_of_ln_stmt(x),
        Stmt::AssignNew(x) => x.span(),
        Stmt::Assign(x) => x.span(),
        Stmt::Expr(x) => x.span(),
    }
}

impl View for Block {
    type V = BlockView;

    open spec fn view(&self) -> BlockView {
        block_view(*self)
    }
}

impl Spanned for Block {
    open spec fn parts(&self) -> Seq<Span> {
        block_parts(*self)
    }

    open spec fn sound(&self) -> bool {
        block_sound(*self)
    }

    fn span(&self) -> (s: Span) {
        span_of_block(self)
    }
}

impl View for LnStmt {
    type V = LnStmtView;

    open spec fn view(&self) -> LnStmtView {
        ln_stmt_view(*self)
    }
}

impl Spanned for LnStmt {
    open spec fn parts(&self) -> Seq<Span> {
        ln_stmt_parts(*self)
    }

    open spec fn sound(&self) -> bool {
        ln_stmt_sound(*self)
    }

    fn span(&self) -> (s: Span) {
        span_of_ln_stmt(self)
    }
}

impl View for Stmt {
    type V = StmtView;

    open spec fn view(&self) -> StmtView {
        stmt_view(*self)
    }
}

impl Spanned for Stmt {
    open spec fn parts(&self) -> Seq<Span> {
        stmt_parts(*self)
    }

    open spec fn sound(&self) -> bool {
        stmt_sound(*self)
    }

    fn span(&self) -> (s: Span) {
        span_of_stmt(self)
    }
}

} // verus!
