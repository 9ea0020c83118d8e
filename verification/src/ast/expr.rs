//! Expressions.

use crate::ast::punctuated::{Punctuated, PunctuatedView};
use crate::span::{all_within, lemma_merge_one, merge_all, merge_spans, span_of, Span, Spanned};
use crate::token_types::{
    Asterisk, CloseParen, Comma, EqualEqual, Ident, LitFloat, LitInt, LitStr, Minus, OpenParen,
    Period, Plus, Slash,
};
use vstd::prelude::*;

verus! {

/// An expression in parentheses.
#[derive(Debug)]
pub struct ParenExpr {
    pub open: OpenParen,
    pub expr: Box<Expr>,
    pub close: CloseParen,
}

/// A literal.
#[derive(Clone, Copy, Debug, PartialEq, Eq, Structural)]
pub enum LiteralExpr {
    Integer(LitInt),
    Float(LitFloat),
    String(LitStr),
}

/// A member of a value: `expr.ident`.
#[derive(Debug)]
pub struct MemberExpr {
    pub expr: Box<Expr>,
    pub period: Period,
    pub ident: Ident,
}

/// A call: the callee and, without parentheses, its arguments.
#[derive(Debug)]
pub struct CallExpr {
    pub expr: Box<Expr>,
    pub args: Punctuated<Expr, Comma>,
}

/// A binary operator, with the token that spells it.
#[derive(Clone, Copy, Debug, PartialEq, Eq, Structural)]
pub enum BinOp {
    Add(Plus),
    Sub(Minus),
    Mul(Asterisk),
    Div(Slash),
    Eq(EqualEqual),
}

/// Two operands and the operator between them.
#[derive(Debug)]
pub struct BinOpExpr {
    pub lhs: Box<Expr>,
    pub op: BinOp,
    pub rhs: Box<Expr>,
}

/// An expression.
#[derive(Debug)]
pub enum Expr {
    Paren(ParenExpr),
    Literal(LiteralExpr),
    Variable(Ident),
    Member(MemberExpr),
    Call(CallExpr),
    BinOp(BinOpExpr),
}

/// What an expression in parentheses holds.
pub struct ParenExprView {
    pub open: OpenParen,
    pub expr: Box<ExprView>,
    pub close: CloseParen,
}

/// What a member expression holds.
pub struct MemberExprView {
    pub expr: Box<ExprView>,
    pub period: Period,
    pub ident: Ident,
}

/// What a call holds.
pub struct CallExprView {
    pub expr: Box<ExprView>,
    pub args: PunctuatedView<ExprView, Comma>,
}

/// What a binary expression holds.
pub struct BinOpExprView {
    pub lhs: Box<ExprView>,
    pub op: BinOp,
    pub rhs: Box<ExprView>,
}

/// What an expression holds.
pub enum ExprView {
    Paren(ParenExprView),
    Literal(LiteralExpr),
    Variable(Ident),
    Member(MemberExprView),
    Call(CallExprView),
    BinOp(BinOpExprView),
}

impl BinOp {
    /// How tightly the operator binds, as a specification.
    pub open spec fn precedence_spec(&self) -> u32 {
        match self {
            BinOp::Mul(_) | BinOp::Div(_) => 12,
            BinOp::Add(_) | BinOp::Sub(_) => 11,
            BinOp::Eq(_) => 8,
        }
    }

    /// How tightly the operator binds: the greater number binds tighter.
    #[verifier::when_used_as_spec(precedence_spec)]
    pub fn precedence(&self) -> (p: u32)
        ensures
            p == self.precedence_spec(),
    {
        match self {
            BinOp::Mul(_) | BinOp::Div(_) => 12,
            BinOp::Add(_) | BinOp::Sub(_) => 11,
            BinOp::Eq(_) => 8,
        }
    }
}

impl View for LiteralExpr {
    type V = LiteralExpr;

    open spec fn view(&self) -> LiteralExpr {
        *self
    }
}

impl Spanned for LiteralExpr {
    open spec fn parts(&self) -> Seq<Span> {
        match self {
            LiteralExpr::Integer(x) => seq![span_of(x)],
            LiteralExpr::Float(x) => seq![span_of(x)],
            LiteralExpr::String(x) => seq![span_of(x)],
        }
    }

    open spec fn sound(&self) -> bool {
        &&& self.parts()[0].well_formed()
        &&& match self {
            LiteralExpr::Integer(x) => x.sound(),
            LiteralExpr::Float(x) => x.sound(),
            LiteralExpr::String(x) => x.sound(),
        }
    }

    fn span(&self) -> (s: Span) {
        proof {
            lemma_merge_one(self.parts()[0]);
            assert(self.parts() =~= seq![self.parts()[0]]);
        }
        match self {
            LiteralExpr::Integer(x) => x.span(),
            LiteralExpr::Float(x) => x.span(),
            LiteralExpr::String(x) => x.span(),
        }
    }
}

impl View for BinOp {
    type V = BinOp;

    open spec fn view(&self) -> BinOp {
        *self
    }
}

impl Spanned for BinOp {
    open spec fn parts(&self) -> Seq<Span> {
        match self {
            BinOp::Add(x) => seq![span_of(x)],
            BinOp::Sub(x) => seq![span_of(x)],
            BinOp::Mul(x) => seq![span_of(x)],
            BinOp::Div(x) => seq![span_of(x)],
            BinOp::Eq(x) => seq![span_of(x)],
        }
    }

    open spec fn sound(&self) -> bool {
        &&& self.parts()[0].well_formed()
        &&& match self {
            BinOp::Add(x) => x.sound(),
            BinOp::Sub(x) => x.sound(),
            BinOp::Mul(x) => x.sound(),
            BinOp::Div(x) => x.sound(),
            BinOp::Eq(x) => x.sound(),
        }
    }

    fn span(&self) -> (s: Span) {
        proof {
            lemma_merge_one(self.parts()[0]);
            assert(self.parts() =~= seq![self.parts()[0]]);
        }
        match self {
            BinOp::Add(x) => x.span(),
            BinOp::Sub(x) => x.span(),
            BinOp::Mul(x) => x.span(),
            BinOp::Div(x) => x.span(),
            BinOp::Eq(x) => x.span(),
        }
    }
}

/// What an expression in parentheses holds.
pub open spec fn paren_expr_view(n: ParenExpr) -> ParenExprView
    decreases n,
{
    ParenExprView {
        open: n.open@,
        expr: Box::new(expr_view(*n.expr)),
        close: n.close@,
    }
}

/// The spans of the parts of an expression in parentheses, in the order in which they are declared.
pub open spec fn paren_expr_parts(n: ParenExpr) -> Seq<Span>
    decreases n,
{
    seq![span_of(&n.open), merge_all(expr_parts(*n.expr)), span_of(&n.close)]
}

/// The spans in an expression in parentheses can be merged: each part is sound, and the parts
/// are well formed and lie in one unit.
pub open spec fn paren_expr_sound(n: ParenExpr) -> bool
    decreases n,
{
    &&& all_within(paren_expr_parts(n), paren_expr_parts(n)[0].file_path)
    &&& n.open.sound()
    &&& expr_sound(*n.expr)
    &&& n.close.sound()
}

/// The span of an expression in parentheses: the union of the spans of its parts.
pub fn span_of_paren_expr(n: &ParenExpr) -> (s: Span)
    requires
        paren_expr_sound(*n),
    ensures
        s == merge_all(paren_expr_parts(*n)),
        s.well_formed(),
        s.file_path == paren_expr_parts(*n)[0].file_path,
    decreases n,
{
    let parts = [n.open.span(), span_of_expr(&n.expr), n.close.span()];
    assert(parts@ =~= paren_expr_parts(*n));
    merge_spans(parts.as_slice())
}

/// What a member expression holds.
pub open spec fn member_expr_view(n: MemberExpr) -> MemberExprView
    decreases n,
{
    MemberExprView {
        expr: Box::new(expr_view(*n.expr)),
        period: n.period@,
        ident: n.ident@,
    }
}

/// The spans of the parts of a member expression, in the order in which they are declared.
pub open spec fn member_expr_parts(n: MemberExpr) -> Seq<Span>
    decreases n,
{
    seq![merge_all(expr_parts(*n.expr)), span_of(&n.period), span_of(&n.ident)]
}

/// The spans in a member expression can be merged: each part is sound, and the parts
/// are well formed and lie in one unit.
pub open spec fn member_expr_sound(n: MemberExpr) -> bool
    decreases n,
{
    &&& all_within(member_expr_parts(n), member_expr_parts(n)[0].file_path)
    &&& expr_sound(*n.expr)
    &&& n.period.sound()
    &&& n.ident.sound()
}

/// The span of a member expression: the union of the spans of its parts.
pub fn span_of_member_expr(n: &MemberExpr) -> (s: Span)
    requires
        member_expr_sound(*n),
    ensures
        s == merge_all(member_expr_parts(*n)),
        s.well_formed(),
        s.file_path == member_expr_parts(*n)[0].file_path,
    decreases n,
{
    let parts = [span_of_expr(&n.expr), n.period.span(), n.ident.span()];
    assert(parts@ =~= member_expr_parts(*n));
    merge_spans(parts.as_slice())
}

/// What a call holds.
pub open spec fn call_expr_view(n: CallExpr) -> CallExprView
    decreases n,
{
    CallExprView {
        expr: Box::new(expr_view(*n.expr)),
        args: PunctuatedView { items: expr_views(n.args.items@), punct: n.args.punct@, span: n.args.span },
    }
}

/// The spans of the parts of a call, in the order in which they are declared.
pub open spec fn call_expr_parts(n: CallExpr) -> Seq<Span>
    decreases n,
{
    seq![merge_all(expr_parts(*n.expr)), n.args.span]
}

/// The spans in a call can be merged: each part is sound, and the parts
/// are well formed and lie in one unit.
pub open spec fn call_expr_sound(n: CallExpr) -> bool
    decreases n,
{
    &&& all_within(call_expr_parts(n), call_expr_parts(n)[0].file_path)
    &&& expr_sound(*n.expr)
    &&& forall|i: int| 0 <= i < n.args.items@.len() ==> expr_sound(#[trigger] n.args.items@[i])
    &&& forall|i: int| 0 <= i < n.args.punct@.len() ==> (#[trigger] n.args.punct@[i]).sound()
}

/// The span of a call: the union of the spans of its parts.
pub fn span_of_call_expr(n: &CallExpr) -> (s: Span)
    requires
        call_expr_sound(*n),
    ensures
        s == merge_all(call_expr_parts(*n)),
        s.well_formed(),
        s.file_path == call_expr_parts(*n)[0].file_path,
    decreases n,
{
    let parts = [span_of_expr(&n.expr), n.args.span];
    assert(parts@ =~= call_expr_parts(*n));
    merge_spans(parts.as_slice())
}

/// What a binary expression holds.
pub open spec fn bin_op_expr_view(n: BinOpExpr) -> BinOpExprView
    decreases n,
{
    BinOpExprView {
        lhs: Box::new(expr_view(*n.lhs)),
        op: n.op@,
        rhs: Box::new(expr_view(*n.rhs)),
    }
}

/// The spans of the parts of a binary expression, in the order in which they are declared.
pub open spec fn bin_op_expr_parts(n: BinOpExpr) -> Seq<Span>
    decreases n,
{
    seq![merge_all(expr_parts(*n.lhs)), span_of(&n.op), merge_all(expr_parts(*n.rhs))]
}

/// The spans in a binary expression can be merged: each part is sound, and the parts
/// are well formed and lie in one unit.
pub open spec fn bin_op_expr_sound(n: BinOpExpr) -> bool
    decreases n,
{
    &&& all_within(bin_op_expr_parts(n), bin_op_expr_parts(n)[0].file_path)
    &&& expr_sound(*n.lhs)
    &&& n.op.sound()
    &&& expr_sound(*n.rhs)
}

/// The span of a binary expression: the union of the spans of its parts.
pub fn span_of_bin_op_expr(n: &BinOpExpr) -> (s: Span)
    requires
        bin_op_expr_sound(*n),
    ensures
        s == merge_all(bin_op_expr_parts(*n)),
        s.well_formed(),
        s.file_path == bin_op_expr_parts(*n)[0].file_path,
    decreases n,
{
    let parts = [span_of_expr(&n.lhs), n.op.span(), span_of_expr(&n.rhs)];
    assert(parts@ =~= bin_op_expr_parts(*n));
    merge_spans(parts.as_slice())
}

/// What an expression holds.
pub open spec fn expr_view(n: Expr) -> ExprView
    decreases n,
{
    match n {
        Expr::Paren(x) => ExprView::Paren(paren_expr_view(x)),
        Expr::Literal(x) => ExprView::Literal(x@),
        Expr::Variable(x) => ExprView::Variable(x@),
        Expr::Member(x) => ExprView::Member(member_expr_view(x)),
        Expr::Call(x) => ExprView::Call(call_expr_view(x)),
        Expr::BinOp(x) => ExprView::BinOp(bin_op_expr_view(x)),
    }
}

/// What the elements of `nodes` hold, in their order.
pub open spec fn expr_views(nodes: Seq<Expr>) -> Seq<ExprView>
    decreases nodes,
{
    Seq::new(
        nodes.len(),
        |i: int|
            if 0 <= i < nodes.len() {
                expr_view(nodes[i])
            } else {
                arbitrary()
            },
    )
}

/// The one part of an expression: the node that it is.
pub open spec fn expr_parts(n: Expr) -> Seq<Span>
    decreases n,
{
    match n {
        Expr::Paren(x) => seq![merge_all(paren_expr_parts(x))],
        Expr::Literal(x) => seq![span_of(&x)],
        Expr::Variable(x) => seq![span_of(&x)],
        Expr::Member(x) => seq![merge_all(member_expr_parts(x))],
        Expr::Call(x) => seq![merge_all(call_expr_parts(x))],
        Expr::BinOp(x) => seq![merge_all(bin_op_expr_parts(x))],
    }
}

/// The spans in an expression can be merged.
pub open spec fn expr_sound(n: Expr) -> bool
    decreases n,
{
    &&& all_within(expr_parts(n), expr_parts(n)[0].file_path)
    &&& match n {
        Expr::Paren(x) => paren_expr_sound(x),
        Expr::Literal(x) => x.sound(),
        Expr::Variable(x) => x.sound(),
        Expr::Member(x) => member_expr_sound(x),
        Expr::Call(x) => call_expr_sound(x),
        Expr::BinOp(x) => bin_op_expr_sound(x),
    }
}

/// The span of an expression: that of the node that it is.
pub fn span_of_expr(n: &Expr) -> (s: Span)
    requires
        expr_sound(*n),
    ensures
        s == merge_all(expr_parts(*n)),
        s.well_formed(),
        s.file_path == expr_parts(*n)[0].file_path,
    decreases n,
{
    proof {
        lemma_merge_one(expr_parts(*n)[0]);
        assert(expr_parts(*n) =~= seq![expr_parts(*n)[0]]);
    }
    match n {
        Expr::Paren(x) => span_of_paren_expr(x),
        Expr::Literal(x) => x.span(),
        Expr::Variable(x) => x.span(),
        Expr::Member(x) => span_of_member_expr(x),
        Expr::Call(x) => span_of_call_expr(x),
        Expr::BinOp(x) => span_of_bin_op_expr(x),
    }
}

impl View for ParenExpr {
    type V = ParenExprView;

    open spec fn view(&self) -> ParenExprView {
        paren_expr_view(*self)
    }
}

impl Spanned for ParenExpr {
    open spec fn parts(&self) -> Seq<Span> {
        paren_expr_parts(*self)
    }

    open spec fn sound(&self) -> bool {
        paren_expr_sound(*self)
    }

    fn span(&self) -> (s: Span) {
        span_of_paren_expr(self)
    }
}

impl View for MemberExpr {
    type V = MemberExprView;

    open spec fn view(&self) -> MemberExprView {
        member_expr_view(*self)
    }
}

impl Spanned for MemberExpr {
    open spec fn parts(&self) -> Seq<Span> {
        member_expr_parts(*self)
    }

    open spec fn sound(&self) -> bool {
        member_expr_sound(*self)
    }

    fn span(&self) -> (s: Span) {
        span_of_member_expr(self)
    }
}

impl View for CallExpr {
    type V = CallExprView;

    open spec fn view(&self) -> CallExprView {
        call_expr_view(*self)
    }
}

impl Spanned for CallExpr {
    open spec fn parts(&self) -> Seq<Span> {
        call_expr_parts(*self)
    }

    open spec fn sound(&self) -> bool {
        call_expr_sound(*self)
    }

    fn span(&self) -> (s: Span) {
        span_of_call_expr(self)
    }
}

impl View for BinOpExpr {
    type V = BinOpExprView;

    open spec fn view(&self) -> BinOpExprView {
        bin_op_expr_view(*self)
    }
}

impl Spanned for BinOpExpr {
    open spec fn parts(&self) -> Seq<Span> {
        bin_op_expr_parts(*self)
    }

    open spec fn sound(&self) -> bool {
        bin_op_expr_sound(*self)
    }

    fn span(&self) -> (s: Span) {
        span_of_bin_op_expr(self)
    }
}

impl View for Expr {
    type V = ExprView;

    open spec fn view(&self) -> ExprView {
        expr_view(*self)
    }
}

impl Spanned for Expr {
    open spec fn parts(&self) -> Seq<Span> {
        expr_parts(*self)
    }

    open spec fn sound(&self) -> bool {
        expr_sound(*self)
    }

    fn span(&self) -> (s: Span) {
        span_of_expr(self)
    }
}

} // verus!
