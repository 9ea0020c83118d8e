//! The spans of nodes, told from what the nodes hold.

use crate::ast::expr::{
    bin_op_expr_parts, bin_op_expr_view, call_expr_parts, call_expr_view, expr_parts, expr_view,
    member_expr_parts, member_expr_view, paren_expr_parts, paren_expr_view, BinOp, Expr, ExprView,
    LiteralExpr,
};
use crate::ast::stmt::{DefaultEvent, ListenerArgument};
use crate::ast::ty::Type;
use crate::span::{merge_all, span_of, Located, Span, Spanned};
use vstd::prelude::*;

verus! {

/// The one part of an expression that holds `v`: the node that it is.
pub open spec fn expr_view_parts(v: ExprView) -> Seq<Span>
    decreases v,
{
    match v {
        ExprView::Paren(p) => seq![
            merge_all(
                seq![span_of(&p.open), merge_all(expr_view_parts(*p.expr)), span_of(&p.close)],
            ),
        ],
        ExprView::Literal(l) => seq![span_of(&l)],
        ExprView::Variable(i) => seq![span_of(&i)],
        ExprView::Member(m) => seq![
            merge_all(
                seq![merge_all(expr_view_parts(*m.expr)), span_of(&m.period), span_of(&m.ident)],
            ),
        ],
        ExprView::Call(c) => seq![merge_all(seq![merge_all(expr_view_parts(*c.expr)), c.args.span])],
        ExprView::BinOp(b) => seq![
            merge_all(
                seq![
                    merge_all(expr_view_parts(*b.lhs)),
                    span_of(&b.op),
                    merge_all(expr_view_parts(*b.rhs)),
                ],
            ),
        ],
    }
}

/// The span of an expression that holds `v`.
pub open spec fn expr_view_span(v: ExprView) -> Span {
    merge_all(expr_view_parts(v))
}

/// The parts of an expression are those told from what it holds.
pub proof fn lemma_expr_view_parts(e: Expr)
    ensures
        expr_view_parts(expr_view(e)) == expr_parts(e),
    decreases e,
{
    match e {
        Expr::Paren(p) => {
            lemma_expr_view_parts(*p.expr);
            assert(p.open@ == p.open);
            assert(p.close@ == p.close);
            assert(expr_view(e) == ExprView::Paren(paren_expr_view(p)));
            assert(expr_parts(e) =~= seq![merge_all(paren_expr_parts(p))]);
            assert(paren_expr_parts(p) =~= seq![
                span_of(&p.open),
                merge_all(expr_parts(*p.expr)),
                span_of(&p.close),
            ]);
        },
        Expr::Literal(l) => {
            assert(l@ == l);
        },
        Expr::Variable(i) => {
            assert(i@ == i);
        },
        Expr::Member(m) => {
            lemma_expr_view_parts(*m.expr);
            assert(m.period@ == m.period);
            assert(m.ident@ == m.ident);
            assert(expr_view(e) == ExprView::Member(member_expr_view(m)));
            assert(expr_parts(e) =~= seq![merge_all(member_expr_parts(m))]);
            assert(member_expr_parts(m) =~= seq![
                merge_all(expr_parts(*m.expr)),
                span_of(&m.period),
                span_of(&m.ident),
            ]);
        },
        Expr::Call(c) => {
            lemma_expr_view_parts(*c.expr);
            assert(expr_view(e) == ExprView::Call(call_expr_view(c)));
            assert(expr_parts(e) =~= seq![merge_all(call_expr_parts(c))]);
            assert(call_expr_parts(c) =~= seq![merge_all(expr_parts(*c.expr)), c.args.span]);
        },
        Expr::BinOp(b) => {
            lemma_expr_view_parts(*b.lhs);
            lemma_expr_view_parts(*b.rhs);
            assert(b.op@ == b.op);
            assert(expr_view(e) == ExprView::BinOp(bin_op_expr_view(b)));
            assert(expr_parts(e) =~= seq![merge_all(bin_op_expr_parts(b))]);
            assert(bin_op_expr_parts(b) =~= seq![
                merge_all(expr_parts(*b.lhs)),
                span_of(&b.op),
                merge_all(expr_parts(*b.rhs)),
            ]);
        },
    }
}

impl Located for Expr {
    open spec fn span_in(v: ExprView) -> Span {
        expr_view_span(v)
    }

    proof fn lemma_span_in(&self) {
        lemma_expr_view_parts(*self);
        assert(self@ == expr_view(*self));
        assert(self.parts() == expr_parts(*self));
    }
}

impl Located for LiteralExpr {
    open spec fn span_in(v: LiteralExpr) -> Span {
        span_of(&v)
    }

    proof fn lemma_span_in(&self) {
        assert(self@ == *self);
    }
}

impl Located for BinOp {
    open spec fn span_in(v: BinOp) -> Span {
        span_of(&v)
    }

    proof fn lemma_span_in(&self) {
        assert(self@ == *self);
    }
}

impl Located for Type {
    open spec fn span_in(v: Type) -> Span {
        span_of(&v)
    }

    proof fn lemma_span_in(&self) {
        assert(self@ == *self);
    }
}

impl Located for DefaultEvent {
    open spec fn span_in(v: DefaultEvent) -> Span {
        span_of(&v)
    }

    proof fn lemma_span_in(&self) {
        assert(self@ == *self);
    }
}

impl Located for ListenerArgument {
    open spec fn span_in(v: ListenerArgument) -> Span {
        span_of(&v)
    }

    proof fn lemma_span_in(&self) {
        assert(self@ == *self);
    }
}

} // verus!
