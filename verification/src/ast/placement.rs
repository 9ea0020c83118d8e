//! Nodes made of parts that have their place in a unit have their place in
//! it too, and hold what their parts hold.

use crate::ast::expr::{
    bin_op_expr_parts, bin_op_expr_sound, call_expr_parts, expr_parts, expr_sound, expr_view,
    expr_views, member_expr_parts, paren_expr_parts, paren_expr_sound, paren_expr_view, BinOp,
    BinOpExpr, BinOpExprView, CallExpr, CallExprView, Expr, ExprView, LiteralExpr, MemberExpr,
    MemberExprView, ParenExpr, ParenExprView,
};
use crate::ast::punctuated::{Punctuated, PunctuatedView};
use crate::ast::stmt::{
    block_parts, block_sound, block_view, ln_stmt_parts, ln_stmt_sound, ln_stmt_view, stmt_parts,
    stmt_sound, stmt_spans, stmt_view, stmt_views, AssignNewStmt, AssignStmt, Block, BlockView, DefaultEvents,
    ExprStmt, ListenerArguments, LnStmt, LnStmtView, Stmt, StmtView, WhereClause,
};
use crate::spanned_option::SpannedOption;
use crate::token_types::{CloseBrace, Ln, OpenBrace};
use crate::parse::placed;
use crate::span::{
    lemma_merge_one, lemma_parts_within, merge_all, merge_all_covers, span_of, Spanned,
};
use crate::string_allocator::PathRef;
use crate::token_types::{CloseParen, Comma, Ident, OpenParen, Period};
use vstd::prelude::*;

verus! {

/// The span of a placed expression, by its parts.
pub proof fn lemma_expr_placed(e: Expr, file: PathRef)
    requires
        placed(&e, file),
    ensures
        expr_sound(e),
        merge_all(expr_parts(e)).well_formed(),
        merge_all(expr_parts(e)).file_path == Some(file),
        e@ == expr_view(e),
{
    assert(e.parts() == expr_parts(e));
    assert(e.sound() == expr_sound(e));
}

/// An expression whose parts are sound and lie in `file` is placed there.
pub proof fn lemma_expr_is_placed(e: Expr, file: PathRef)
    requires
        expr_sound(e),
        merge_all(expr_parts(e)).well_formed(),
        merge_all(expr_parts(e)).file_path == Some(file),
    ensures
        placed(&e, file),
{
    assert(e.parts() == expr_parts(e));
    assert(e.sound() == expr_sound(e));
}

/// A variable is placed where its identifier is.
pub proof fn lemma_variable_placed(ident: Ident, file: PathRef)
    requires
        placed(&ident, file),
    ensures
        placed(&Expr::Variable(ident), file),
        expr_view(Expr::Variable(ident)) == ExprView::Variable(ident),
{
    let e = Expr::Variable(ident);
    assert(expr_parts(e) =~= seq![span_of(&ident)]);
    lemma_parts_within(expr_parts(e), Some(file));
    lemma_expr_is_placed(e, file);
    assert(ident@ == ident);
}

/// A literal expression is placed where its literal is.
pub proof fn lemma_literal_placed(literal: LiteralExpr, file: PathRef)
    requires
        placed(&literal, file),
    ensures
        placed(&Expr::Literal(literal), file),
        expr_view(Expr::Literal(literal)) == ExprView::Literal(literal),
{
    let e = Expr::Literal(literal);
    assert(expr_parts(e) =~= seq![span_of(&literal)]);
    lemma_parts_within(expr_parts(e), Some(file));
    lemma_expr_is_placed(e, file);
    assert(literal@ == literal);
}

/// An expression in parentheses is placed where its parts are.
pub proof fn lemma_paren_placed(open: OpenParen, inner: Expr, close: CloseParen, file: PathRef)
    requires
        placed(&open, file),
        placed(&inner, file),
        placed(&close, file),
    ensures
        ({
            let p = ParenExpr { open, expr: Box::new(inner), close };
            &&& placed(&p, file)
            &&& p@ == (ParenExprView { open, expr: Box::new(inner@), close })
            &&& placed(&Expr::Paren(p), file)
            &&& expr_view(Expr::Paren(p)) == ExprView::Paren(p@)
        }),
{
    let p = ParenExpr { open, expr: Box::new(inner), close };
    lemma_expr_placed(inner, file);
    assert(paren_expr_parts(p) =~= seq![span_of(&open), merge_all(expr_parts(inner)), span_of(&close)]);
    lemma_parts_within(paren_expr_parts(p), Some(file));
    assert(p.parts() == paren_expr_parts(p));
    assert(p.sound() == paren_expr_sound(p));
    assert(p@ == paren_expr_view(p));
    assert(open@ == open);
    assert(close@ == close);
    let e = Expr::Paren(p);
    assert(expr_parts(e) =~= seq![merge_all(paren_expr_parts(p))]);
    lemma_parts_within(expr_parts(e), Some(file));
    lemma_expr_is_placed(e, file);
}

/// A member expression is placed where its parts are.
pub proof fn lemma_member_placed(base: Expr, period: Period, ident: Ident, file: PathRef)
    requires
        placed(&base, file),
        placed(&period, file),
        placed(&ident, file),
    ensures
        ({
            let e = Expr::Member(MemberExpr { expr: Box::new(base), period, ident });
            &&& placed(&e, file)
            &&& expr_view(e) == ExprView::Member(
                MemberExprView { expr: Box::new(base@), period, ident },
            )
        }),
{
    let m = MemberExpr { expr: Box::new(base), period, ident };
    lemma_expr_placed(base, file);
    assert(member_expr_parts(m) =~= seq![
        merge_all(expr_parts(base)),
        span_of(&period),
        span_of(&ident),
    ]);
    lemma_parts_within(member_expr_parts(m), Some(file));
    assert(period@ == period);
    assert(ident@ == ident);
    let e = Expr::Member(m);
    assert(expr_parts(e) =~= seq![merge_all(member_expr_parts(m))]);
    lemma_parts_within(expr_parts(e), Some(file));
    lemma_expr_is_placed(e, file);
}

/// The arguments of a call have their place in `file`: the list, each
/// argument and each comma.
pub open spec fn arguments_placed(args: &Punctuated<Expr, Comma>, file: PathRef) -> bool {
    &&& args.span.well_formed()
    &&& args.span.file_path == Some(file)
    &&& forall|i: int| 0 <= i < args.items@.len() ==> placed(&#[trigger] args.items@[i], file)
    &&& forall|i: int| 0 <= i < args.punct@.len() ==> placed(&#[trigger] args.punct@[i], file)
}

/// What the arguments of a call hold.
pub open spec fn arguments_view(args: &Punctuated<Expr, Comma>) -> PunctuatedView<ExprView, Comma> {
    PunctuatedView { items: expr_views(args.items@), punct: args.punct@, span: args.span }
}

/// A call is placed where its callee and its arguments are.
pub proof fn lemma_call_placed(callee: Expr, args: Punctuated<Expr, Comma>, file: PathRef)
    requires
        placed(&callee, file),
        arguments_placed(&args, file),
    ensures
        ({
            let e = Expr::Call(CallExpr { expr: Box::new(callee), args });
            &&& placed(&e, file)
            &&& expr_view(e) == ExprView::Call(
                CallExprView { expr: Box::new(callee@), args: arguments_view(&args) },
            )
        }),
{
    let c = CallExpr { expr: Box::new(callee), args };
    lemma_expr_placed(callee, file);
    assert(call_expr_parts(c) =~= seq![merge_all(expr_parts(callee)), args.span]);
    lemma_parts_within(call_expr_parts(c), Some(file));
    assert forall|i: int| 0 <= i < args.items@.len() implies expr_sound(
        #[trigger] args.items@[i],
    ) by {
        lemma_expr_placed(args.items@[i], file);
    }
    let e = Expr::Call(c);
    assert(expr_parts(e) =~= seq![merge_all(call_expr_parts(c))]);
    lemma_parts_within(expr_parts(e), Some(file));
    lemma_expr_is_placed(e, file);
}

/// A binary expression is placed where its operands and its operator are.
pub proof fn lemma_binop_placed(lhs: Expr, op: BinOp, rhs: Expr, file: PathRef)
    requires
        placed(&lhs, file),
        placed(&op, file),
        placed(&rhs, file),
    ensures
        ({
            let e = Expr::BinOp(BinOpExpr { lhs: Box::new(lhs), op, rhs: Box::new(rhs) });
            &&& placed(&e, file)
            &&& expr_view(e) == ExprView::BinOp(
                BinOpExprView { lhs: Box::new(lhs@), op, rhs: Box::new(rhs@) },
            )
        }),
{
    let b = BinOpExpr { lhs: Box::new(lhs), op, rhs: Box::new(rhs) };
    lemma_expr_placed(lhs, file);
    lemma_expr_placed(rhs, file);
    assert(bin_op_expr_parts(b) =~= seq![
        merge_all(expr_parts(lhs)),
        span_of(&op),
        merge_all(expr_parts(rhs)),
    ]);
    lemma_parts_within(bin_op_expr_parts(b), Some(file));
    assert(op@ == op);
    let e = Expr::BinOp(b);
    assert(expr_parts(e) =~= seq![merge_all(bin_op_expr_parts(b))]);
    lemma_parts_within(expr_parts(e), Some(file));
    lemma_expr_is_placed(e, file);
}

/// The operands and the operator of a placed binary expression are placed.
pub proof fn lemma_binop_operands(b: BinOpExpr, file: PathRef)
    requires
        placed(&Expr::BinOp(b), file),
    ensures
        placed(&*b.lhs, file),
        placed(&b.op, file),
        placed(&*b.rhs, file),
        expr_view(Expr::BinOp(b)) == ExprView::BinOp(
            BinOpExprView { lhs: Box::new((*b.lhs)@), op: b.op, rhs: Box::new((*b.rhs)@) },
        ),
{
    let e = Expr::BinOp(b);
    lemma_expr_placed(e, file);
    assert(expr_parts(e) =~= seq![merge_all(bin_op_expr_parts(b))]);
    lemma_merge_one(merge_all(bin_op_expr_parts(b)));
    let parts = bin_op_expr_parts(b);
    assert(parts =~= seq![
        merge_all(expr_parts(*b.lhs)),
        span_of(&b.op),
        merge_all(expr_parts(*b.rhs)),
    ]);
    assert(bin_op_expr_sound(b));
    merge_all_covers(parts);
    assert(parts[0].file_path == Some(file));
    assert(parts[1].file_path == Some(file));
    assert(parts[2].file_path == Some(file));
    lemma_expr_is_placed(*b.lhs, file);
    lemma_expr_is_placed(*b.rhs, file);
    assert(b.op@ == b.op);
    assert((*b.lhs)@ == expr_view(*b.lhs));
    assert((*b.rhs)@ == expr_view(*b.rhs));
}

/// The span of a placed statement, by its parts.
pub proof fn lemma_stmt_placed(x: Stmt, file: PathRef)
    requires
        placed(&x, file),
    ensures
        stmt_sound(x),
        merge_all(stmt_parts(x)).well_formed(),
        merge_all(stmt_parts(x)).file_path == Some(file),
        x@ == stmt_view(x),
{
    assert(x.parts() == stmt_parts(x));
    assert(x.sound() == stmt_sound(x));
}

/// A statement whose parts are sound and lie in `file` is placed there.
pub proof fn lemma_stmt_is_placed(x: Stmt, file: PathRef)
    requires
        stmt_sound(x),
        merge_all(stmt_parts(x)).well_formed(),
        merge_all(stmt_parts(x)).file_path == Some(file),
    ensures
        placed(&x, file),
        x@ == stmt_view(x),
{
    assert(x.parts() == stmt_parts(x));
    assert(x.sound() == stmt_sound(x));
}

/// A first assignment is a statement placed where it is.
pub proof fn lemma_stmt_assign_new(a: AssignNewStmt, file: PathRef)
    requires
        placed(&a, file),
    ensures
        placed(&Stmt::AssignNew(a), file),
        Stmt::AssignNew(a)@ == StmtView::AssignNew(a@),
{
    let x = Stmt::AssignNew(a);
    assert(stmt_parts(x) =~= seq![span_of(&a)]);
    lemma_parts_within(stmt_parts(x), Some(file));
    lemma_stmt_is_placed(x, file);
}

/// An assignment is a statement placed where it is.
pub proof fn lemma_stmt_assign(a: AssignStmt, file: PathRef)
    requires
        placed(&a, file),
    ensures
        placed(&Stmt::Assign(a), file),
        Stmt::Assign(a)@ == StmtView::Assign(a@),
{
    let x = Stmt::Assign(a);
    assert(stmt_parts(x) =~= seq![span_of(&a)]);
    lemma_parts_within(stmt_parts(x), Some(file));
    lemma_stmt_is_placed(x, file);
}

/// An expression statement is a statement placed where it is.
pub proof fn lemma_stmt_expr(e: ExprStmt, file: PathRef)
    requires
        placed(&e, file),
    ensures
        placed(&Stmt::Expr(e), file),
        Stmt::Expr(e)@ == StmtView::Expr(e@),
{
    let x = Stmt::Expr(e);
    assert(stmt_parts(x) =~= seq![span_of(&e)]);
    lemma_parts_within(stmt_parts(x), Some(file));
    lemma_stmt_is_placed(x, file);
}

/// The declaration of a listener is a statement placed where it is.
pub proof fn lemma_stmt_ln(l: LnStmt, file: PathRef)
    requires
        placed(&l, file),
    ensures
        placed(&Stmt::Ln(l), file),
        Stmt::Ln(l)@ == StmtView::Ln(l@),
{
    let x = Stmt::Ln(l);
    assert(l.parts() == ln_stmt_parts(l));
    assert(l.sound() == ln_stmt_sound(l));
    assert(l@ == ln_stmt_view(l));
    assert(stmt_parts(x) =~= seq![merge_all(ln_stmt_parts(l))]);
    lemma_parts_within(stmt_parts(x), Some(file));
    lemma_stmt_is_placed(x, file);
}

/// A block is placed where its braces are, if its statements are placed.
pub proof fn lemma_block_placed(open: OpenBrace, stmts: Vec<Stmt>, close: CloseBrace, file: PathRef)
    requires
        placed(&open, file),
        placed(&close, file),
        forall|i: int| 0 <= i < stmts@.len() ==> placed(&#[trigger] stmts@[i], file),
    ensures
        ({
            let b = Block { open, stmts, close };
            &&& placed(&b, file)
            &&& b@ == (BlockView { open, stmts: stmt_views(stmts@), close })
        }),
{
    let b = Block { open, stmts, close };
    let parts = block_parts(b);
    assert(parts.len() == stmts@.len() + 2);
    assert forall|k: int| 0 <= k < parts.len() implies (#[trigger] parts[k]).well_formed()
        && parts[k].file_path == Some(file) by {
        if k == 0 {
            assert(parts[k] == span_of(&open));
        } else if k == parts.len() - 1 {
            assert(parts[k] == span_of(&close));
        } else {
            lemma_stmt_placed(stmts@[k - 1], file);
            assert(parts[k] == stmt_spans(stmts@)[k - 1]);
        }
    }
    lemma_parts_within(parts, Some(file));
    assert forall|i: int| 0 <= i < stmts@.len() implies stmt_sound(#[trigger] stmts@[i]) by {
        lemma_stmt_placed(stmts@[i], file);
    }
    assert(b.parts() == block_parts(b));
    assert(b.sound() == block_sound(b));
    assert(b@ == block_view(b));
    assert(open@ == open);
    assert(close@ == close);
}

/// The declaration of a listener is placed where its parts are.
pub proof fn lemma_ln_placed(
    ln: Ln,
    ident: Ident,
    default_events: SpannedOption<DefaultEvents>,
    args: ListenerArguments,
    where_clause: SpannedOption<WhereClause>,
    block: Block,
    file: PathRef,
)
    requires
        placed(&ln, file),
        placed(&ident, file),
        placed(&default_events, file),
        placed(&args, file),
        placed(&where_clause, file),
        placed(&block, file),
    ensures
        ({
            let l = LnStmt { ln, ident, default_events, args, where_clause, block };
            &&& placed(&l, file)
            &&& l@ == (LnStmtView {
                ln,
                ident,
                default_events: default_events@,
                args: args@,
                where_clause: where_clause@,
                block: block@,
            })
        }),
{
    let l = LnStmt { ln, ident, default_events, args, where_clause, block };
    assert(block.parts() == block_parts(block));
    assert(block.sound() == block_sound(block));
    assert(block@ == block_view(block));
    assert(ln_stmt_parts(l) =~= seq![
        span_of(&ln),
        span_of(&ident),
        span_of(&default_events),
        span_of(&args),
        span_of(&where_clause),
        merge_all(block_parts(block)),
    ]);
    lemma_parts_within(ln_stmt_parts(l), Some(file));
    assert(l.parts() == ln_stmt_parts(l));
    assert(l.sound() == ln_stmt_sound(l));
    assert(l@ == ln_stmt_view(l));
    assert(ln@ == ln);
    assert(ident@ == ident);
}

} // verus!
