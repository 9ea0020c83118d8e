//! Copies of syntax trees. A copy holds what the tree holds, has the same
//! parts, and is sound where the tree is.

use crate::ast::delim::Tupled;
use crate::ast::expr::{
    bin_op_expr_parts, bin_op_expr_sound, bin_op_expr_view, call_expr_parts, call_expr_sound,
    call_expr_view, expr_parts, expr_sound, expr_view, expr_views, member_expr_parts,
    member_expr_sound, member_expr_view, paren_expr_parts, paren_expr_sound, paren_expr_view,
    BinOpExpr, CallExpr, Expr, MemberExpr, ParenExpr,
};
use crate::ast::punctuated::{views, Punctuated};
use crate::ast::stmt::{
    block_parts, block_sound, block_view, ln_stmt_parts, ln_stmt_sound, ln_stmt_view, stmt_parts,
    stmt_sound, stmt_spans, stmt_view, stmt_views, AssignNewStmt, AssignStmt, Block, DefaultEvent,
    DefaultEvents, ExprStmt, ListenerArgument, ListenerArguments, LnStmt, Stmt, WhereClause,
};
use crate::span::{span_of, Spanned};
use crate::spanned_option::SpannedOption;
use crate::token_types::Comma;
use vstd::prelude::*;

verus! {

/// The node `copy` is like `node`: it holds the same, has the same parts,
/// and is sound if `node` is.
pub open spec fn like<T: View + Spanned>(copy: &T, node: &T) -> bool {
    &&& copy@ == node@
    &&& copy.parts() == node.parts()
    &&& node.sound() ==> copy.sound()
}

/// The expression `copy` is like `e`: it holds the same, has the same
/// parts, and is sound if `e` is.
pub open spec fn like_expr(copy: Expr, e: Expr) -> bool {
    &&& expr_view(copy) == expr_view(e)
    &&& expr_parts(copy) == expr_parts(e)
    &&& expr_sound(e) ==> expr_sound(copy)
}

/// The list `copy` is like `list`: its expressions are like those of
/// `list`, one by one, and its commas and its span are the same.
pub open spec fn like_arguments(copy: Punctuated<Expr, Comma>, list: Punctuated<Expr, Comma>) -> bool {
    &&& copy.items@.len() == list.items@.len()
    &&& forall|k: int|
        0 <= k < list.items@.len() ==> like_expr(#[trigger] copy.items@[k], list.items@[k])
    &&& copy.punct@ == list.punct@
    &&& copy.span == list.span
}

/// A list that is like another is so as a node too.
pub proof fn lemma_like_arguments(copy: Punctuated<Expr, Comma>, list: Punctuated<Expr, Comma>)
    requires
        like_arguments(copy, list),
    ensures
        like(&copy, &list),
        expr_views(copy.items@) == expr_views(list.items@),
{
    assert(expr_views(copy.items@) =~= expr_views(list.items@));
    assert(views(copy.items@) =~= views(list.items@)) by {
        assert forall|k: int| 0 <= k < list.items@.len() implies copy.items@[k]@
            == list.items@[k]@ by {
            assert(like_expr(copy.items@[k], list.items@[k]));
            assert(copy.items@[k]@ == expr_view(copy.items@[k]));
            assert(list.items@[k]@ == expr_view(list.items@[k]));
        }
    }
    assert(copy.parts() == seq![copy.span]);
    assert(list.parts() == seq![list.span]);
    if list.sound() {
        assert forall|k: int| 0 <= k < copy.items@.len() implies (
        #[trigger] copy.items@[k]).sound() by {
            assert(like_expr(copy.items@[k], list.items@[k]));
            assert(list.items@[k].sound() == expr_sound(list.items@[k]));
            assert(copy.items@[k].sound() == expr_sound(copy.items@[k]));
        }
    }
}

/// A copy of the list `list` of values that are copied bit by bit.
pub fn clone_copies<I: Copy, P: Copy>(list: &Punctuated<I, P>) -> (copy: Punctuated<I, P>)
    ensures
        copy.items@ == list.items@,
        copy.punct@ == list.punct@,
        copy.span == list.span,
{
    let mut items: Vec<I> = Vec::new();
    let mut i: usize = 0;
    while i < list.items.len()
        invariant
            i <= list.items@.len(),
            items@ == list.items@.take(i as int),
        decreases list.items@.len() - i,
    {
        items.push(list.items[i]);
        proof {
            assert(items@ =~= list.items@.take(i as int + 1));
        }
        i += 1;
    }
    let mut punct: Vec<P> = Vec::new();
    let mut j: usize = 0;
    while j < list.punct.len()
        invariant
            j <= list.punct@.len(),
            punct@ == list.punct@.take(j as int),
        decreases list.punct@.len() - j,
    {
        punct.push(list.punct[j]);
        proof {
            assert(punct@ =~= list.punct@.take(j as int + 1));
        }
        j += 1;
    }
    proof {
        assert(items@ =~= list.items@);
        assert(punct@ =~= list.punct@);
    }
    Punctuated { items, punct, span: list.span }
}

/// A copy of the expression `e`.
pub fn clone_expr(e: &Expr) -> (copy: Expr)
    ensures
        like_expr(copy, *e),
    decreases e,
{
    match e {
        Expr::Paren(p) => {
            let inner = clone_expr(&p.expr);
            let copy = ParenExpr { open: p.open, expr: Box::new(inner), close: p.close };
            proof {
                assert(paren_expr_view(copy) == paren_expr_view(*p));
                assert(paren_expr_parts(copy) == paren_expr_parts(*p));
                assert(paren_expr_sound(*p) ==> paren_expr_sound(copy));
            }
            Expr::Paren(copy)
        },
        Expr::Literal(l) => Expr::Literal(*l),
        Expr::Variable(v) => Expr::Variable(*v),
        Expr::Member(m) => {
            let inner = clone_expr(&m.expr);
            let copy = MemberExpr { expr: Box::new(inner), period: m.period, ident: m.ident };
            proof {
                assert(member_expr_view(copy) == member_expr_view(*m));
                assert(member_expr_parts(copy) == member_expr_parts(*m));
                assert(member_expr_sound(*m) ==> member_expr_sound(copy));
            }
            Expr::Member(copy)
        },
        Expr::Call(c) => {
            let callee = clone_expr(&c.expr);
            proof {
                assert(decreases_to!(*e => e->Call_0));
                assert(e->Call_0 == *c);
                assert(decreases_to!(*c => c.args));
            }
            let args = clone_arguments(&c.args);
            let copy = CallExpr { expr: Box::new(callee), args };
            proof {
                lemma_like_arguments(args, c.args);
                assert(call_expr_view(copy) == call_expr_view(*c));
                assert(call_expr_parts(copy) == call_expr_parts(*c));
                assert(call_expr_sound(*c) ==> call_expr_sound(copy));
            }
            Expr::Call(copy)
        },
        Expr::BinOp(b) => {
            let lhs = clone_expr(&b.lhs);
            let rhs = clone_expr(&b.rhs);
            let copy = BinOpExpr { lhs: Box::new(lhs), op: b.op, rhs: Box::new(rhs) };
            proof {
                assert(bin_op_expr_view(copy) == bin_op_expr_view(*b));
                assert(bin_op_expr_parts(copy) == bin_op_expr_parts(*b));
                assert(bin_op_expr_sound(*b) ==> bin_op_expr_sound(copy));
            }
            Expr::BinOp(copy)
        },
    }
}

/// A copy of the list of expressions `list`.
pub fn clone_arguments(list: &Punctuated<Expr, Comma>) -> (copy: Punctuated<Expr, Comma>)
    ensures
        like_arguments(copy, *list),
    decreases list,
{
    let mut items: Vec<Expr> = Vec::new();
    let mut i: usize = 0;
    while i < list.items.len()
        invariant
            i <= list.items@.len(),
            items@.len() == i,
            forall|k: int| 0 <= k < i ==> like_expr(#[trigger] items@[k], list.items@[k]),
        decreases list.items@.len() - i,
    {
        proof {
            vstd::std_specs::vec::axiom_vec_index_decreases(list.items, i as int);
            assert(decreases_to!(*list => list.items));
            assert(decreases_to!(list.items => list.items[i as int]));
        }
        let item = clone_expr(&list.items[i]);
        items.push(item);
        i += 1;
    }
    let mut punct: Vec<Comma> = Vec::new();
    let mut j: usize = 0;
    while j < list.punct.len()
        invariant
            j <= list.punct@.len(),
            punct@ == list.punct@.take(j as int),
        decreases list.punct@.len() - j,
    {
        punct.push(list.punct[j]);
        proof {
            assert(punct@ =~= list.punct@.take(j as int + 1));
        }
        j += 1;
    }
    proof {
        assert(punct@ =~= list.punct@);
    }
    Punctuated { items, punct, span: list.span }
}

impl Clone for Expr {
    fn clone(&self) -> (copy: Self)
        ensures
            like(&copy, self),
    {
        let copy = clone_expr(self);
        proof {
            assert(copy@ == expr_view(copy));
            assert(self@ == expr_view(*self));
            assert(copy.parts() == expr_parts(copy));
            assert(self.parts() == expr_parts(*self));
            assert(copy.sound() == expr_sound(copy));
            assert(self.sound() == expr_sound(*self));
        }
        copy
    }
}

impl Clone for ParenExpr {
    fn clone(&self) -> (copy: Self)
        ensures
            like(&copy, self),
    {
        let copy = ParenExpr {
            open: self.open,
            expr: Box::new(clone_expr(&self.expr)),
            close: self.close,
        };
        proof {
            assert(copy@ == paren_expr_view(copy));
            assert(self@ == paren_expr_view(*self));
            assert(copy.parts() == paren_expr_parts(copy));
            assert(self.parts() == paren_expr_parts(*self));
            assert(copy.sound() == paren_expr_sound(copy));
            assert(self.sound() == paren_expr_sound(*self));
        }
        copy
    }
}

impl Clone for MemberExpr {
    fn clone(&self) -> (copy: Self)
        ensures
            like(&copy, self),
    {
        let copy = MemberExpr {
            expr: Box::new(clone_expr(&self.expr)),
            period: self.period,
            ident: self.ident,
        };
        proof {
            assert(copy@ == member_expr_view(copy));
            assert(self@ == member_expr_view(*self));
            assert(copy.parts() == member_expr_parts(copy));
            assert(self.parts() == member_expr_parts(*self));
            assert(copy.sound() == member_expr_sound(copy));
            assert(self.sound() == member_expr_sound(*self));
        }
        copy
    }
}

impl Clone for CallExpr {
    fn clone(&self) -> (copy: Self)
        ensures
            like(&copy, self),
    {
        let args = clone_arguments(&self.args);
        let copy = CallExpr { expr: Box::new(clone_expr(&self.expr)), args };
        proof {
            lemma_like_arguments(args, self.args);
            assert(copy@ == call_expr_view(copy));
            assert(self@ == call_expr_view(*self));
            assert(copy.parts() == call_expr_parts(copy));
            assert(self.parts() == call_expr_parts(*self));
            assert(copy.sound() == call_expr_sound(copy));
            assert(self.sound() == call_expr_sound(*self));
        }
        copy
    }
}

impl Clone for BinOpExpr {
    fn clone(&self) -> (copy: Self)
        ensures
            like(&copy, self),
    {
        let copy = BinOpExpr {
            lhs: Box::new(clone_expr(&self.lhs)),
            op: self.op,
            rhs: Box::new(clone_expr(&self.rhs)),
        };
        proof {
            assert(copy@ == bin_op_expr_view(copy));
            assert(self@ == bin_op_expr_view(*self));
            assert(copy.parts() == bin_op_expr_parts(copy));
            assert(self.parts() == bin_op_expr_parts(*self));
            assert(copy.sound() == bin_op_expr_sound(copy));
            assert(self.sound() == bin_op_expr_sound(*self));
        }
        copy
    }
}

/// The copy of an expression is like it as a node.
pub proof fn lemma_like_expr(copy: Expr, e: Expr)
    requires
        like_expr(copy, e),
    ensures
        like(&copy, &e),
        span_of(&copy) == span_of(&e),
{
    assert(copy@ == expr_view(copy));
    assert(e@ == expr_view(e));
    assert(copy.parts() == expr_parts(copy));
    assert(e.parts() == expr_parts(e));
    assert(copy.sound() == expr_sound(copy));
    assert(e.sound() == expr_sound(e));
}

impl Clone for AssignNewStmt {
    fn clone(&self) -> (copy: Self)
        ensures
            like(&copy, self),
    {
        let expr = clone_expr(&self.expr);
        proof {
            lemma_like_expr(expr, self.expr);
        }
        AssignNewStmt { ident: self.ident, equal: self.equal, expr, eol: self.eol }
    }
}

impl Clone for AssignStmt {
    fn clone(&self) -> (copy: Self)
        ensures
            like(&copy, self),
    {
        let expr = clone_expr(&self.expr);
        proof {
            lemma_like_expr(expr, self.expr);
        }
        AssignStmt { ident: self.ident, equal: self.equal, expr, eol: self.eol }
    }
}

impl Clone for ExprStmt {
    fn clone(&self) -> (copy: Self)
        ensures
            like(&copy, self),
    {
        let expr = clone_expr(&self.expr);
        proof {
            lemma_like_expr(expr, self.expr);
        }
        ExprStmt { expr }
    }
}

impl Clone for ListenerArguments {
    fn clone(&self) -> (copy: Self)
        ensures
            like(&copy, self),
    {
        let args = clone_copies(&self.args);
        proof {
            assert(args.parts() == seq![args.span]);
            assert(self.args.parts() == seq![self.args.span]);
        }
        ListenerArguments { open: self.open, args, close: self.close }
    }
}

impl Clone for WhereClause {
    fn clone(&self) -> (copy: Self)
        ensures
            like(&copy, self),
    {
        let bounds = clone_arguments(&self.bounds);
        proof {
            lemma_like_arguments(bounds, self.bounds);
        }
        WhereClause { _where: self._where, bounds }
    }
}

impl Clone for DefaultEvents {
    fn clone(&self) -> (copy: Self)
        ensures
            like(&copy, self),
    {
        let contents = clone_copies(&self.events.contents);
        proof {
            assert(contents.parts() == seq![contents.span]);
            assert(self.events.contents.parts() == seq![self.events.contents.span]);
        }
        let events = Tupled { open: self.events.open, contents, close: self.events.close };
        proof {
            assert(events@ == self.events@);
            assert(events.parts() == self.events.parts());
            assert(self.events.sound() ==> events.sound());
        }
        DefaultEvents { events }
    }
}

/// The statement `copy` is like `x`: it holds the same, has the same parts,
/// and is sound if `x` is.
pub open spec fn like_stmt(copy: Stmt, x: Stmt) -> bool {
    &&& stmt_view(copy) == stmt_view(x)
    &&& stmt_parts(copy) == stmt_parts(x)
    &&& stmt_sound(x) ==> stmt_sound(copy)
}

/// The block `copy` is like `b`.
pub open spec fn like_block(copy: Block, b: Block) -> bool {
    &&& block_view(copy) == block_view(b)
    &&& block_parts(copy) == block_parts(b)
    &&& block_sound(b) ==> block_sound(copy)
}

/// The declaration `copy` is like `l`.
pub open spec fn like_ln(copy: LnStmt, l: LnStmt) -> bool {
    &&& ln_stmt_view(copy) == ln_stmt_view(l)
    &&& ln_stmt_parts(copy) == ln_stmt_parts(l)
    &&& ln_stmt_sound(l) ==> ln_stmt_sound(copy)
}

/// A copy of the statement `x`.
pub fn clone_stmt(x: &Stmt) -> (copy: Stmt)
    ensures
        like_stmt(copy, *x),
    decreases x,
{
    match x {
        Stmt::Ln(l) => Stmt::Ln(clone_ln(l)),
        Stmt::AssignNew(a) => Stmt::AssignNew(a.clone()),
        Stmt::Assign(a) => Stmt::Assign(a.clone()),
        Stmt::Expr(e) => Stmt::Expr(e.clone()),
    }
}

/// A copy of the declaration of a listener `l`.
pub fn clone_ln(l: &LnStmt) -> (copy: LnStmt)
    ensures
        like_ln(copy, *l),
    decreases l,
{
    let default_events = match &l.default_events.value {
        Some(events) => SpannedOption { value: Some(events.clone()), span: l.default_events.span },
        None => SpannedOption { value: None, span: l.default_events.span },
    };
    let where_clause = match &l.where_clause.value {
        Some(bounds) => SpannedOption { value: Some(bounds.clone()), span: l.where_clause.span },
        None => SpannedOption { value: None, span: l.where_clause.span },
    };
    let args = l.args.clone();
    let block = clone_block(&l.block);
    proof {
        assert(default_events@ == l.default_events@);
        assert(default_events.parts() == seq![default_events.span]);
        assert(l.default_events.parts() == seq![l.default_events.span]);
        assert(l.default_events.sound() ==> default_events.sound());
        assert(where_clause@ == l.where_clause@);
        assert(where_clause.parts() == seq![where_clause.span]);
        assert(l.where_clause.parts() == seq![l.where_clause.span]);
        assert(l.where_clause.sound() ==> where_clause.sound());
    }
    LnStmt { ln: l.ln, ident: l.ident, default_events, args, where_clause, block }
}

/// A copy of the block `b`.
pub fn clone_block(b: &Block) -> (copy: Block)
    ensures
        like_block(copy, *b),
    decreases b,
{
    let mut stmts: Vec<Stmt> = Vec::new();
    let mut i: usize = 0;
    while i < b.stmts.len()
        invariant
            i <= b.stmts@.len(),
            stmts@.len() == i,
            forall|k: int| 0 <= k < i ==> like_stmt(#[trigger] stmts@[k], b.stmts@[k]),
        decreases b.stmts@.len() - i,
    {
        proof {
            vstd::std_specs::vec::axiom_vec_index_decreases(b.stmts, i as int);
            assert(decreases_to!(*b => b.stmts));
            assert(decreases_to!(b.stmts => b.stmts[i as int]));
        }
        let stmt = clone_stmt(&b.stmts[i]);
        stmts.push(stmt);
        i += 1;
    }
    proof {
        assert(stmt_views(stmts@) =~= stmt_views(b.stmts@));
        assert(stmt_spans(stmts@) =~= stmt_spans(b.stmts@));
    }
    Block { open: b.open, stmts, close: b.close }
}

impl Clone for Stmt {
    fn clone(&self) -> (copy: Self)
        ensures
            like(&copy, self),
    {
        let copy = clone_stmt(self);
        proof {
            assert(copy@ == stmt_view(copy));
            assert(self@ == stmt_view(*self));
            assert(copy.parts() == stmt_parts(copy));
            assert(self.parts() == stmt_parts(*self));
            assert(copy.sound() == stmt_sound(copy));
            assert(self.sound() == stmt_sound(*self));
        }
        copy
    }
}

impl Clone for LnStmt {
    fn clone(&self) -> (copy: Self)
        ensures
            like(&copy, self),
    {
        let copy = clone_ln(self);
        proof {
            assert(copy@ == ln_stmt_view(copy));
            assert(self@ == ln_stmt_view(*self));
            assert(copy.parts() == ln_stmt_parts(copy));
            assert(self.parts() == ln_stmt_parts(*self));
            assert(copy.sound() == ln_stmt_sound(copy));
            assert(self.sound() == ln_stmt_sound(*self));
        }
        copy
    }
}

impl Clone for Block {
    fn clone(&self) -> (copy: Self)
        ensures
            like(&copy, self),
    {
        let copy = clone_block(self);
        proof {
            assert(copy@ == block_view(copy));
            assert(self@ == block_view(*self));
            assert(copy.parts() == block_parts(copy));
            assert(self.parts() == block_parts(*self));
            assert(copy.sound() == block_sound(copy));
            assert(self.sound() == block_sound(*self));
        }
        copy
    }
}

} // verus!
