//! How expressions are read.
//!
//! From the tightest binding to the loosest: a term (a literal, a variable,
//! an expression in parentheses); members of it; a call, where a token that
//! starts an expression follows; binary operators, grouped by precedence.

use crate::ast::expr::{
    expr_parts, expr_view, expr_views, BinOp, BinOpExpr, BinOpExprView, CallExpr, CallExprView,
    Expr, ExprView, LiteralExpr, MemberExpr, MemberExprView, ParenExpr, ParenExprView,
};
use crate::ast::placement::{
    arguments_placed, arguments_view, lemma_binop_operands, lemma_binop_placed, lemma_call_placed,
    lemma_expr_is_placed, lemma_expr_placed, lemma_literal_placed, lemma_member_placed,
    lemma_paren_placed, lemma_variable_placed,
};
use crate::ast::expr::span_of_expr;
use crate::ast::located::{expr_view_span, lemma_expr_view_parts};
use crate::ast::punctuated::{
    element_spans, grow, spans_elements, Punctuated, PunctuatedView, Termination,
};
use crate::error::Result;
use crate::lexer::unexpected;
use crate::parse::{parse_post, placed, Parse};
use crate::parser::{done, fail, follows, stalled, Outcome, Parser, ParserView};
use crate::span::{
    all_within, lemma_merge_one, lemma_merge_push, lemma_parts_within, list_span, merge_all,
    span_of, Located, Span, Spanned,
};
use crate::string_allocator::PathRef;
use crate::token::{Delim, Symbol, TokenKind};
use crate::token_types::{
    Asterisk, CloseParen, Comma, EqualEqual, Ident, LitFloat, LitInt, LitStr, Minus, OpenParen,
    Period, Plus, Slash,
};
use vstd::prelude::*;

verus! {

impl TokenKind {
    /// Whether an expression can start with a token of this kind.
    pub open spec fn starts_expr_spec(&self) -> bool {
        ||| self is Integer
        ||| self is Float
        ||| self is String
        ||| self is Ident
        ||| *self == TokenKind::Symbol(Symbol::Open(Delim::Paren))
    }

    /// Whether an expression can start with a token of this kind: a literal,
    /// an identifier or an opening parenthesis.
    #[verifier::when_used_as_spec(starts_expr_spec)]
    pub fn starts_expr(&self) -> (b: bool)
        ensures
            b == self.starts_expr_spec(),
    {
        match self {
            TokenKind::Integer(_) | TokenKind::Float(_) | TokenKind::String(_) | TokenKind::Ident(
                _,
            ) | TokenKind::Symbol(Symbol::Open(Delim::Paren)) => true,
            _ => false,
        }
    }
}

/// Where the arguments of a call end: before the first token that neither
/// starts an expression nor is a comma.
#[derive(Clone, Copy, Debug)]
pub struct ArgumentsEnd;

impl Termination for ArgumentsEnd {
    open spec fn ends(&self, kind: TokenKind) -> bool {
        !kind.starts_expr_spec() && kind != TokenKind::Symbol(Symbol::Comma)
    }

    fn terminate(&self, kind: &TokenKind) -> (b: bool) {
        !kind.starts_expr() && *kind != TokenKind::Symbol(Symbol::Comma)
    }
}

/// One for an expression that starts with an identifier that was read
/// before; zero for one that is read from its first token on.
pub open spec fn seeded(seed: Option<Ident>) -> nat {
    if seed is Some {
        1
    } else {
        0
    }
}

/// Input was taken since `before`; or none came back, where the expression
/// started with an identifier that was read before.
pub open spec fn advanced(after: ParserView, before: ParserView, seed: Option<Ident>) -> bool {
    after.remaining() < before.remaining() || (seed is Some && after.remaining()
        <= before.remaining())
}

/// The identifier that an expression starts with, if it was read before, has
/// its place in the unit `file`.
pub open spec fn seed_placed(seed: Option<Ident>, file: PathRef) -> bool {
    seed matches Some(ident) ==> placed(&ident, file)
}

/// A literal: the next token, which must be an integer, a float or a string.
pub open spec fn literal_model(s: ParserView) -> Outcome<LiteralExpr> {
    let next = s.next_token();
    match next.result {
        Ok(token) => match token.kind {
            TokenKind::Integer(value) => done(
                LiteralExpr::Integer(LitInt { value, span: token.span }),
                next.after,
            ),
            TokenKind::Float(value) => done(
                LiteralExpr::Float(LitFloat { value, span: token.span }),
                next.after,
            ),
            TokenKind::String(value) => done(
                LiteralExpr::String(LitStr { value, span: token.span }),
                next.after,
            ),
            _ => fail(unexpected("expected literal"@, token, next.after.table), next.after),
        },
        Err(error) => fail(error, next.after),
    }
}

/// A binary operator, if the next token is one; the token is then taken.
pub open spec fn try_op_model(s: ParserView) -> Outcome<Option<BinOp>> {
    let peeked = s.peek_token();
    match peeked.result {
        Ok(token) => match token.kind {
            TokenKind::Symbol(Symbol::Plus) => {
                let taken = Plus::model(peeked.after);
                match taken.result {
                    Ok(t) => done(Some(BinOp::Add(t)), taken.after),
                    Err(error) => fail(error, taken.after),
                }
            },
            TokenKind::Symbol(Symbol::Minus) => {
                let taken = Minus::model(peeked.after);
                match taken.result {
                    Ok(t) => done(Some(BinOp::Sub(t)), taken.after),
                    Err(error) => fail(error, taken.after),
                }
            },
            TokenKind::Symbol(Symbol::Asterisk) => {
                let taken = Asterisk::model(peeked.after);
                match taken.result {
                    Ok(t) => done(Some(BinOp::Mul(t)), taken.after),
                    Err(error) => fail(error, taken.after),
                }
            },
            TokenKind::Symbol(Symbol::Slash) => {
                let taken = Slash::model(peeked.after);
                match taken.result {
                    Ok(t) => done(Some(BinOp::Div(t)), taken.after),
                    Err(error) => fail(error, taken.after),
                }
            },
            TokenKind::Symbol(Symbol::EqualEqual) => {
                let taken = EqualEqual::model(peeked.after);
                match taken.result {
                    Ok(t) => done(Some(BinOp::Eq(t)), taken.after),
                    Err(error) => fail(error, taken.after),
                }
            },
            _ => done(None, peeked.after),
        },
        Err(error) => fail(error, peeked.after),
    }
}

/// The expression that `lhs`, the operator `op` and the operand `rhs` make.
/// Where `lhs` is itself a binary expression whose operator binds less
/// tightly than `op`, the new operator takes the right operand of `lhs` as
/// its left one, and the result takes the place of that right operand.
/// Otherwise the whole of `lhs` is the left operand.
pub open spec fn attach_spec(lhs: ExprView, op: BinOp, rhs: ExprView) -> ExprView {
    match lhs {
        ExprView::BinOp(outer) => if op.precedence_spec() > outer.op.precedence_spec() {
            ExprView::BinOp(
                BinOpExprView {
                    lhs: outer.lhs,
                    op: outer.op,
                    rhs: Box::new(
                        ExprView::BinOp(BinOpExprView { lhs: outer.rhs, op, rhs: Box::new(rhs) }),
                    ),
                },
            )
        } else {
            ExprView::BinOp(BinOpExprView { lhs: Box::new(lhs), op, rhs: Box::new(rhs) })
        },
        _ => ExprView::BinOp(BinOpExprView { lhs: Box::new(lhs), op, rhs: Box::new(rhs) }),
    }
}

/// The operands of an expression from left to right, with the binary
/// expressions in it taken apart.
pub open spec fn operands(e: ExprView) -> Seq<ExprView>
    decreases e,
{
    match e {
        ExprView::BinOp(b) => operands(*b.lhs) + operands(*b.rhs),
        _ => seq![e],
    }
}

/// The operators of an expression from left to right.
pub open spec fn operators(e: ExprView) -> Seq<BinOp>
    decreases e,
{
    match e {
        ExprView::BinOp(b) => operators(*b.lhs).push(b.op) + operators(*b.rhs),
        _ => Seq::empty(),
    }
}

/// Attaching regroups and never reorders: the operands and the operators of
/// the result are those of the left side, the new operator, and those of the
/// new operand, in the order in which they were read.
pub proof fn attach_keeps_order(lhs: ExprView, op: BinOp, rhs: ExprView)
    ensures
        operands(attach_spec(lhs, op, rhs)) == operands(lhs) + operands(rhs),
        operators(attach_spec(lhs, op, rhs)) == operators(lhs).push(op) + operators(rhs),
{
    reveal_with_fuel(operands, 3);
    reveal_with_fuel(operators, 3);
    match lhs {
        ExprView::BinOp(outer) => {
            if op.precedence_spec() > outer.op.precedence_spec() {
                assert(operands(attach_spec(lhs, op, rhs)) =~= operands(*outer.lhs) + (operands(
                    *outer.rhs,
                ) + operands(rhs)));
                assert(operands(attach_spec(lhs, op, rhs)) =~= operands(lhs) + operands(rhs));
                assert(operators(attach_spec(lhs, op, rhs)) =~= operators(*outer.lhs).push(
                    outer.op,
                ) + (operators(*outer.rhs).push(op) + operators(rhs)));
                assert(operators(attach_spec(lhs, op, rhs)) =~= operators(lhs).push(op)
                    + operators(rhs));
            }
        },
        _ => {},
    }
}

/// An operator that binds tighter than the one at the root of the left side
/// goes below that root, which stays; any other becomes the new root, over
/// the whole of the left side.
pub proof fn attach_root(lhs: ExprView, op: BinOp, rhs: ExprView)
    ensures
        attach_spec(lhs, op, rhs) is BinOp,
        lhs is BinOp && op.precedence_spec() > lhs->BinOp_0.op.precedence_spec() ==> {
            &&& attach_spec(lhs, op, rhs)->BinOp_0.op == lhs->BinOp_0.op
            &&& attach_spec(lhs, op, rhs)->BinOp_0.lhs == lhs->BinOp_0.lhs
        },
        !(lhs is BinOp && op.precedence_spec() > lhs->BinOp_0.op.precedence_spec()) ==> {
            &&& attach_spec(lhs, op, rhs)->BinOp_0.op == op
            &&& *attach_spec(lhs, op, rhs)->BinOp_0.lhs == lhs
            &&& *attach_spec(lhs, op, rhs)->BinOp_0.rhs == rhs
        },
{
}

/// The members that follow `expr`: as long as the next token is a period,
/// the period and an identifier make a member of what was read so far.
pub open spec fn member_rest(s: ParserView, expr: ExprView) -> Outcome<ExprView>
    decreases s.remaining(),
{
    let peeked = s.peek_token();
    match peeked.result {
        Ok(token) => if token.kind == TokenKind::Symbol(Symbol::Period) {
            let period = Period::model(peeked.after);
            match period.result {
                Ok(p) => {
                    let ident = Ident::model(period.after);
                    match ident.result {
                        Ok(i) => if ident.after.remaining() < s.remaining() {
                            member_rest(
                                ident.after,
                                ExprView::Member(
                                    MemberExprView { expr: Box::new(expr), period: p, ident: i },
                                ),
                            )
                        } else {
                            stalled(ident.after)
                        },
                        Err(error) => fail(error, ident.after),
                    }
                },
                Err(error) => fail(error, period.after),
            }
        } else {
            done(expr, peeked.after)
        },
        Err(error) => fail(error, peeked.after),
    }
}

/// A term: the identifier read before, if there is one; else a literal, a
/// variable or an expression in parentheses, by the next token.
pub open spec fn term_model(s: ParserView, seed: Option<Ident>) -> Outcome<ExprView>
    decreases s.remaining(), seeded(seed), 2nat,
{
    match seed {
        Some(ident) => done(ExprView::Variable(ident), s),
        None => {
            let peeked = s.peek_token();
            match peeked.result {
                Ok(token) => match token.kind {
                    TokenKind::Integer(_) | TokenKind::Float(_) | TokenKind::String(_) => {
                        let literal = literal_model(peeked.after);
                        match literal.result {
                            Ok(l) => done(ExprView::Literal(l), literal.after),
                            Err(error) => fail(error, literal.after),
                        }
                    },
                    TokenKind::Ident(_) => {
                        let ident = Ident::model(peeked.after);
                        match ident.result {
                            Ok(i) => done(ExprView::Variable(i), ident.after),
                            Err(error) => fail(error, ident.after),
                        }
                    },
                    TokenKind::Symbol(Symbol::Open(Delim::Paren)) => if peeked.after.remaining()
                        <= s.remaining() {
                        let paren = paren_model(peeked.after);
                        match paren.result {
                            Ok(p) => done(ExprView::Paren(p), paren.after),
                            Err(error) => fail(error, paren.after),
                        }
                    } else {
                        stalled(peeked.after)
                    },
                    _ => fail(
                        unexpected("expected expression"@, token, peeked.after.table),
                        peeked.after,
                    ),
                },
                Err(error) => fail(error, peeked.after),
            }
        },
    }
}

/// An expression in parentheses.
pub open spec fn paren_model(s: ParserView) -> Outcome<ParenExprView>
    decreases s.remaining(), 0nat, 1nat,
{
    let open = OpenParen::model(s);
    match open.result {
        Ok(o) => if open.after.remaining() < s.remaining() {
            let inner = binop_model(open.after, None);
            match inner.result {
                Ok(e) => {
                    let close = CloseParen::model(inner.after);
                    match close.result {
                        Ok(c) => done(
                            ParenExprView { open: o, expr: Box::new(e), close: c },
                            close.after,
                        ),
                        Err(error) => fail(error, close.after),
                    }
                },
                Err(error) => fail(error, inner.after),
            }
        } else {
            stalled(open.after)
        },
        Err(error) => fail(error, open.after),
    }
}

/// A term and the members that follow it.
pub open spec fn member_model(s: ParserView, seed: Option<Ident>) -> Outcome<ExprView>
    decreases s.remaining(), seeded(seed), 3nat,
{
    let term = term_model(s, seed);
    match term.result {
        Ok(e) => member_rest(term.after, e),
        Err(error) => fail(error, term.after),
    }
}

/// An expression without binary operators: a term with its members, and,
/// where a token that starts an expression follows, the arguments that it is
/// called with.
pub open spec fn call_model(s: ParserView, seed: Option<Ident>) -> Outcome<ExprView>
    decreases s.remaining(), seeded(seed), 4nat,
{
    let callee = member_model(s, seed);
    match callee.result {
        Ok(e) => {
            let peeked = callee.after.peek_token();
            match peeked.result {
                Ok(token) => if token.kind.starts_expr_spec() {
                    if advanced(peeked.after, s, seed) {
                        let args = arguments_model(peeked.after);
                        match args.result {
                            Ok(a) => done(
                                ExprView::Call(CallExprView { expr: Box::new(e), args: a }),
                                args.after,
                            ),
                            Err(error) => fail(error, args.after),
                        }
                    } else {
                        stalled(peeked.after)
                    }
                } else {
                    done(e, peeked.after)
                },
                Err(error) => fail(error, peeked.after),
            }
        },
        Err(error) => fail(error, callee.after),
    }
}

/// The arguments of a call: expressions with commas between them, up to the
/// first token that neither starts an expression nor is a comma.
pub open spec fn arguments_model(s: ParserView) -> Outcome<PunctuatedView<ExprView, Comma>>
    decreases s.remaining(), 0nat, 7nat,
{
    arguments_rest(s, Seq::empty(), Seq::empty(), Seq::empty())
}

/// The arguments that follow those read so far, whose spans and those of
/// the commas between them are `spans`. The span of the list is the union
/// of these spans; that of a list that holds nothing is the empty span at
/// the cursor, as it stands when the list has ended.
pub open spec fn arguments_rest(
    s: ParserView,
    spans: Seq<Span>,
    items: Seq<ExprView>,
    punct: Seq<Comma>,
) -> Outcome<PunctuatedView<ExprView, Comma>>
    decreases s.remaining(), 0nat, 6nat,
{
    let peeked = s.peek_token();
    match peeked.result {
        Ok(token) => if ArgumentsEnd.ends(token.kind) {
            done(
                PunctuatedView { items, punct, span: list_span(spans, peeked.after.position()) },
                peeked.after,
            )
        } else if peeked.after.remaining() <= s.remaining() {
            let item = binop_model(peeked.after, None);
            match item.result {
                Ok(e) => {
                    let again = item.after.peek_token();
                    match again.result {
                        Ok(next) => if ArgumentsEnd.ends(next.kind) {
                            done(
                                PunctuatedView {
                                    items: items.push(e),
                                    punct,
                                    span: merge_all(spans.push(expr_view_span(e))),
                                },
                                again.after,
                            )
                        } else {
                            let comma = Comma::model(again.after);
                            match comma.result {
                                Ok(c) => if comma.after.remaining() < s.remaining()
                                    && comma.after.valid() {
                                    arguments_rest(
                                        comma.after,
                                        spans.push(expr_view_span(e)).push(c.span),
                                        items.push(e),
                                        punct.push(c),
                                    )
                                } else {
                                    stalled(comma.after)
                                },
                                Err(error) => fail(error, comma.after),
                            }
                        },
                        Err(error) => fail(error, again.after),
                    }
                },
                Err(error) => fail(error, item.after),
            }
        } else {
            stalled(peeked.after)
        },
        Err(error) => fail(error, peeked.after),
    }
}

/// The arguments of a call are a list as any other: expressions and commas,
/// each read by the rule of its type, up to the token at which
/// [`ArgumentsEnd`] says that the list ends.
pub proof fn arguments_are_a_list(s: ParserView)
    requires
        s.valid(),
    ensures
        arguments_model(s) == crate::ast::punctuated::punctuated_model::<
            Expr,
            Comma,
            crate::parse::ByType,
            crate::parse::ByType,
            ArgumentsEnd,
        >(&crate::parse::ByType, &crate::parse::ByType, &ArgumentsEnd, s),
{
    lemma_arguments_rest(s, Seq::empty(), Seq::empty(), Seq::empty());
}

/// The rest of the arguments of a call is the rest of a list.
pub proof fn lemma_arguments_rest(
    s: ParserView,
    spans: Seq<Span>,
    items: Seq<ExprView>,
    punct: Seq<Comma>,
)
    requires
        s.valid(),
    ensures
        arguments_rest(s, spans, items, punct) == crate::ast::punctuated::punctuated_rest::<
            Expr,
            Comma,
            crate::parse::ByType,
            crate::parse::ByType,
            ArgumentsEnd,
        >(&crate::parse::ByType, &crate::parse::ByType, &ArgumentsEnd, s, spans, items, punct),
    decreases s.remaining(),
{
    let by = crate::parse::ByType;
    crate::parser::lemma_peek_token(s);
    let peeked = s.peek_token();
    match peeked.result {
        Ok(token) => {
            if !ArgumentsEnd.ends(token.kind) {
                let item = binop_model(peeked.after, None);
                assert(crate::parse::ParseWith::<Expr>::parsed(&by, peeked.after) == item) by {
                    assert(<Expr as Parse>::parsed(peeked.after) == item);
                }
                match item.result {
                    Ok(e) => {
                        assert(<Expr as Located>::span_in(e) == expr_view_span(e));
                        let again = item.after.peek_token();
                        match again.result {
                            Ok(next) => {
                                if !ArgumentsEnd.ends(next.kind) {
                                    let comma = Comma::model(again.after);
                                    assert(crate::parse::ParseWith::<Comma>::parsed(
                                        &by,
                                        again.after,
                                    ) == comma) by {
                                        assert(<Comma as Parse>::parsed(again.after) == comma);
                                    }
                                    match comma.result {
                                        Ok(c) => {
                                            assert(<Comma as Located>::span_in(c) == c.span);
                                            if comma.after.remaining() < s.remaining()
                                                && comma.after.valid() {
                                                lemma_arguments_rest(
                                                    comma.after,
                                                    spans.push(expr_view_span(e)).push(c.span),
                                                    items.push(e),
                                                    punct.push(c),
                                                );
                                            }
                                        },
                                        Err(_) => {},
                                    }
                                }
                            },
                            Err(_) => {},
                        }
                    },
                    Err(_) => {},
                }
            }
        },
        Err(_) => {},
    }
}

/// An expression: operands with binary operators between them, grouped by
/// precedence as [`attach_spec`] says.
pub open spec fn binop_model(s: ParserView, seed: Option<Ident>) -> Outcome<ExprView>
    decreases s.remaining(), seeded(seed), 5nat,
{
    let first = call_model(s, seed);
    match first.result {
        Ok(e) => if advanced(first.after, s, seed) {
            binop_rest(first.after, e)
        } else {
            stalled(first.after)
        },
        Err(error) => fail(error, first.after),
    }
}

/// The operators and operands that follow `lhs`: as long as the next token
/// is a binary operator, it and the operand after it are attached to what
/// was read so far.
pub open spec fn binop_rest(s: ParserView, lhs: ExprView) -> Outcome<ExprView>
    decreases s.remaining(), 0nat, 0nat,
{
    let op = try_op_model(s);
    match op.result {
        Ok(Some(o)) => if op.after.remaining() < s.remaining() {
            let rhs = call_model(op.after, None);
            match rhs.result {
                Ok(r) => if rhs.after.remaining() < s.remaining() {
                    binop_rest(rhs.after, attach_spec(lhs, o, r))
                } else {
                    stalled(rhs.after)
                },
                Err(error) => fail(error, rhs.after),
            }
        } else {
            stalled(op.after)
        },
        Ok(None) => done(lhs, op.after),
        Err(error) => fail(error, op.after),
    }
}

/// What holds of an expression that was read.
pub open spec fn expr_post(
    r: Result<Expr>,
    before: ParserView,
    after: ParserView,
    expected: Outcome<ExprView>,
    seed: Option<Ident>,
) -> bool {
    &&& parse_post(r, before, after, expected)
    &&& r is Ok ==> advanced(after, before, seed)
}

impl Parse for LiteralExpr {
    open spec fn parsed(before: ParserView) -> Outcome<LiteralExpr> {
        literal_model(before)
    }

    open spec fn advances() -> bool {
        true
    }

    fn parse(parser: &mut Parser) -> (r: Result<Self>) {
        proof {
            assert(Self::parsed(parser@) == literal_model(parser@));
            assert(Self::advances());
        }
        let tok = parser.next_token()?;
        proof {
            lemma_merge_one(tok.span);
        }
        match tok.kind() {
            TokenKind::Integer(value) => {
                let lit = LiteralExpr::Integer(LitInt::new(value, tok.span()));
                proof {
                    assert(lit.parts() =~= seq![span_of(&LitInt { value, span: tok.span })]);
                    lemma_merge_one(span_of(&LitInt { value, span: tok.span }));
                }
                Ok(lit)
            },
            TokenKind::Float(value) => {
                let lit = LiteralExpr::Float(LitFloat::new(value, tok.span()));
                proof {
                    assert(lit.parts() =~= seq![span_of(&LitFloat { value, span: tok.span })]);
                    lemma_merge_one(span_of(&LitFloat { value, span: tok.span }));
                }
                Ok(lit)
            },
            TokenKind::String(value) => {
                let lit = LiteralExpr::String(LitStr::new(value, tok.span()));
                proof {
                    assert(lit.parts() =~= seq![span_of(&LitStr { value, span: tok.span })]);
                    lemma_merge_one(span_of(&LitStr { value, span: tok.span }));
                }
                Ok(lit)
            },
            _ => {
                proof {
                    reveal_strlit("expected literal");
                }
                Err(parser.unexpected("expected literal", tok))
            },
        }
    }
}

impl BinOp {
    /// Takes the next token if it is a binary operator.
    pub fn try_parse(parser: &mut Parser) -> (r: Result<Option<Self>>)
        requires
            old(parser).wf(),
        ensures
            final(parser).wf(),
            crate::parser::outcome(r, final(parser)@) == try_op_model(old(parser)@),
            follows(final(parser)@, old(parser)@),
            crate::parser::told(r),
            r matches Ok(Some(op)) ==> placed(&op, old(parser)@.file) && final(parser)@.remaining()
                < old(parser)@.remaining(),
    {
        let tok = parser.peek_token()?;
        match tok.kind() {
            TokenKind::Symbol(Symbol::Plus) => {
                let t = Plus::parse(parser)?;
                proof {
                    lemma_merge_one(span_of(&t));
                    assert(BinOp::Add(t).parts() =~= seq![span_of(&t)]);
                }
                Ok(Some(BinOp::Add(t)))
            },
            TokenKind::Symbol(Symbol::Minus) => {
                let t = Minus::parse(parser)?;
                proof {
                    lemma_merge_one(span_of(&t));
                    assert(BinOp::Sub(t).parts() =~= seq![span_of(&t)]);
                }
                Ok(Some(BinOp::Sub(t)))
            },
            TokenKind::Symbol(Symbol::Asterisk) => {
                let t = Asterisk::parse(parser)?;
                proof {
                    lemma_merge_one(span_of(&t));
                    assert(BinOp::Mul(t).parts() =~= seq![span_of(&t)]);
                }
                Ok(Some(BinOp::Mul(t)))
            },
            TokenKind::Symbol(Symbol::Slash) => {
                let t = Slash::parse(parser)?;
                proof {
                    lemma_merge_one(span_of(&t));
                    assert(BinOp::Div(t).parts() =~= seq![span_of(&t)]);
                }
                Ok(Some(BinOp::Div(t)))
            },
            TokenKind::Symbol(Symbol::EqualEqual) => {
                let t = EqualEqual::parse(parser)?;
                proof {
                    lemma_merge_one(span_of(&t));
                    assert(BinOp::Eq(t).parts() =~= seq![span_of(&t)]);
                }
                Ok(Some(BinOp::Eq(t)))
            },
            _ => Ok(None),
        }
    }
}

/// The expression that `lhs`, the operator `op` and the operand `rhs` make:
/// `op` binds its operands before the operator of `lhs` where it binds
/// tighter, and after it where it does not.
pub fn attach(lhs: Expr, op: BinOp, rhs: Expr) -> (r: Expr)
    ensures
        r@ == attach_spec(lhs@, op, rhs@),
        forall|file: PathRef|
            placed(&lhs, file) && placed(&op, file) && placed(&rhs, file) ==> #[trigger] placed(
                &r,
                file,
            ),
{
    match lhs {
        Expr::BinOp(outer) => {
            if op.precedence() > outer.op.precedence() {
                let ghost whole = Expr::BinOp(outer);
                let BinOpExpr { lhs: first, op: outer_op, rhs: second } = outer;
                let inner = Expr::BinOp(BinOpExpr { lhs: second, op, rhs: Box::new(rhs) });
                let r = Expr::BinOp(BinOpExpr { lhs: first, op: outer_op, rhs: Box::new(inner) });
                proof {
                    assert(whole@ == expr_view(whole));
                    assert(rhs@ == expr_view(rhs));
                    assert(r@ == expr_view(r));
                    assert(expr_view(whole) == ExprView::BinOp(
                        BinOpExprView {
                            lhs: Box::new(expr_view(*first)),
                            op: outer_op,
                            rhs: Box::new(expr_view(*second)),
                        },
                    )) by {
                        reveal_with_fuel(expr_view, 3);
                        assert(outer_op@ == outer_op);
                    }
                    assert(expr_view(r) == attach_spec(whole@, op, rhs@)) by {
                        reveal_with_fuel(expr_view, 4);
                        assert(outer_op@ == outer_op);
                        assert(op@ == op);
                    }
                    assert forall|file: PathRef|
                        placed(&whole, file) && placed(&op, file) && placed(
                            &rhs,
                            file,
                        ) implies #[trigger] placed(&r, file) by {
                        lemma_binop_operands(outer, file);
                        lemma_binop_placed(*second, op, rhs, file);
                        lemma_binop_placed(*first, outer_op, inner, file);
                    }
                }
                r
            } else {
                let ghost whole = Expr::BinOp(outer);
                let r = Expr::BinOp(
                    BinOpExpr { lhs: Box::new(Expr::BinOp(outer)), op, rhs: Box::new(rhs) },
                );
                proof {
                    assert(whole@ == expr_view(whole));
                    assert(rhs@ == expr_view(rhs));
                    assert(r@ == expr_view(r));
                    assert(expr_view(whole) is BinOp) by {
                        reveal_with_fuel(expr_view, 2);
                    }
                    assert(expr_view(whole)->BinOp_0.op == outer.op) by {
                        reveal_with_fuel(expr_view, 3);
                        assert(outer.op@ == outer.op);
                    }
                    assert(expr_view(r) == attach_spec(whole@, op, rhs@)) by {
                        reveal_with_fuel(expr_view, 3);
                        assert(op@ == op);
                    }
                    assert forall|file: PathRef|
                        placed(&whole, file) && placed(&op, file) && placed(
                            &rhs,
                            file,
                        ) implies #[trigger] placed(&r, file) by {
                        lemma_binop_placed(whole, op, rhs, file);
                    }
                }
                r
            }
        },
        other => {
            let r = Expr::BinOp(BinOpExpr { lhs: Box::new(other), op, rhs: Box::new(rhs) });
            proof {
                assert(other@ == expr_view(other));
                assert(rhs@ == expr_view(rhs));
                assert(r@ == expr_view(r));
                assert(!(expr_view(other) is BinOp));
                assert(expr_view(r) == attach_spec(other@, op, rhs@)) by {
                    reveal_with_fuel(expr_view, 3);
                    assert(op@ == op);
                }
                assert forall|file: PathRef|
                    placed(&other, file) && placed(&op, file) && placed(
                        &rhs,
                        file,
                    ) implies #[trigger] placed(&r, file) by {
                    lemma_binop_placed(other, op, rhs, file);
                }
            }
            r
        },
    }
}

/// Reads a term: a literal, a variable or an expression in parentheses; or
/// takes `ident`, where an identifier was read before.
#[verifier::rlimit(80)]
pub fn parse_term(parser: &mut Parser, ident: Option<Ident>) -> (r: Result<Expr>)
    requires
        old(parser).wf(),
        seed_placed(ident, old(parser)@.file),
    ensures
        final(parser).wf(),
        expr_post(r, old(parser)@, final(parser)@, term_model(old(parser)@, ident), ident),
    decreases old(parser)@.remaining(), seeded(ident), 2nat,
{
    let ghost file = parser@.file;
    if let Some(ident) = ident {
        proof {
            lemma_variable_placed(ident, file);
            assert(Expr::Variable(ident)@ == expr_view(Expr::Variable(ident)));
        }
        return Ok(Expr::Variable(ident));
    }
    let ghost start = parser@;
    let tok = parser.peek_token()?;
    let ghost peeked = start.peek_token();
    assert(peeked.after == parser@);
    assert(peeked.result == Ok::<crate::token::Token, crate::error::ErrorView>(tok));
    match tok.kind() {
        TokenKind::Integer(_) | TokenKind::Float(_) | TokenKind::String(_) => {
            let literal = LiteralExpr::parse(parser)?;
            proof {
                lemma_literal_placed(literal, file);
                assert(literal@ == literal);
                assert(Expr::Literal(literal)@ == expr_view(Expr::Literal(literal)));
            }
            Ok(Expr::Literal(literal))
        },
        TokenKind::Ident(_) => {
            let ident = Ident::parse(parser)?;
            proof {
                lemma_variable_placed(ident, file);
                assert(ident@ == ident);
                assert(Expr::Variable(ident)@ == expr_view(Expr::Variable(ident)));
            }
            Ok(Expr::Variable(ident))
        },
        TokenKind::Symbol(Symbol::Open(Delim::Paren)) => {
            let paren = parse_paren(parser)?;
            proof {
                lemma_expr_is_placed_paren(paren, file);
            }
            Ok(Expr::Paren(paren))
        },
        _ => {
            proof {
                reveal_strlit("expected expression");
            }
            Err(parser.unexpected("expected expression", tok))
        },
    }
}

/// A placed expression in parentheses is a placed expression.
proof fn lemma_expr_is_placed_paren(paren: ParenExpr, file: PathRef)
    requires
        placed(&paren, file),
    ensures
        placed(&Expr::Paren(paren), file),
        Expr::Paren(paren)@ == ExprView::Paren(paren@),
{
    let e = Expr::Paren(paren);
    assert(paren.parts() == crate::ast::expr::paren_expr_parts(paren));
    assert(paren.sound() == crate::ast::expr::paren_expr_sound(paren));
    assert(paren@ == crate::ast::expr::paren_expr_view(paren));
    assert(expr_parts(e) =~= seq![merge_all(crate::ast::expr::paren_expr_parts(paren))]);
    lemma_parts_within(expr_parts(e), Some(file));
    lemma_expr_is_placed(e, file);
    assert(e@ == expr_view(e));
}

/// Reads an expression in parentheses.
pub fn parse_paren(parser: &mut Parser) -> (r: Result<ParenExpr>)
    requires
        old(parser).wf(),
    ensures
        final(parser).wf(),
        parse_post(r, old(parser)@, final(parser)@, paren_model(old(parser)@)),
        r is Ok ==> final(parser)@.remaining() < old(parser)@.remaining(),
    decreases old(parser)@.remaining(), 0nat, 1nat,
{
    let ghost file = parser@.file;
    let open = OpenParen::parse(parser)?;
    let inner = parse_bin_op(parser, None)?;
    let close = CloseParen::parse(parser)?;
    proof {
        lemma_paren_placed(open, inner, close, file);
    }
    Ok(ParenExpr { open, expr: Box::new(inner), close })
}

/// Reads a term and the members that follow it.
pub fn parse_member(parser: &mut Parser, ident: Option<Ident>) -> (r: Result<Expr>)
    requires
        old(parser).wf(),
        seed_placed(ident, old(parser)@.file),
    ensures
        final(parser).wf(),
        expr_post(r, old(parser)@, final(parser)@, member_model(old(parser)@, ident), ident),
    decreases old(parser)@.remaining(), seeded(ident), 3nat,
{
    let ghost file = parser@.file;
    let mut expr = parse_term(parser, ident)?;
    loop
        invariant
            parser.wf(),
            file == old(parser)@.file,
            follows(parser@, old(parser)@),
            advanced(parser@, old(parser)@, ident),
            placed(&expr, file),
            member_rest(parser@, expr@) == member_model(old(parser)@, ident),
        decreases parser@.remaining(),
    {
        let ghost before = parser@;
        let tok = parser.peek_token()?;
        if tok.kind() == TokenKind::Symbol(Symbol::Period) {
            let period = Period::parse(parser)?;
            let ident = Ident::parse(parser)?;
            proof {
                lemma_member_placed(expr, period, ident, file);
                let next = Expr::Member(MemberExpr { expr: Box::new(expr), period, ident });
                assert(next@ == expr_view(next));
            }
            expr = Expr::Member(MemberExpr { expr: Box::new(expr), period, ident });
        } else {
            return Ok(expr);
        }
    }
}

/// Reads an expression without binary operators: a term with its members
/// and, where a token that starts an expression follows, its arguments.
#[verifier::rlimit(60)]
pub fn parse_call(parser: &mut Parser, ident: Option<Ident>) -> (r: Result<Expr>)
    requires
        old(parser).wf(),
        seed_placed(ident, old(parser)@.file),
    ensures
        final(parser).wf(),
        expr_post(r, old(parser)@, final(parser)@, call_model(old(parser)@, ident), ident),
    decreases old(parser)@.remaining(), seeded(ident), 4nat,
{
    let ghost file = parser@.file;
    let ghost start = parser@;
    let expr = parse_member(parser, ident)?;
    let ghost callee = member_model(start, ident);
    assert(callee.result == Ok::<ExprView, crate::error::ErrorView>(expr@));
    assert(callee.after == parser@);
    let tok = parser.peek_token()?;
    let ghost peeked = callee.after.peek_token();
    assert(peeked.after == parser@);
    if tok.kind().starts_expr() {
        assert(advanced(peeked.after, start, ident));
        let args = parse_arguments(parser)?;
        proof {
            lemma_call_placed(expr, args, file);
            let call = Expr::Call(CallExpr { expr: Box::new(expr), args });
            assert(call@ == expr_view(call));
        }
        Ok(Expr::Call(CallExpr { expr: Box::new(expr), args }))
    } else {
        Ok(expr)
    }
}

/// Reads the arguments of a call: expressions with commas between them, up
/// to the first token that neither starts an expression nor is a comma.
pub fn parse_arguments(parser: &mut Parser) -> (r: Result<Punctuated<Expr, Comma>>)
    requires
        old(parser).wf(),
    ensures
        final(parser).wf(),
        follows(final(parser)@, old(parser)@),
        crate::parser::told(r),
        final(parser)@ == arguments_model(old(parser)@).after,
        match r {
            Ok(args) => {
                &&& arguments_model(old(parser)@).result == Ok::<
                    PunctuatedView<ExprView, Comma>,
                    crate::error::ErrorView,
                >(arguments_view(&args))
                &&& arguments_placed(&args, old(parser)@.file)
                &&& spans_elements(&args, final(parser)@.position(), old(parser)@.file)
            },
            Err(error) => arguments_model(old(parser)@).result == Err::<
                PunctuatedView<ExprView, Comma>,
                crate::error::ErrorView,
            >(error@),
        },
    decreases old(parser)@.remaining(), 0nat, 7nat,
{
    let ghost file = parser@.file;
    let mut span: Option<Span> = None;
    let ghost mut spans: Seq<Span> = Seq::empty();
    let mut items: Vec<Expr> = Vec::new();
    let mut punct: Vec<Comma> = Vec::new();
    let end = ArgumentsEnd;
    proof {
        assert(expr_views(items@) =~= Seq::<ExprView>::empty());
        assert(punct@ =~= Seq::<Comma>::empty());
        assert(element_spans(items@, punct@) =~= spans);
    }
    loop
        invariant
            parser.wf(),
            file == old(parser)@.file,
            follows(parser@, old(parser)@),
            items@.len() == punct@.len(),
            spans == element_spans(items@, punct@),
            all_within(spans, Some(file)),
            span is None <==> spans.len() == 0,
            span matches Some(a) ==> a == merge_all(spans) && a.well_formed() && a.file_path
                == Some(file),
            forall|i: int| 0 <= i < items@.len() ==> placed(&#[trigger] items@[i], file),
            forall|i: int| 0 <= i < punct@.len() ==> placed(&#[trigger] punct@[i], file),
            arguments_rest(parser@, spans, expr_views(items@), punct@) == arguments_model(
                old(parser)@,
            ),
        decreases parser@.remaining(),
    {
        let ghost seen_items = expr_views(items@);
        let ghost old_items = items@;
        let ghost old_punct = punct@;
        let tok = parser.peek_token()?;
        if end.terminate(&tok.kind()) {
            let whole = match span {
                Some(a) => a,
                None => parser.span(),
            };
            return Ok(Punctuated { items, punct, span: whole });
        }
        let item = parse_bin_op(parser, None)?;
        proof {
            lemma_expr_placed(item, file);
            lemma_expr_view_parts(item);
            assert(span_of(&item) == merge_all(expr_parts(item))) by {
                assert(item.parts() == expr_parts(item));
            }
        }
        let item_span = span_of_expr(&item);
        proof {
            lemma_merge_push(spans, item_span);
        }
        let with_item = grow(span, item_span);
        items.push(item);
        proof {
            assert(expr_views(items@) =~= seen_items.push(item@));
            assert(element_spans(items@, punct@) =~= spans.push(item_span)) by {
                assert forall|k: int| 0 <= k < spans.len() implies #[trigger] element_spans(
                    items@,
                    punct@,
                )[k] == spans[k] by {
                    if k % 2 == 0 {
                        assert(items@[k / 2] == old_items[k / 2]);
                    }
                }
            }
        }
        let tok = parser.peek_token()?;
        if end.terminate(&tok.kind()) {
            return Ok(Punctuated { items, punct, span: with_item });
        }
        let comma = Comma::parse(parser)?;
        proof {
            assert(comma@ == comma);
            comma.lemma_span_in();
            lemma_merge_push(spans.push(item_span), comma.span);
        }
        let with_both = with_item.join(comma.span);
        punct.push(comma);
        proof {
            assert(element_spans(items@, punct@) =~= spans.push(item_span).push(comma.span)) by {
                assert forall|k: int| 0 <= k <= spans.len() implies #[trigger] element_spans(
                    items@,
                    punct@,
                )[k] == spans.push(item_span)[k] by {
                    if k % 2 == 1 {
                        assert(punct@[k / 2] == old_punct[k / 2]);
                    }
                }
            }
            spans = spans.push(item_span).push(comma.span);
        }
        span = Some(with_both);
    }
}

/// Reads an expression: operands with binary operators between them. An
/// operator that binds tighter than the one before it takes the operand
/// between them; one that does not takes all that was read so far. `ident`
/// is the identifier that the expression starts with, where it was read
/// before.
pub fn parse_bin_op(parser: &mut Parser, ident: Option<Ident>) -> (r: Result<Expr>)
    requires
        old(parser).wf(),
        seed_placed(ident, old(parser)@.file),
    ensures
        final(parser).wf(),
        expr_post(r, old(parser)@, final(parser)@, binop_model(old(parser)@, ident), ident),
    decreases old(parser)@.remaining(), seeded(ident), 5nat,
{
    let ghost file = parser@.file;
    let mut lhs = parse_call(parser, ident)?;
    loop
        invariant
            parser.wf(),
            file == old(parser)@.file,
            follows(parser@, old(parser)@),
            advanced(parser@, old(parser)@, ident),
            placed(&lhs, file),
            binop_rest(parser@, lhs@) == binop_model(old(parser)@, ident),
        decreases parser@.remaining(),
    {
        let op = match BinOp::try_parse(parser)? {
            Some(op) => op,
            None => {
                return Ok(lhs);
            },
        };
        let rhs = parse_call(parser, None)?;
        lhs = attach(lhs, op, rhs);
    }
}

impl Parse for ParenExpr {
    open spec fn parsed(before: ParserView) -> Outcome<ParenExprView> {
        paren_model(before)
    }

    open spec fn advances() -> bool {
        true
    }

    fn parse(parser: &mut Parser) -> (r: Result<Self>) {
        proof {
            assert(Self::parsed(parser@) == paren_model(parser@));
            assert(Self::advances());
        }
        parse_paren(parser)
    }
}

impl Parse for Expr {
    open spec fn parsed(before: ParserView) -> Outcome<ExprView> {
        binop_model(before, None)
    }

    open spec fn advances() -> bool {
        true
    }

    fn parse(parser: &mut Parser) -> (r: Result<Self>) {
        proof {
            assert(Self::parsed(parser@) == binop_model(parser@, None));
            assert(Self::advances());
        }
        parse_bin_op(parser, None)
    }
}

impl Expr {
    /// Reads the expression that starts with `ident`, which was read before.
    pub fn parse_with_ident(parser: &mut Parser, ident: Ident) -> (r: Result<Self>)
        requires
            old(parser).wf(),
            placed(&ident, old(parser)@.file),
        ensures
            final(parser).wf(),
            expr_post(
                r,
                old(parser)@,
                final(parser)@,
                binop_model(old(parser)@, Some(ident)),
                Some(ident),
            ),
    {
        parse_bin_op(parser, Some(ident))
    }
}

} // verus!
