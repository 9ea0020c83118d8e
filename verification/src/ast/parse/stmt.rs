//! How statements are read.

use crate::ast::delim::{tupled_model, Tupled};
use crate::ast::expr::{Expr, ExprView};
use crate::ast::parse::expr::{binop_model, parse_bin_op};
use crate::ast::placement::{
    lemma_block_placed, lemma_ln_placed, lemma_stmt_assign, lemma_stmt_assign_new, lemma_stmt_expr,
    lemma_stmt_ln, lemma_stmt_placed,
};
use crate::ast::parse::ty::{lemma_type_placed, type_model};
use crate::ast::punctuated::{punctuated_model, Punctuated, PunctuatedView, Terminated};
use crate::ast::stmt::{
    stmt_views, Argument, AssignNewStmt, AssignNewStmtView, AssignStmt, AssignStmtView, Block,
    BlockView, DefaultEvent, DefaultEvents, DefaultEventsView, ExprStmt, ExprStmtView,
    ListenerArgument, ListenerArguments, ListenerArgumentsView, LnStmt, LnStmtView, Stmt, StmtView,
    WhereClause, WhereClauseView,
};
use crate::ast::ty::Type;
use crate::error::{ErrorView, Result};
use crate::lexer::unexpected;
use crate::parse::{parse_post, parsed_as, placed, ByType, Parse, ThenEol};
use crate::parser::{done, fail, follows, stalled, Outcome, Parser, ParserView};
use crate::span::{lemma_merge_one, lemma_parts_within, merge_all, span_of, Span, Spanned};
use crate::spanned_option::{SpannedOption, SpannedOptionView};
use crate::string_allocator::PathRef;
use crate::token::{Delim, Keyword, Symbol, TokenKind};
use crate::token_types::{
    CloseBrace, CloseParen, Colon, ColonEqual, Comma, Eol, Equal, Gt, Ident, Ln, Lt, OpenBrace,
    OpenParen, Where,
};
use vstd::prelude::*;

verus! {

/// The name of a default event: an identifier.
pub open spec fn default_event_model(s: ParserView) -> Outcome<DefaultEvent> {
    let ident = Ident::model(s);
    match ident.result {
        Ok(i) => done(DefaultEvent { ident: i }, ident.after),
        Err(error) => fail(error, ident.after),
    }
}

/// The default events of a listener: names with commas between them, between
/// `<` and `>`.
pub open spec fn default_events_model(s: ParserView) -> Outcome<DefaultEventsView> {
    let events = tupled_model::<Punctuated<DefaultEvent, Comma>, Terminated<TokenKind>>(
        &Terminated { end: TokenKind::Symbol(Symbol::Gt) },
        s,
    );
    match events.result {
        Ok(e) => done(DefaultEventsView { events: e }, events.after),
        Err(error) => fail(error, events.after),
    }
}

/// The span of the default events that hold `v`.
pub open spec fn default_events_span(v: DefaultEventsView) -> Span {
    merge_all(seq![v.events.open.span, v.events.contents.span, v.events.close.span])
}

/// The default events of a listener, where the next token is `<`; else
/// nothing, at the place of the cursor behind the token that was looked at.
pub open spec fn default_events_if_next(s: ParserView) -> Outcome<
    SpannedOptionView<DefaultEventsView>,
> {
    let peeked = s.peek_token();
    match peeked.result {
        Ok(token) => if token.kind == TokenKind::Symbol(Symbol::Lt) {
            let events = default_events_model(peeked.after);
            match events.result {
                Ok(e) => done(
                    SpannedOptionView { value: Some(e), span: default_events_span(e) },
                    events.after,
                ),
                Err(error) => fail(error, events.after),
            }
        } else {
            done(SpannedOptionView { value: None, span: peeked.after.position() }, peeked.after)
        },
        Err(error) => fail(error, peeked.after),
    }
}

/// An argument of a listener: a type alone, or a name, a colon and a type.
pub open spec fn listener_argument_model(s: ParserView) -> Outcome<ListenerArgument> {
    let peeked = s.peek_token();
    match peeked.result {
        Ok(token) => match token.kind {
            TokenKind::Ident(_) => {
                let ident = Ident::model(peeked.after);
                match ident.result {
                    Ok(i) => {
                        let after = ident.after.peek_token();
                        match after.result {
                            Ok(next) => if next.kind == TokenKind::Symbol(Symbol::Colon) {
                                let colon = Colon::model(after.after);
                                match colon.result {
                                    Ok(c) => {
                                        let ty = type_model(colon.after);
                                        match ty.result {
                                            Ok(t) => done(
                                                ListenerArgument::Args(
                                                    Argument { ident: i, colon: c, ty: t },
                                                ),
                                                ty.after,
                                            ),
                                            Err(error) => fail(error, ty.after),
                                        }
                                    },
                                    Err(error) => fail(error, colon.after),
                                }
                            } else {
                                done(ListenerArgument::Expanded(Type::Ident(i)), after.after)
                            },
                            Err(error) => fail(error, after.after),
                        }
                    },
                    Err(error) => fail(error, ident.after),
                }
            },
            _ => fail(
                unexpected("expected 'listener argument'"@, token, peeked.after.table),
                peeked.after,
            ),
        },
        Err(error) => fail(error, peeked.after),
    }
}

/// The arguments of a listener: arguments with commas between them, in
/// parentheses.
pub open spec fn listener_arguments_model(s: ParserView) -> Outcome<ListenerArgumentsView> {
    let open = OpenParen::model(s);
    match open.result {
        Ok(o) => {
            let args = punctuated_model::<ListenerArgument, Comma, ByType, ByType, TokenKind>(
                &ByType,
                &ByType,
                &TokenKind::Symbol(Symbol::Close(Delim::Paren)),
                open.after,
            );
            match args.result {
                Ok(a) => {
                    let close = CloseParen::model(args.after);
                    match close.result {
                        Ok(c) => done(
                            ListenerArgumentsView { open: o, args: a, close: c },
                            close.after,
                        ),
                        Err(error) => fail(error, close.after),
                    }
                },
                Err(error) => fail(error, args.after),
            }
        },
        Err(error) => fail(error, open.after),
    }
}

/// The bounds of a listener: `where`, then conditions with commas between
/// them, up to the opening brace. Ends of line are passed over after
/// `where`, after each condition and after each comma.
pub open spec fn where_clause_model(s: ParserView) -> Outcome<WhereClauseView> {
    let keyword = Where::model(s);
    match keyword.result {
        Ok(w) => {
            let skipped = keyword.after.skip_eol();
            match skipped.result {
                Ok(_) => {
                    let bounds = punctuated_model::<Expr, Comma, ThenEol, ThenEol, TokenKind>(
                        &ThenEol,
                        &ThenEol,
                        &TokenKind::Symbol(Symbol::Open(Delim::Brace)),
                        skipped.after,
                    );
                    match bounds.result {
                        Ok(b) => {
                            let last = bounds.after.skip_eol();
                            match last.result {
                                Ok(_) => done(WhereClauseView { _where: w, bounds: b }, last.after),
                                Err(error) => fail(error, last.after),
                            }
                        },
                        Err(error) => fail(error, bounds.after),
                    }
                },
                Err(error) => fail(error, skipped.after),
            }
        },
        Err(error) => fail(error, keyword.after),
    }
}

/// The span of the bounds that hold `v`.
pub open spec fn where_clause_span(v: WhereClauseView) -> Span {
    merge_all(seq![v._where.span, v.bounds.span])
}

/// The bounds of a listener, where the next token is `where`; else nothing,
/// at the place of the cursor behind the token that was looked at.
pub open spec fn where_clause_if_next(s: ParserView) -> Outcome<SpannedOptionView<WhereClauseView>> {
    let peeked = s.peek_token();
    match peeked.result {
        Ok(token) => if token.kind == TokenKind::Keyword(Keyword::Where) {
            let bounds = where_clause_model(peeked.after);
            match bounds.result {
                Ok(b) => done(
                    SpannedOptionView { value: Some(b), span: where_clause_span(b) },
                    bounds.after,
                ),
                Err(error) => fail(error, bounds.after),
            }
        } else {
            done(SpannedOptionView { value: None, span: peeked.after.position() }, peeked.after)
        },
        Err(error) => fail(error, peeked.after),
    }
}

/// What follows the sign of an assignment: an expression and the end of
/// the line.
pub open spec fn assigned_model(s: ParserView) -> Outcome<(ExprView, Eol)> {
    let expr = binop_model(s, None);
    match expr.result {
        Ok(e) => {
            let eol = Eol::model(expr.after);
            match eol.result {
                Ok(l) => done((e, l), eol.after),
                Err(error) => fail(error, eol.after),
            }
        },
        Err(error) => fail(error, expr.after),
    }
}

/// What follows the name of a first assignment: `:=`, an expression and the
/// end of the line.
pub open spec fn assign_new_rest(s: ParserView, ident: Ident) -> Outcome<AssignNewStmtView> {
    let sign = ColonEqual::model(s);
    match sign.result {
        Ok(equal) => {
            let rest = assigned_model(sign.after);
            match rest.result {
                Ok((expr, eol)) => done(AssignNewStmtView { ident, equal, expr, eol }, rest.after),
                Err(error) => fail(error, rest.after),
            }
        },
        Err(error) => fail(error, sign.after),
    }
}

/// What follows the name of an assignment: `=`, an expression and the end
/// of the line.
pub open spec fn assign_rest(s: ParserView, ident: Ident) -> Outcome<AssignStmtView> {
    let sign = Equal::model(s);
    match sign.result {
        Ok(equal) => {
            let rest = assigned_model(sign.after);
            match rest.result {
                Ok((expr, eol)) => done(AssignStmtView { ident, equal, expr, eol }, rest.after),
                Err(error) => fail(error, rest.after),
            }
        },
        Err(error) => fail(error, sign.after),
    }
}

/// A first assignment: a name, `:=`, an expression, the end of the line.
pub open spec fn assign_new_model(s: ParserView) -> Outcome<AssignNewStmtView> {
    let ident = Ident::model(s);
    match ident.result {
        Ok(i) => assign_new_rest(ident.after, i),
        Err(error) => fail(error, ident.after),
    }
}

/// An assignment: a name, `=`, an expression, the end of the line.
pub open spec fn assign_model(s: ParserView) -> Outcome<AssignStmtView> {
    let ident = Ident::model(s);
    match ident.result {
        Ok(i) => assign_rest(ident.after, i),
        Err(error) => fail(error, ident.after),
    }
}

/// An expression that stands as a statement.
pub open spec fn expr_stmt_model(s: ParserView, seed: Option<Ident>) -> Outcome<ExprStmtView> {
    let expr = binop_model(s, seed);
    match expr.result {
        Ok(e) => done(ExprStmtView { expr: e }, expr.after),
        Err(error) => fail(error, expr.after),
    }
}

/// A statement that starts with an identifier: a first assignment where
/// `:=` follows it, an assignment where `=` follows it, else an expression
/// that starts with it.
pub open spec fn ident_stmt_model(s: ParserView) -> Outcome<StmtView> {
    let ident = Ident::model(s);
    match ident.result {
        Ok(i) => {
            let peeked = ident.after.peek_token();
            match peeked.result {
                Ok(token) => match token.kind {
                    TokenKind::Symbol(Symbol::ColonEqual) => {
                        let stmt = assign_new_rest(peeked.after, i);
                        match stmt.result {
                            Ok(a) => done(StmtView::AssignNew(a), stmt.after),
                            Err(error) => fail(error, stmt.after),
                        }
                    },
                    TokenKind::Symbol(Symbol::Equal) => {
                        let stmt = assign_rest(peeked.after, i);
                        match stmt.result {
                            Ok(a) => done(StmtView::Assign(a), stmt.after),
                            Err(error) => fail(error, stmt.after),
                        }
                    },
                    _ => {
                        let stmt = expr_stmt_model(peeked.after, Some(i));
                        match stmt.result {
                            Ok(e) => done(StmtView::Expr(e), stmt.after),
                            Err(error) => fail(error, stmt.after),
                        }
                    },
                },
                Err(error) => fail(error, peeked.after),
            }
        },
        Err(error) => fail(error, ident.after),
    }
}

/// A statement, by its first token: the declaration of a listener after
/// `ln`; an assignment or an expression after an identifier; an expression
/// after any other token that starts one.
pub open spec fn stmt_model(s: ParserView) -> Outcome<StmtView>
    decreases s.remaining(), 3nat,
{
    let peeked = s.peek_token();
    match peeked.result {
        Ok(token) => match token.kind {
            TokenKind::Keyword(Keyword::Ln) => if peeked.after.remaining() <= s.remaining() {
                let ln = ln_model(peeked.after);
                match ln.result {
                    Ok(l) => done(StmtView::Ln(l), ln.after),
                    Err(error) => fail(error, ln.after),
                }
            } else {
                stalled(peeked.after)
            },
            TokenKind::Ident(_) => ident_stmt_model(peeked.after),
            _ => if token.kind.starts_expr_spec() {
                let stmt = expr_stmt_model(peeked.after, None);
                match stmt.result {
                    Ok(e) => done(StmtView::Expr(e), stmt.after),
                    Err(error) => fail(error, stmt.after),
                }
            } else {
                fail(unexpected("expected statement"@, token, peeked.after.table), peeked.after)
            },
        },
        Err(error) => fail(error, peeked.after),
    }
}

/// What stands before the block of a listener: `ln`, the name, the default
/// events if there are any, the arguments, and the bounds if there are any,
/// with the ends of line after the arguments and after the bounds.
pub struct LnHead {
    pub ln: Ln,
    pub ident: Ident,
    pub default_events: SpannedOptionView<DefaultEventsView>,
    pub args: ListenerArgumentsView,
    pub where_clause: SpannedOptionView<WhereClauseView>,
}

/// The head of the declaration of a listener.
pub open spec fn ln_head_model(s: ParserView) -> Outcome<LnHead> {
    let ln = Ln::model(s);
    match ln.result {
        Ok(l) => {
            let ident = Ident::model(ln.after);
            match ident.result {
                Ok(i) => {
                    let events = default_events_if_next(ident.after);
                    match events.result {
                        Ok(d) => {
                            let args = listener_arguments_model(events.after);
                            match args.result {
                                Ok(a) => {
                                    let skipped = args.after.skip_eol();
                                    match skipped.result {
                                        Ok(_) => {
                                            let bounds = where_clause_if_next(skipped.after);
                                            match bounds.result {
                                                Ok(w) => {
                                                    let last = bounds.after.skip_eol();
                                                    match last.result {
                                                        Ok(_) => done(
                                                            LnHead {
                                                                ln: l,
                                                                ident: i,
                                                                default_events: d,
                                                                args: a,
                                                                where_clause: w,
                                                            },
                                                            last.after,
                                                        ),
                                                        Err(error) => fail(error, last.after),
                                                    }
                                                },
                                                Err(error) => fail(error, bounds.after),
                                            }
                                        },
                                        Err(error) => fail(error, skipped.after),
                                    }
                                },
                                Err(error) => fail(error, args.after),
                            }
                        },
                        Err(error) => fail(error, events.after),
                    }
                },
                Err(error) => fail(error, ident.after),
            }
        },
        Err(error) => fail(error, ln.after),
    }
}

/// The declaration of a listener: its head and its block.
pub open spec fn ln_model(s: ParserView) -> Outcome<LnStmtView>
    decreases s.remaining(), 2nat,
{
    let head = ln_head_model(s);
    match head.result {
        Ok(h) => if head.after.remaining() < s.remaining() {
            let block = block_model(head.after);
            match block.result {
                Ok(b) => done(
                    LnStmtView {
                        ln: h.ln,
                        ident: h.ident,
                        default_events: h.default_events,
                        args: h.args,
                        where_clause: h.where_clause,
                        block: b,
                    },
                    block.after,
                ),
                Err(error) => fail(error, block.after),
            }
        } else {
            stalled(head.after)
        },
        Err(error) => fail(error, head.after),
    }
}

/// A block: an opening brace, statements, a closing brace.
pub open spec fn block_model(s: ParserView) -> Outcome<BlockView>
    decreases s.remaining(), 5nat,
{
    let open = OpenBrace::model(s);
    match open.result {
        Ok(o) => if open.after.remaining() < s.remaining() {
            block_rest(open.after, o, Seq::empty())
        } else {
            stalled(open.after)
        },
        Err(error) => fail(error, open.after),
    }
}

/// The rest of a block, after the statements read so far. Before each
/// statement, and before the closing brace, ends of line are passed over.
pub open spec fn block_rest(s: ParserView, open: OpenBrace, stmts: Seq<StmtView>) -> Outcome<
    BlockView,
>
    decreases s.remaining(), 4nat,
{
    let skipped = s.skip_eol();
    match skipped.result {
        Ok(_) => {
            let peeked = skipped.after.peek_token();
            match peeked.result {
                Ok(token) => if token.kind == TokenKind::Symbol(Symbol::Close(Delim::Brace)) {
                    let close = CloseBrace::model(peeked.after);
                    match close.result {
                        Ok(c) => done(BlockView { open, stmts, close: c }, close.after),
                        Err(error) => fail(error, close.after),
                    }
                } else if peeked.after.remaining() <= s.remaining() {
                    let stmt = stmt_model(peeked.after);
                    match stmt.result {
                        Ok(x) => if stmt.after.remaining() < s.remaining() {
                            block_rest(stmt.after, open, stmts.push(x))
                        } else {
                            stalled(stmt.after)
                        },
                        Err(error) => fail(error, stmt.after),
                    }
                } else {
                    stalled(peeked.after)
                },
                Err(error) => fail(error, peeked.after),
            }
        },
        Err(error) => fail(error, skipped.after),
    }
}

impl Parse for DefaultEvent {
    open spec fn parsed(before: ParserView) -> Outcome<DefaultEvent> {
        default_event_model(before)
    }

    open spec fn advances() -> bool {
        true
    }

    fn parse(parser: &mut Parser) -> (r: Result<Self>) {
        proof {
            assert(Self::parsed(parser@) == default_event_model(parser@));
            assert(Self::advances());
        }
        let ghost file = parser@.file;
        let ident = Ident::parse(parser)?;
        let node = DefaultEvent { ident };
        proof {
            assert(node.parts() =~= seq![span_of(&ident)]);
            lemma_parts_within(node.parts(), Some(file));
            assert(ident@ == ident);
            assert(node@ == node);
        }
        Ok(node)
    }
}

/// The span of default events is that of the brackets and the list between
/// them.
pub proof fn lemma_default_events_span(node: DefaultEvents, file: PathRef)
    requires
        placed(&node, file),
    ensures
        span_of(&node) == default_events_span(node@),
{
    let t = node.events;
    assert(node.parts() =~= seq![span_of(&t)]);
    lemma_merge_one(span_of(&t));
    assert(t.parts() =~= seq![span_of(&t.open), span_of(&t.contents), span_of(&t.close)]);
    assert(t.open.parts() == seq![t.open.span]);
    assert(t.close.parts() == seq![t.close.span]);
    assert(t.contents.parts() == seq![t.contents.span]);
    lemma_merge_one(t.open.span);
    lemma_merge_one(t.close.span);
    lemma_merge_one(t.contents.span);
    assert(t.open@ == t.open);
    assert(t.close@ == t.close);
}

impl Parse for DefaultEvents {
    open spec fn parsed(before: ParserView) -> Outcome<DefaultEventsView> {
        default_events_model(before)
    }

    open spec fn advances() -> bool {
        true
    }

    fn parse(parser: &mut Parser) -> (r: Result<Self>) {
        proof {
            assert(Self::parsed(parser@) == default_events_model(parser@));
            assert(Self::advances());
        }
        let ghost file = parser@.file;
        let events = Tupled::parse_with(
            parser,
            Terminated { end: TokenKind::Symbol(Symbol::Gt) },
        )?;
        let node = DefaultEvents { events };
        proof {
            assert(node.parts() =~= seq![span_of(&events)]);
            lemma_parts_within(node.parts(), Some(file));
        }
        Ok(node)
    }
}

impl Parse for ListenerArgument {
    open spec fn parsed(before: ParserView) -> Outcome<ListenerArgument> {
        listener_argument_model(before)
    }

    open spec fn advances() -> bool {
        true
    }

    fn parse(parser: &mut Parser) -> (r: Result<Self>) {
        proof {
            assert(Self::parsed(parser@) == listener_argument_model(parser@));
            assert(Self::advances());
        }
        let ghost file = parser@.file;
        let tok = parser.peek_token()?;
        match tok.kind() {
            TokenKind::Ident(_) => {
                let ident = Ident::parse(parser)?;
                let next = parser.peek_token()?;
                if next.kind() == TokenKind::Symbol(Symbol::Colon) {
                    let colon = Colon::parse(parser)?;
                    let ty = Type::parse(parser)?;
                    let argument = Argument { ident, colon, ty };
                    let node = ListenerArgument::Args(argument);
                    proof {
                        assert(argument.parts() =~= seq![
                            span_of(&ident),
                            span_of(&colon),
                            span_of(&ty),
                        ]);
                        lemma_parts_within(argument.parts(), Some(file));
                        assert(node.parts() =~= seq![span_of(&argument)]);
                        lemma_parts_within(node.parts(), Some(file));
                        assert(ident@ == ident);
                        assert(colon@ == colon);
                        assert(ty@ == ty);
                        assert(node@ == node);
                    }
                    Ok(node)
                } else {
                    let node = ListenerArgument::Expanded(Type::Ident(ident));
                    proof {
                        lemma_type_placed(ident, file);
                        assert(node.parts() =~= seq![span_of(&Type::Ident(ident))]);
                        lemma_parts_within(node.parts(), Some(file));
                        assert(ident@ == ident);
                        assert(node@ == node);
                    }
                    Ok(node)
                }
            },
            _ => {
                proof {
                    reveal_strlit("expected 'listener argument'");
                }
                Err(parser.unexpected("expected 'listener argument'", tok))
            },
        }
    }
}

impl Parse for ListenerArguments {
    open spec fn parsed(before: ParserView) -> Outcome<ListenerArgumentsView> {
        listener_arguments_model(before)
    }

    open spec fn advances() -> bool {
        true
    }

    fn parse(parser: &mut Parser) -> (r: Result<Self>) {
        proof {
            assert(Self::parsed(parser@) == listener_arguments_model(parser@));
            assert(Self::advances());
        }
        let ghost file = parser@.file;
        let ghost s0 = parser@;
        let open = OpenParen::parse(parser)?;
        let ghost m1 = OpenParen::model(s0);
        assert(m1.after == parser@ && m1.result == Ok::<OpenParen, ErrorView>(open));
        let args = Punctuated::parse_terminated(
            parser,
            TokenKind::Symbol(Symbol::Close(Delim::Paren)),
        )?;
        let ghost m2 = punctuated_model::<ListenerArgument, Comma, ByType, ByType, TokenKind>(
            &ByType,
            &ByType,
            &TokenKind::Symbol(Symbol::Close(Delim::Paren)),
            m1.after,
        );
        assert(m2.after == parser@ && m2.result == Ok::<
            PunctuatedView<ListenerArgument, Comma>,
            ErrorView,
        >(args@));
        let close = CloseParen::parse(parser)?;
        let node = ListenerArguments { open, args, close };
        proof {
            assert(node.parts() =~= seq![span_of(&open), span_of(&args), span_of(&close)]);
            lemma_parts_within(node.parts(), Some(file));
            assert(open@ == open);
            assert(close@ == close);
        }
        Ok(node)
    }
}

/// The span of bounds is that of `where` and of the list after it.
pub proof fn lemma_where_clause_span(node: WhereClause, file: PathRef)
    requires
        placed(&node, file),
    ensures
        span_of(&node) == where_clause_span(node@),
{
    assert(node.parts() =~= seq![span_of(&node._where), span_of(&node.bounds)]);
    assert(node._where.parts() == seq![node._where.span]);
    assert(node.bounds.parts() == seq![node.bounds.span]);
    lemma_merge_one(node._where.span);
    lemma_merge_one(node.bounds.span);
    assert(node._where@ == node._where);
}

impl Parse for WhereClause {
    open spec fn parsed(before: ParserView) -> Outcome<WhereClauseView> {
        where_clause_model(before)
    }

    open spec fn advances() -> bool {
        true
    }

    fn parse(parser: &mut Parser) -> (r: Result<Self>) {
        proof {
            assert(Self::parsed(parser@) == where_clause_model(parser@));
            assert(Self::advances());
        }
        let ghost file = parser@.file;
        let _where = Where::parse(parser)?;
        parser.skip_eol()?;
        let bounds = Punctuated::parse_terminated_with(
            parser,
            ThenEol,
            ThenEol,
            TokenKind::Symbol(Symbol::Open(Delim::Brace)),
        )?;
        parser.skip_eol()?;
        let node = WhereClause { _where, bounds };
        proof {
            assert(node.parts() =~= seq![span_of(&_where), span_of(&bounds)]);
            lemma_parts_within(node.parts(), Some(file));
            assert(_where@ == _where);
        }
        Ok(node)
    }
}

/// Reads what follows the sign of an assignment: an expression and the end
/// of the line.
pub fn parse_assigned(parser: &mut Parser) -> (r: Result<(Expr, Eol)>)
    requires
        old(parser).wf(),
    ensures
        final(parser).wf(),
        follows(final(parser)@, old(parser)@),
        crate::parser::told(r),
        final(parser)@ == assigned_model(old(parser)@).after,
        match r {
            Ok((expr, eol)) => {
                &&& assigned_model(old(parser)@).result == Ok::<(ExprView, Eol), ErrorView>(
                    (expr@, eol),
                )
                &&& placed(&expr, old(parser)@.file)
                &&& placed(&eol, old(parser)@.file)
                &&& final(parser)@.remaining() < old(parser)@.remaining()
            },
            Err(error) => assigned_model(old(parser)@).result == Err::<(ExprView, Eol), ErrorView>(
                error@,
            ),
        },
{
    let expr = parse_bin_op(parser, None)?;
    let eol = Eol::parse(parser)?;
    proof {
        assert(eol@ == eol);
    }
    Ok((expr, eol))
}

/// A first assignment is placed where its parts are.
pub proof fn lemma_assign_new_placed(
    ident: Ident,
    equal: ColonEqual,
    expr: Expr,
    eol: Eol,
    file: PathRef,
)
    requires
        placed(&ident, file),
        placed(&equal, file),
        placed(&expr, file),
        placed(&eol, file),
    ensures
        ({
            let node = AssignNewStmt { ident, equal, expr, eol };
            &&& placed(&node, file)
            &&& node@ == (AssignNewStmtView { ident, equal, expr: expr@, eol })
        }),
{
    let node = AssignNewStmt { ident, equal, expr, eol };
    assert(node.parts() =~= seq![span_of(&ident), span_of(&equal), span_of(&expr), span_of(&eol)]);
    lemma_parts_within(node.parts(), Some(file));
    assert(ident@ == ident);
    assert(equal@ == equal);
    assert(eol@ == eol);
}

/// An assignment is placed where its parts are.
pub proof fn lemma_assign_placed(ident: Ident, equal: Equal, expr: Expr, eol: Eol, file: PathRef)
    requires
        placed(&ident, file),
        placed(&equal, file),
        placed(&expr, file),
        placed(&eol, file),
    ensures
        ({
            let node = AssignStmt { ident, equal, expr, eol };
            &&& placed(&node, file)
            &&& node@ == (AssignStmtView { ident, equal, expr: expr@, eol })
        }),
{
    let node = AssignStmt { ident, equal, expr, eol };
    assert(node.parts() =~= seq![span_of(&ident), span_of(&equal), span_of(&expr), span_of(&eol)]);
    lemma_parts_within(node.parts(), Some(file));
    assert(ident@ == ident);
    assert(equal@ == equal);
    assert(eol@ == eol);
}

/// Reads what follows the name `ident` of a first assignment.
pub fn parse_assign_new_rest(parser: &mut Parser, ident: Ident) -> (r: Result<AssignNewStmt>)
    requires
        old(parser).wf(),
        placed(&ident, old(parser)@.file),
    ensures
        final(parser).wf(),
        parse_post(r, old(parser)@, final(parser)@, assign_new_rest(old(parser)@, ident)),
        r is Ok ==> final(parser)@.remaining() < old(parser)@.remaining(),
{
    let ghost file = parser@.file;
    let equal = ColonEqual::parse(parser)?;
    proof {
        assert(equal@ == equal);
    }
    let (expr, eol) = parse_assigned(parser)?;
    proof {
        lemma_assign_new_placed(ident, equal, expr, eol, file);
    }
    Ok(AssignNewStmt { ident, equal, expr, eol })
}

/// Reads what follows the name `ident` of an assignment.
pub fn parse_assign_rest(parser: &mut Parser, ident: Ident) -> (r: Result<AssignStmt>)
    requires
        old(parser).wf(),
        placed(&ident, old(parser)@.file),
    ensures
        final(parser).wf(),
        parse_post(r, old(parser)@, final(parser)@, assign_rest(old(parser)@, ident)),
        r is Ok ==> final(parser)@.remaining() < old(parser)@.remaining(),
{
    let ghost file = parser@.file;
    let equal = Equal::parse(parser)?;
    proof {
        assert(equal@ == equal);
    }
    let (expr, eol) = parse_assigned(parser)?;
    proof {
        lemma_assign_placed(ident, equal, expr, eol, file);
    }
    Ok(AssignStmt { ident, equal, expr, eol })
}

impl Parse for AssignNewStmt {
    open spec fn parsed(before: ParserView) -> Outcome<AssignNewStmtView> {
        assign_new_model(before)
    }

    open spec fn advances() -> bool {
        true
    }

    fn parse(parser: &mut Parser) -> (r: Result<Self>) {
        proof {
            assert(Self::parsed(parser@) == assign_new_model(parser@));
            assert(Self::advances());
        }
        let ident = Ident::parse(parser)?;
        proof {
            assert(ident@ == ident);
        }
        parse_assign_new_rest(parser, ident)
    }
}

impl Parse for AssignStmt {
    open spec fn parsed(before: ParserView) -> Outcome<AssignStmtView> {
        assign_model(before)
    }

    open spec fn advances() -> bool {
        true
    }

    fn parse(parser: &mut Parser) -> (r: Result<Self>) {
        proof {
            assert(Self::parsed(parser@) == assign_model(parser@));
            assert(Self::advances());
        }
        let ident = Ident::parse(parser)?;
        proof {
            assert(ident@ == ident);
        }
        parse_assign_rest(parser, ident)
    }
}

/// Reads an expression that stands as a statement. `ident` is the
/// identifier that it starts with, where it was read before.
pub fn parse_expr_stmt(parser: &mut Parser, ident: Option<Ident>) -> (r: Result<ExprStmt>)
    requires
        old(parser).wf(),
        ident matches Some(i) ==> placed(&i, old(parser)@.file),
    ensures
        final(parser).wf(),
        parse_post(r, old(parser)@, final(parser)@, expr_stmt_model(old(parser)@, ident)),
        r is Ok && ident is None ==> final(parser)@.remaining() < old(parser)@.remaining(),
{
    let ghost file = parser@.file;
    let expr = parse_bin_op(parser, ident)?;
    let node = ExprStmt { expr };
    proof {
        assert(node.parts() =~= seq![span_of(&expr)]);
        lemma_parts_within(node.parts(), Some(file));
    }
    Ok(node)
}

impl Parse for ExprStmt {
    open spec fn parsed(before: ParserView) -> Outcome<ExprStmtView> {
        expr_stmt_model(before, None)
    }

    open spec fn advances() -> bool {
        true
    }

    fn parse(parser: &mut Parser) -> (r: Result<Self>) {
        proof {
            assert(Self::parsed(parser@) == expr_stmt_model(parser@, None));
            assert(Self::advances());
        }
        parse_expr_stmt(parser, None)
    }
}

/// Reads a statement that starts with an identifier: a first assignment, an
/// assignment, or an expression.
pub fn parse_ident_stmt(parser: &mut Parser) -> (r: Result<Stmt>)
    requires
        old(parser).wf(),
    ensures
        final(parser).wf(),
        parse_post(r, old(parser)@, final(parser)@, ident_stmt_model(old(parser)@)),
        r is Ok ==> final(parser)@.remaining() < old(parser)@.remaining(),
{
    let ghost file = parser@.file;
    let ident = Ident::parse(parser)?;
    proof {
        assert(ident@ == ident);
    }
    let tok = parser.peek_token()?;
    match tok.kind() {
        TokenKind::Symbol(Symbol::ColonEqual) => {
            let node = parse_assign_new_rest(parser, ident)?;
            proof {
                lemma_stmt_assign_new(node, file);
            }
            Ok(Stmt::AssignNew(node))
        },
        TokenKind::Symbol(Symbol::Equal) => {
            let node = parse_assign_rest(parser, ident)?;
            proof {
                lemma_stmt_assign(node, file);
            }
            Ok(Stmt::Assign(node))
        },
        _ => {
            let node = parse_expr_stmt(parser, Some(ident))?;
            proof {
                lemma_stmt_expr(node, file);
            }
            Ok(Stmt::Expr(node))
        },
    }
}

/// Reads a statement.
pub fn parse_stmt(parser: &mut Parser) -> (r: Result<Stmt>)
    requires
        old(parser).wf(),
    ensures
        final(parser).wf(),
        parse_post(r, old(parser)@, final(parser)@, stmt_model(old(parser)@)),
        r is Ok ==> final(parser)@.remaining() < old(parser)@.remaining(),
    decreases old(parser)@.remaining(), 3nat,
{
    let ghost file = parser@.file;
    let tok = parser.peek_token()?;
    match tok.kind() {
        TokenKind::Keyword(Keyword::Ln) => {
            let ln = parse_ln(parser)?;
            proof {
                lemma_stmt_ln(ln, file);
            }
            Ok(Stmt::Ln(ln))
        },
        TokenKind::Ident(_) => parse_ident_stmt(parser),
        kind => {
            if kind.starts_expr() {
                let node = parse_expr_stmt(parser, None)?;
                proof {
                    lemma_stmt_expr(node, file);
                }
                Ok(Stmt::Expr(node))
            } else {
                proof {
                    reveal_strlit("expected statement");
                }
                Err(parser.unexpected("expected statement", tok))
            }
        },
    }
}

/// What was read before the block of a listener.
pub struct LnHeadParts {
    pub ln: Ln,
    pub ident: Ident,
    pub default_events: SpannedOption<DefaultEvents>,
    pub args: ListenerArguments,
    pub where_clause: SpannedOption<WhereClause>,
}

impl View for LnHeadParts {
    type V = LnHead;

    open spec fn view(&self) -> LnHead {
        LnHead {
            ln: self.ln,
            ident: self.ident,
            default_events: self.default_events@,
            args: self.args@,
            where_clause: self.where_clause@,
        }
    }
}

/// Reads the head of the declaration of a listener: all of it but the block.
pub fn parse_ln_head(parser: &mut Parser) -> (r: Result<LnHeadParts>)
    requires
        old(parser).wf(),
    ensures
        final(parser).wf(),
        parsed_as(r, final(parser)@, ln_head_model(old(parser)@)),
        follows(final(parser)@, old(parser)@),
        crate::parser::told(r),
        r matches Ok(head) ==> {
            &&& placed(&head.ln, old(parser)@.file)
            &&& placed(&head.ident, old(parser)@.file)
            &&& placed(&head.default_events, old(parser)@.file)
            &&& placed(&head.args, old(parser)@.file)
            &&& placed(&head.where_clause, old(parser)@.file)
            &&& final(parser)@.remaining() < old(parser)@.remaining()
        },
{
    let ghost file = parser@.file;
    let ln = Ln::parse(parser)?;
    let ident = Ident::parse(parser)?;
    let default_events = SpannedOption::<DefaultEvents>::parse_if_next(
        parser,
        TokenKind::Symbol(Symbol::Lt),
    )?;
    proof {
        if default_events.value is Some {
            lemma_default_events_span(default_events.value->0, file);
        }
        assert(ln@ == ln);
        assert(ident@ == ident);
    }
    let args = ListenerArguments::parse(parser)?;
    parser.skip_eol()?;
    let where_clause = SpannedOption::<WhereClause>::parse_if_next(
        parser,
        TokenKind::Keyword(Keyword::Where),
    )?;
    proof {
        if where_clause.value is Some {
            lemma_where_clause_span(where_clause.value->0, file);
        }
    }
    parser.skip_eol()?;
    Ok(LnHeadParts { ln, ident, default_events, args, where_clause })
}

/// Reads the declaration of a listener.
pub fn parse_ln(parser: &mut Parser) -> (r: Result<LnStmt>)
    requires
        old(parser).wf(),
    ensures
        final(parser).wf(),
        parse_post(r, old(parser)@, final(parser)@, ln_model(old(parser)@)),
        r is Ok ==> final(parser)@.remaining() < old(parser)@.remaining(),
    decreases old(parser)@.remaining(), 2nat,
{
    let ghost file = parser@.file;
    let head = parse_ln_head(parser)?;
    let block = parse_block(parser)?;
    let LnHeadParts { ln, ident, default_events, args, where_clause } = head;
    proof {
        lemma_ln_placed(ln, ident, default_events, args, where_clause, block, file);
    }
    Ok(LnStmt { ln, ident, default_events, args, where_clause, block })
}

/// Reads a block: statements between braces, with any number of ends of
/// line before each statement and before the closing brace.
pub fn parse_block(parser: &mut Parser) -> (r: Result<Block>)
    requires
        old(parser).wf(),
    ensures
        final(parser).wf(),
        parse_post(r, old(parser)@, final(parser)@, block_model(old(parser)@)),
        r is Ok ==> final(parser)@.remaining() < old(parser)@.remaining(),
    decreases old(parser)@.remaining(), 5nat,
{
    let ghost file = parser@.file;
    let open = OpenBrace::parse(parser)?;
    let mut stmts: Vec<Stmt> = Vec::new();
    proof {
        assert(stmt_views(stmts@) =~= Seq::<StmtView>::empty());
        assert(open@ == open);
    }
    loop
        invariant
            parser.wf(),
            file == old(parser)@.file,
            follows(parser@, old(parser)@),
            parser@.remaining() < old(parser)@.remaining(),
            placed(&open, file),
            forall|i: int| 0 <= i < stmts@.len() ==> placed(&#[trigger] stmts@[i], file),
            block_rest(parser@, open, stmt_views(stmts@)) == block_model(old(parser)@),
        decreases parser@.remaining(),
    {
        let ghost seen = stmt_views(stmts@);
        parser.skip_eol()?;
        let tok = parser.peek_token()?;
        if tok.kind() == TokenKind::Symbol(Symbol::Close(Delim::Brace)) {
            let close = CloseBrace::parse(parser)?;
            proof {
                lemma_block_placed(open, stmts, close, file);
                assert(close@ == close);
            }
            return Ok(Block { open, stmts, close });
        }
        let stmt = parse_stmt(parser)?;
        proof {
            lemma_stmt_placed(stmt, file);
        }
        stmts.push(stmt);
        proof {
            assert(stmt_views(stmts@) =~= seen.push(stmt@));
        }
    }
}

impl Parse for Block {
    open spec fn parsed(before: ParserView) -> Outcome<BlockView> {
        block_model(before)
    }

    open spec fn advances() -> bool {
        true
    }

    fn parse(parser: &mut Parser) -> (r: Result<Self>) {
        proof {
            assert(Self::parsed(parser@) == block_model(parser@));
            assert(Self::advances());
        }
        parse_block(parser)
    }
}

impl Parse for LnStmt {
    open spec fn parsed(before: ParserView) -> Outcome<LnStmtView> {
        ln_model(before)
    }

    open spec fn advances() -> bool {
        true
    }

    fn parse(parser: &mut Parser) -> (r: Result<Self>) {
        proof {
            assert(Self::parsed(parser@) == ln_model(parser@));
            assert(Self::advances());
        }
        parse_ln(parser)
    }
}

impl Parse for Stmt {
    open spec fn parsed(before: ParserView) -> Outcome<StmtView> {
        stmt_model(before)
    }

    open spec fn advances() -> bool {
        true
    }

    fn parse(parser: &mut Parser) -> (r: Result<Self>) {
        proof {
            assert(Self::parsed(parser@) == stmt_model(parser@));
            assert(Self::advances());
        }
        parse_stmt(parser)
    }
}

} // verus!
