use dqk_parser::{
    attach, ArgumentsEnd, Asterisk, BinOp, BinOpExpr, Block, ByType, Comma, DefaultEvents, Delim,
    Eol, Error, Expr, FromToken, Ident, IntegerKind, ListenerArgument, ListenerArguments, LitInt,
    LiteralExpr, LnStmt, Lt, ParenExpr, Parse, Parser, Plus, Punctuated, Span, Spanned,
    SpannedOption, Stmt, StringAllocator, Symbol, Terminated, Termination, ThenEol, Token,
    TokenKind, Tupled, Type, WhereClause,
};

fn parser_for(src: &str) -> Parser {
    let mut allocator = StringAllocator::new();
    let path = allocator.get_path("unit");
    Parser::new(src, path, allocator)
}

fn name(parser: &Parser, ident: &Ident) -> String {
    parser.string_allocator().resolve(ident.value).unwrap().to_string()
}

fn show_op(op: &BinOp) -> &'static str {
    match op {
        BinOp::Add(_) => "+",
        BinOp::Sub(_) => "-",
        BinOp::Mul(_) => "*",
        BinOp::Div(_) => "/",
        BinOp::Eq(_) => "==",
    }
}

fn show(parser: &Parser, e: &Expr) -> String {
    match e {
        Expr::Paren(p) => format!("[{}]", show(parser, &p.expr)),
        Expr::Literal(LiteralExpr::Integer(i)) => format!("{}", i.value.value()),
        Expr::Literal(_) => "?".to_string(),
        Expr::Variable(v) => name(parser, v),
        Expr::Member(m) => format!("{}.{}", show(parser, &m.expr), name(parser, &m.ident)),
        Expr::Call(c) => {
            let args: Vec<String> = c.args.items.iter().map(|a| show(parser, a)).collect();
            format!("{}({})", show(parser, &c.expr), args.join(", "))
        }
        Expr::BinOp(b) => {
            format!("({} {} {})", show(parser, &b.lhs), show_op(&b.op), show(parser, &b.rhs))
        }
    }
}

fn expr_of(src: &str) -> String {
    let mut parser = parser_for(src);
    let e = parser.parse::<Expr>().unwrap();
    show(&parser, &e)
}

fn range(s: Span) -> (usize, usize) {
    (s.start(), s.end())
}

fn hint(error: &Error) -> (String, (usize, usize)) {
    assert_eq!(error.hints().len(), 1);
    let h = &error.hints()[0];
    (h.msg().to_string(), range(h.span()))
}

#[test]
fn tighter_operator_after_looser_takes_the_right_operand() {
    let mut parser = parser_for("1 + 2 * 3");
    let e = parser.parse::<Expr>().unwrap();
    match &e {
        Expr::BinOp(outer) => {
            assert!(matches!(outer.op, BinOp::Add(_)));
            assert!(matches!(&*outer.lhs, Expr::Literal(LiteralExpr::Integer(i)) if i.value.value() == 1));
            match &*outer.rhs {
                Expr::BinOp(inner) => {
                    assert!(matches!(inner.op, BinOp::Mul(_)));
                    assert!(matches!(&*inner.lhs, Expr::Literal(LiteralExpr::Integer(i)) if i.value.value() == 2));
                    assert!(matches!(&*inner.rhs, Expr::Literal(LiteralExpr::Integer(i)) if i.value.value() == 3));
                }
                other => panic!("not a binary expression: {:?}", other),
            }
        }
        other => panic!("not a binary expression: {:?}", other),
    }
    assert_eq!(show(&parser, &e), "(1 + (2 * 3))");
}

#[test]
fn looser_operator_after_tighter_takes_the_whole() {
    assert_eq!(expr_of("1 * 2 + 3"), "((1 * 2) + 3)");
}

#[test]
fn equality_binds_less_than_addition() {
    assert_eq!(expr_of("1 == 2 + 3"), "(1 == (2 + 3))");
}

#[test]
fn equal_precedence_groups_to_the_left() {
    assert_eq!(expr_of("1 + 2 + 3"), "((1 + 2) + 3)");
    assert_eq!(expr_of("1 - 2 + 3"), "((1 - 2) + 3)");
    assert_eq!(expr_of("8 / 4 * 2"), "((8 / 4) * 2)");
    assert_eq!(expr_of("1 == 2 == 3"), "((1 == 2) == 3)");
}

#[test]
fn a_new_operator_is_compared_with_the_outermost_one() {
    assert_eq!(expr_of("1 + 2 * 3 * 4"), "(1 + ((2 * 3) * 4))");
    assert_eq!(expr_of("1 == 2 + 3 * 4"), "(1 == ((2 + 3) * 4))");
    assert_eq!(expr_of("1 * 2 + 3 * 4"), "((1 * 2) + (3 * 4))");
}

#[test]
fn precedence_of_each_operator() {
    let (_, path) = {
        let mut a = StringAllocator::new();
        let p = a.get_path("unit");
        (a, p)
    };
    let span = Span::new(path, 0, 1);
    assert_eq!(BinOp::Mul(Asterisk { span }).precedence(), 12);
    assert_eq!(BinOp::Div(dqk_parser::Slash { span }).precedence(), 12);
    assert_eq!(BinOp::Add(Plus { span }).precedence(), 11);
    assert_eq!(BinOp::Sub(dqk_parser::Minus { span }).precedence(), 11);
    assert_eq!(BinOp::Eq(dqk_parser::EqualEqual { span }).precedence(), 8);
}

#[test]
fn attach_rotates_only_under_a_looser_root() {
    let parser = parser_for("");
    let mut allocator = StringAllocator::new();
    let path = allocator.get_path("unit");
    let lit = |n: i64, at: usize| {
        Expr::Literal(LiteralExpr::Integer(LitInt::new(
            dqk_parser::Integer::new(n, IntegerKind::Decimal),
            Span::new(path, at, 1),
        )))
    };
    let add = BinOp::Add(Plus { span: Span::new(path, 1, 1) });
    let mul = BinOp::Mul(Asterisk { span: Span::new(path, 3, 1) });
    let sum = attach(lit(1, 0), add, lit(2, 2));
    assert_eq!(show(&parser, &sum), "(1 + 2)");
    let rotated = attach(sum, mul, lit(3, 4));
    assert_eq!(show(&parser, &rotated), "(1 + (2 * 3))");
    assert_eq!(range(rotated.span()), (0, 5));
    let product = attach(lit(1, 0), mul, lit(2, 2));
    let wrapped = attach(product, add, lit(3, 4));
    assert_eq!(show(&parser, &wrapped), "((1 * 2) + 3)");
    let same = attach(attach(lit(1, 0), add, lit(2, 2)), add, lit(3, 4));
    assert_eq!(show(&parser, &same), "((1 + 2) + 3)");
    let paren = Expr::Paren(ParenExpr {
        open: dqk_parser::OpenParen { span: Span::new(path, 0, 1) },
        expr: Box::new(attach(lit(1, 1), add, lit(2, 3))),
        close: dqk_parser::CloseParen { span: Span::new(path, 4, 1) },
    });
    let kept = attach(paren, mul, lit(3, 6));
    assert_eq!(show(&parser, &kept), "([(1 + 2)] * 3)");
}

#[test]
fn parentheses_hold_an_expression() {
    assert_eq!(expr_of("(1 + 2) * 3"), "([(1 + 2)] * 3)");
    assert_eq!(expr_of("((x))"), "[[x]]");
    let mut parser = parser_for("(1 + 2");
    let error = parser.parse::<Expr>().unwrap_err();
    assert_eq!(error.msg(), "expected 'Symbol(Close(Paren))'");
    assert_eq!(hint(&error), ("found 'Eof'".to_string(), (6, 6)));
}

#[test]
fn members_chain_to_the_left() {
    assert_eq!(expr_of("a.b.c"), "a.b.c");
    let mut parser = parser_for("a.b.c");
    let e = parser.parse::<Expr>().unwrap();
    match &e {
        Expr::Member(outer) => {
            assert_eq!(name(&parser, &outer.ident), "c");
            assert!(matches!(&*outer.expr, Expr::Member(_)));
            assert_eq!(range(outer.period.span()), (3, 4));
        }
        other => panic!("not a member: {:?}", other),
    }
    assert_eq!(range(e.span()), (0, 5));
    let mut parser = parser_for("a.1");
    let error = parser.parse::<Expr>().unwrap_err();
    assert_eq!(error.msg(), "expected '{identifier}'");
    assert_eq!(hint(&error).1, (2, 3));
}

#[test]
fn a_call_takes_arguments_without_parentheses() {
    assert_eq!(expr_of("f 1, 2 + 3, x.y"), "f(1, (2 + 3), x.y)");
    assert_eq!(expr_of("f x"), "f(x)");
    assert_eq!(expr_of("f (1)"), "f([1])");
    // The arguments of a call are expressions, and an argument may be a call.
    assert_eq!(expr_of("f g 1"), "f(g(1))");
    // A trailing comma ends the list.
    assert_eq!(expr_of("f 1,"), "f(1)");
    let mut parser = parser_for("a.b 1, 2");
    let e = parser.parse::<Expr>().unwrap();
    match &e {
        Expr::Call(call) => {
            assert_eq!(call.args.items.len(), 2);
            assert_eq!(call.args.punct.len(), 1);
            assert!(matches!(&*call.expr, Expr::Member(_)));
            // The list spans its arguments and the commas between them.
            assert_eq!(range(call.args.span()), (4, 8));
            assert_eq!(range(call.args.punct[0].span()), (5, 6));
        }
        other => panic!("not a call: {:?}", other),
    }
    assert_eq!(range(e.span()), (0, 8));
}

#[test]
fn arguments_end_at_the_first_token_that_cannot_go_on() {
    let end = ArgumentsEnd;
    assert!(end.terminate(&TokenKind::Eof));
    assert!(end.terminate(&TokenKind::Eol));
    assert!(end.terminate(&TokenKind::Symbol(Symbol::Plus)));
    assert!(end.terminate(&TokenKind::Symbol(Symbol::Close(Delim::Paren))));
    assert!(!end.terminate(&TokenKind::Symbol(Symbol::Comma)));
    assert!(!end.terminate(&TokenKind::Symbol(Symbol::Open(Delim::Paren))));
    let mut allocator = StringAllocator::new();
    let r = allocator.get("x");
    assert!(!end.terminate(&TokenKind::Ident(r)));
    assert!(TokenKind::Ident(r).starts_expr());
    assert!(TokenKind::String(r).starts_expr());
    assert!(!TokenKind::Comment(r).starts_expr());
    assert!(!TokenKind::Symbol(Symbol::Open(Delim::Brace)).starts_expr());
    let comma = TokenKind::Symbol(Symbol::Comma);
    assert!(comma.terminate(&comma));
    assert!(!comma.terminate(&TokenKind::Eof));
}

#[test]
fn first_assignment_is_told_by_its_sign() {
    let mut parser = parser_for("x := 1");
    let stmt = parser.parse::<Stmt>().unwrap();
    match &stmt {
        Stmt::AssignNew(a) => {
            assert_eq!(name(&parser, &a.ident), "x");
            assert!(matches!(&a.expr, Expr::Literal(LiteralExpr::Integer(i))
                if i.value.value() == 1 && i.value.kind() == IntegerKind::Decimal));
            assert_eq!(range(a.ident.span()), (0, 1));
            assert_eq!(range(a.equal.span()), (2, 4));
            assert_eq!(range(a.expr.span()), (5, 6));
            assert_eq!(range(a.eol.span()), (6, 6));
            assert_eq!(range(a.span()), (0, 6));
        }
        other => panic!("not a first assignment: {:?}", other),
    }
    assert_eq!(range(stmt.span()), (0, 6));
}

#[test]
fn assignment_is_told_by_its_sign() {
    let mut parser = parser_for("x = 1\ny");
    let stmt = parser.parse::<Stmt>().unwrap();
    match &stmt {
        Stmt::Assign(a) => {
            assert_eq!(name(&parser, &a.ident), "x");
            assert_eq!(range(a.equal.span()), (2, 3));
            // A line break has the empty span behind it.
            assert_eq!(range(a.eol.span()), (6, 6));
        }
        other => panic!("not an assignment: {:?}", other),
    }
    assert_eq!(range(stmt.span()), (0, 6));
    assert!(matches!(parser.parse::<Stmt>().unwrap(), Stmt::Expr(_)));
}

#[test]
fn a_statement_that_starts_with_a_name_may_be_an_expression() {
    let mut parser = parser_for("x.y (1)");
    let stmt = parser.parse::<Stmt>().unwrap();
    match &stmt {
        Stmt::Expr(s) => match &s.expr {
            Expr::Call(call) => match &*call.expr {
                Expr::Member(member) => {
                    assert!(matches!(&*member.expr, Expr::Variable(v) if name(&parser, v) == "x"));
                    assert_eq!(name(&parser, &member.ident), "y");
                    assert_eq!(call.args.items.len(), 1);
                }
                other => panic!("not a member: {:?}", other),
            },
            other => panic!("not a call: {:?}", other),
        },
        other => panic!("not an expression statement: {:?}", other),
    }
    assert_eq!(range(stmt.span()), (0, 7));

    let mut parser = parser_for("x + 1 * y");
    let stmt = parser.parse::<Stmt>().unwrap();
    match &stmt {
        Stmt::Expr(s) => assert_eq!(show(&parser, &s.expr), "(x + (1 * y))"),
        other => panic!("not an expression statement: {:?}", other),
    }
    let mut parser = parser_for("x");
    assert!(matches!(parser.parse::<Stmt>().unwrap(), Stmt::Expr(_)));
}

#[test]
fn empty_parentheses_hold_no_expression() {
    let mut parser = parser_for("x.y()");
    let error = parser.parse::<Stmt>().unwrap_err();
    assert_eq!(error.msg(), "expected expression");
    assert_eq!(hint(&error), ("found 'Symbol(Close(Paren))'".to_string(), (4, 5)));
}

#[test]
fn other_statements_are_told_by_their_first_token() {
    let mut parser = parser_for("1 + x");
    assert!(matches!(parser.parse::<Stmt>().unwrap(), Stmt::Expr(_)));
    let mut parser = parser_for("(x)");
    assert!(matches!(parser.parse::<Stmt>().unwrap(), Stmt::Expr(_)));
    let mut parser = parser_for("+ 1");
    let error = parser.parse::<Stmt>().unwrap_err();
    assert_eq!(error.msg(), "expected statement");
    assert_eq!(hint(&error), ("found 'Symbol(Plus)'".to_string(), (0, 1)));
    let mut parser = parser_for("");
    let error = parser.parse::<Stmt>().unwrap_err();
    assert_eq!(error.msg(), "expected statement");
    assert_eq!(hint(&error), ("found 'Eof'".to_string(), (0, 0)));
    let mut parser = parser_for("where");
    assert_eq!(hint(&parser.parse::<Stmt>().unwrap_err()).0, "found 'Keyword(Where)'");
}

#[test]
fn a_missing_expression_ends_the_parse() {
    let mut parser = parser_for("x := ");
    let error = parser.parse::<Stmt>().unwrap_err();
    assert_eq!(error.msg(), "expected expression");
    assert_eq!(hint(&error), ("found 'Eof'".to_string(), (5, 5)));

    let mut parser = parser_for("x := \ny");
    let error = parser.parse::<Stmt>().unwrap_err();
    assert_eq!(error.msg(), "expected expression");
    assert_eq!(hint(&error), ("found 'Eol'".to_string(), (6, 6)));

    let mut parser = parser_for("x = 1 +");
    let error = parser.parse::<Stmt>().unwrap_err();
    assert_eq!(error.msg(), "expected expression");
    assert_eq!(hint(&error).1, (7, 7));
}

#[test]
fn an_assignment_ends_with_its_line() {
    let mut parser = parser_for("x = 1 )");
    let error = parser.parse::<Stmt>().unwrap_err();
    assert_eq!(error.msg(), "expected 'end of line'");
    assert_eq!(hint(&error), ("found 'Symbol(Close(Paren))'".to_string(), (6, 7)));
}

#[test]
fn errors_of_the_lexer_pass_through_the_parser() {
    let mut parser = parser_for("x := 0b");
    let error = parser.parse::<Stmt>().unwrap_err();
    assert_eq!(error.msg(), "malformed integer");
    let mut parser = parser_for("x := 1 + #");
    let error = parser.parse::<Stmt>().unwrap_err();
    assert_eq!(error.msg(), "unexpected character");
    assert_eq!(hint(&error).0, "found character '#'");
}

fn listener(src: &str) -> (Parser, LnStmt) {
    let mut parser = parser_for(src);
    match parser.parse::<Stmt>().unwrap() {
        Stmt::Ln(ln) => (parser, ln),
        other => panic!("not a listener: {:?}", other),
    }
}

#[test]
fn a_listener_with_nothing_optional() {
    let (parser, ln) = listener("ln tick() {}");
    assert_eq!(name(&parser, &ln.ident), "tick");
    assert!(ln.default_events.value().is_none());
    assert!(ln.where_clause.value().is_none());
    assert!(ln.args.args.items.is_empty());
    assert!(ln.block.stmts.is_empty());
    assert_eq!(range(ln.ln.span()), (0, 2));
    assert_eq!(range(ln.args.span()), (7, 9));
    assert_eq!(range(ln.block.span()), (10, 12));
    assert_eq!(range(ln.span()), (0, 12));
    // What is absent stands where the cursor was: behind the token that was
    // looked at.
    assert_eq!(range(ln.default_events.span()), (8, 8));
    assert_eq!(range(ln.where_clause.span()), (11, 11));
}

#[test]
fn a_listener_with_everything() {
    let src = "ln on_hit<hit, miss>(Target, n: Count)\nwhere n == 1,\n  x == 2\n{\n\n  y := n + 1\n  f y\n\n}";
    let (parser, ln) = listener(src);
    assert_eq!(name(&parser, &ln.ident), "on_hit");
    let events = ln.default_events.value().as_ref().unwrap();
    let names: Vec<String> =
        events.events.contents.items.iter().map(|e| name(&parser, &e.ident)).collect();
    assert_eq!(names, vec!["hit", "miss"]);
    assert_eq!(range(events.events.open.span()), (9, 10));
    assert_eq!(range(events.events.close.span()), (19, 20));
    assert_eq!(ln.default_events.span(), events.span());
    assert_eq!(range(events.span()), (9, 20));

    assert_eq!(ln.args.args.items.len(), 2);
    match &ln.args.args.items[0] {
        ListenerArgument::Expanded(Type::Ident(t)) => assert_eq!(name(&parser, t), "Target"),
        other => panic!("not a bare type: {:?}", other),
    }
    match &ln.args.args.items[1] {
        ListenerArgument::Args(a) => {
            assert_eq!(name(&parser, &a.ident), "n");
            let Type::Ident(t) = a.ty;
            assert_eq!(name(&parser, &t), "Count");
            assert_eq!(range(a.span()), (29, 37));
        }
        other => panic!("not a named argument: {:?}", other),
    }

    let bounds = ln.where_clause.value().as_ref().unwrap();
    let shown: Vec<String> = bounds.bounds.items.iter().map(|b| show(&parser, b)).collect();
    assert_eq!(shown, vec!["(n == 1)", "(x == 2)"]);
    assert_eq!(bounds.bounds.punct.len(), 1);
    assert_eq!(ln.where_clause.span(), bounds.span());

    assert_eq!(ln.block.stmts.len(), 2);
    assert!(matches!(&ln.block.stmts[0], Stmt::AssignNew(_)));
    match &ln.block.stmts[1] {
        Stmt::Expr(s) => assert_eq!(show(&parser, &s.expr), "f(y)"),
        other => panic!("not an expression statement: {:?}", other),
    }
    assert_eq!(range(ln.span()), (0, src.len()));
    assert_eq!(ln.span().start(), ln.ln.span().start());
    assert_eq!(ln.span().end(), ln.block.span().end());
}

#[test]
fn listeners_nest() {
    let (_, ln) = listener("ln a() {\n ln b() {\n x\n }\n}");
    assert_eq!(ln.block.stmts.len(), 1);
    match &ln.block.stmts[0] {
        Stmt::Ln(inner) => assert_eq!(inner.block.stmts.len(), 1),
        other => panic!("not a listener: {:?}", other),
    }
}

#[test]
fn a_listener_needs_its_parts() {
    let mut parser = parser_for("ln 1()");
    assert_eq!(parser.parse::<Stmt>().unwrap_err().msg(), "expected '{identifier}'");
    let mut parser = parser_for("ln f {}");
    assert_eq!(parser.parse::<Stmt>().unwrap_err().msg(), "expected 'Symbol(Open(Paren))'");
    let mut parser = parser_for("ln f(1) {}");
    let error = parser.parse::<Stmt>().unwrap_err();
    assert_eq!(error.msg(), "expected 'listener argument'");
    assert_eq!(hint(&error).1, (5, 6));
    let mut parser = parser_for("ln f(a:) {}");
    assert_eq!(parser.parse::<Stmt>().unwrap_err().msg(), "expected {type}");
    let mut parser = parser_for("ln f(a b) {}");
    assert_eq!(parser.parse::<Stmt>().unwrap_err().msg(), "expected 'Symbol(Comma)'");
    let mut parser = parser_for("ln f<a() {}");
    assert_eq!(parser.parse::<Stmt>().unwrap_err().msg(), "expected 'Symbol(Comma)'");
    let mut parser = parser_for("ln f()");
    assert_eq!(parser.parse::<Stmt>().unwrap_err().msg(), "expected 'Symbol(Open(Brace))'");
    let mut parser = parser_for("ln f() {\n x := 1");
    let error = parser.parse::<Stmt>().unwrap_err();
    assert_eq!(error.msg(), "expected statement");
    assert_eq!(hint(&error).0, "found 'Eof'");
    let mut parser = parser_for("ln f() where { }");
    assert!(parser.parse::<Stmt>().is_ok());
    let mut parser = parser_for("ln f() where x y { }");
    assert!(parser.parse::<Stmt>().is_ok(), "the bound is the call of x with y");
    let mut parser = parser_for("ln f() where x + { }");
    assert_eq!(parser.parse::<Stmt>().unwrap_err().msg(), "expected expression");
}

#[test]
fn a_block_passes_over_blank_lines() {
    let mut parser = parser_for("{\n\n a := 1\n\n\n b = 2\n c\n}");
    let block = parser.parse::<Block>().unwrap();
    assert_eq!(block.stmts.len(), 3);
    assert_eq!(range(block.span()), (0, 24));
    assert_eq!(block.span(), block.open.span().join(block.close.span()));
    let mut parser = parser_for("{}");
    assert!(parser.parse::<Block>().unwrap().stmts.is_empty());
    let mut parser = parser_for("x");
    assert_eq!(parser.parse::<Block>().unwrap_err().msg(), "expected 'Symbol(Open(Brace))'");
}

#[test]
fn a_list_ends_at_the_token_chosen() {
    let mut parser = parser_for("a, b, c )");
    let list = Punctuated::<Ident, Comma>::parse_terminated(
        &mut parser,
        TokenKind::Symbol(Symbol::Close(Delim::Paren)),
    )
    .unwrap();
    assert_eq!(list.items.len(), 3);
    assert_eq!(list.punct.len(), 2);
    // The token that ends the list is no part of it.
    assert_eq!(range(list.span()), (0, 7));
    assert_eq!(parser.next_token().unwrap().kind(), TokenKind::Symbol(Symbol::Close(Delim::Paren)));

    let mut parser = parser_for(" )");
    let list = Punctuated::<Ident, Comma>::parse_terminated(
        &mut parser,
        TokenKind::Symbol(Symbol::Close(Delim::Paren)),
    )
    .unwrap();
    assert!(list.items.is_empty());
    // A list that holds nothing has the empty span at the cursor.
    assert_eq!(list.span(), parser.span());
    assert_eq!(range(list.span()), (2, 2));

    let mut parser = parser_for("a, b,)");
    let list = Punctuated::<Ident, Comma>::parse_terminated(
        &mut parser,
        TokenKind::Symbol(Symbol::Close(Delim::Paren)),
    )
    .unwrap();
    assert_eq!((list.items.len(), list.punct.len()), (2, 2));
    assert_eq!(range(list.span()), (0, 5));

    let mut parser = parser_for("a, b");
    let error = Punctuated::<Ident, Comma>::parse_terminated(
        &mut parser,
        TokenKind::Symbol(Symbol::Close(Delim::Paren)),
    )
    .unwrap_err();
    assert_eq!(error.msg(), "expected 'Symbol(Comma)'");
    assert_eq!(hint(&error).0, "found 'Eof'");

    let mut parser = parser_for("a,\n b\n }");
    let list = Punctuated::<Ident, Comma>::parse_terminated_with(
        &mut parser,
        ThenEol,
        ThenEol,
        TokenKind::Symbol(Symbol::Close(Delim::Brace)),
    )
    .unwrap();
    assert_eq!(list.items.len(), 2);
    let mut parser = parser_for("a,\n b");
    assert!(Punctuated::<Ident, Comma>::parse_terminated_with(
        &mut parser,
        ByType,
        ByType,
        TokenKind::Eof
    )
    .is_err());
}

#[test]
fn an_optional_node_is_read_only_behind_its_token() {
    let mut parser = parser_for("<a> x");
    let present =
        SpannedOption::<DefaultEvents>::parse_if_next(&mut parser, TokenKind::Symbol(Symbol::Lt))
            .unwrap();
    assert!(present.value().is_some());
    assert_eq!(range(present.span()), (0, 3));
    let absent =
        SpannedOption::<DefaultEvents>::parse_if_next(&mut parser, TokenKind::Symbol(Symbol::Lt))
            .unwrap();
    assert!(absent.value().is_none());
    assert_eq!(range(absent.span()), (5, 5));
    assert!(matches!(parser.next_token().unwrap().kind(), TokenKind::Ident(_)));
    let mut parser = parser_for("<a");
    assert!(SpannedOption::<DefaultEvents>::parse_if_next(
        &mut parser,
        TokenKind::Symbol(Symbol::Lt)
    )
    .is_err());
    let mut parser = parser_for("where a\n,\n b\n {");
    let bounds = SpannedOption::<WhereClause>::parse_if_next(
        &mut parser,
        TokenKind::Keyword(dqk_parser::Keyword::Where),
    )
    .unwrap();
    assert_eq!(bounds.value().as_ref().unwrap().bounds.items.len(), 2);
}

#[test]
fn contents_between_angle_brackets() {
    let mut parser = parser_for("<x>");
    let tupled = parser.parse::<Tupled<Ident>>().unwrap();
    assert_eq!(name(&parser, &tupled.contents), "x");
    assert_eq!(range(tupled.span()), (0, 3));
    let mut parser = parser_for("<a, b>");
    let list = Tupled::<Punctuated<Ident, Comma>>::parse_with(
        &mut parser,
        Terminated { end: TokenKind::Symbol(Symbol::Gt) },
    )
    .unwrap();
    assert_eq!(list.contents.items.len(), 2);
    let mut parser = parser_for("<x");
    assert_eq!(parser.parse::<Tupled<Ident>>().unwrap_err().msg(), "expected 'Symbol(Gt)'");
    let mut parser = parser_for("x>");
    assert_eq!(parser.parse::<Lt>().unwrap_err().msg(), "expected 'Symbol(Lt)'");
}

#[test]
fn leaves_are_read_from_their_tokens() {
    let mut parser = parser_for("name 12 \n");
    let ident = parser.parse::<Ident>().unwrap();
    assert_eq!(name(&parser, &ident), "name");
    let int = parser.parse::<LitInt>().unwrap();
    assert_eq!(int.value.value(), 21);
    assert_eq!(range(int.span()), (5, 7));
    let eol = parser.parse::<Eol>().unwrap();
    assert_eq!(range(eol.span()), (9, 9));
    assert!(parser.parse::<Eol>().is_ok(), "the end of the input ends a line too");
    let mut parser = parser_for("12");
    let error = parser.parse::<Ident>().unwrap_err();
    assert_eq!(error.msg(), "expected '{identifier}'");
    let mut parser = parser_for("x");
    assert_eq!(parser.parse::<LitInt>().unwrap_err().msg(), "expected '{integer}'");
    let mut parser = parser_for("x");
    assert_eq!(parser.parse::<dqk_parser::LitStr>().unwrap_err().msg(), "expected '{string}'");
    let mut parser = parser_for("x");
    assert_eq!(parser.parse::<dqk_parser::LitFloat>().unwrap_err().msg(), "expected '{float}'");
    let mut parser = parser_for("x");
    assert_eq!(parser.parse::<dqk_parser::Comment>().unwrap_err().msg(), "expected '{comment}'");
    let mut parser = parser_for("x");
    assert_eq!(parser.parse::<LiteralExpr>().unwrap_err().msg(), "expected literal");
    let mut parser = parser_for("ln");
    assert!(parser.parse::<dqk_parser::Ln>().is_ok());
    let mut parser = parser_for("ln");
    assert_eq!(
        parser.parse::<dqk_parser::Where>().unwrap_err().msg(),
        "expected 'Keyword(Where)'"
    );
    let mut parser = parser_for("x");
    assert!(parser.parse::<Box<Ident>>().is_ok());
    let mut parser = parser_for("1");
    assert_eq!(parser.parse::<Type>().unwrap_err().msg(), "expected {type}");
    let mut parser = parser_for("(a, b: T)");
    assert_eq!(parser.parse::<ListenerArguments>().unwrap().args.items.len(), 2);
}

#[test]
fn every_node_spans_its_parts() {
    let mut parser = parser_for("total := (a.b + f 1, 2) * 3");
    let stmt = parser.parse::<Stmt>().unwrap();
    fn check(e: &Expr) {
        let parts: Vec<Span> = match e {
            Expr::Paren(p) => {
                check(&p.expr);
                vec![p.open.span(), p.expr.span(), p.close.span()]
            }
            Expr::Literal(l) => vec![l.span()],
            Expr::Variable(v) => vec![v.span()],
            Expr::Member(m) => {
                check(&m.expr);
                vec![m.expr.span(), m.period.span(), m.ident.span()]
            }
            Expr::Call(c) => {
                check(&c.expr);
                c.args.items.iter().for_each(check);
                vec![c.expr.span(), c.args.span()]
            }
            Expr::BinOp(b) => {
                check(&b.lhs);
                check(&b.rhs);
                vec![b.lhs.span(), b.op.span(), b.rhs.span()]
            }
        };
        let span = e.span();
        assert_eq!(span.start(), parts.iter().map(|s| s.start()).min().unwrap());
        assert_eq!(span.end(), parts.iter().map(|s| s.end()).max().unwrap());
    }
    match &stmt {
        Stmt::AssignNew(a) => {
            check(&a.expr);
            assert_eq!(a.span().start(), a.ident.span().start());
            assert_eq!(a.span().end(), a.eol.span().end());
            assert_eq!(range(a.expr.span()), (9, 27));
        }
        other => panic!("not a first assignment: {:?}", other),
    }
    assert_eq!(range(stmt.span()), (0, 27));
}

#[test]
fn the_allocator_comes_back_from_the_parser() {
    let mut parser = parser_for("alpha beta alpha");
    while parser.next_token().unwrap().kind() != TokenKind::Eof {}
    let mut allocator = parser.into_string_allocator();
    assert_eq!(allocator.len(), 3);
    let again = allocator.get("beta");
    assert_eq!(allocator.len(), 3);
    assert_eq!(allocator.resolve(again), Some("beta"));
}

#[test]
fn binary_expression_holds_its_operands() {
    let mut parser = parser_for("a - b");
    match parser.parse::<Expr>().unwrap() {
        Expr::BinOp(BinOpExpr { lhs, op, rhs }) => {
            assert!(matches!(*lhs, Expr::Variable(_)));
            assert!(matches!(op, BinOp::Sub(_)));
            assert!(matches!(*rhs, Expr::Variable(_)));
        }
        other => panic!("not a binary expression: {:?}", other),
    }
}

#[test]
fn a_copy_holds_what_the_tree_holds() {
    let src = "ln on<a>(T, n: U) where n == 1 {\n x := f 1, (2 + n) * 3\n y.z\n}";
    let mut parser = parser_for(src);
    let stmt = parser.parse::<Stmt>().unwrap();
    let copy = stmt.clone();
    assert_eq!(format!("{:?}", copy), format!("{:?}", stmt));
    assert_eq!(copy.span(), stmt.span());
    let mut parser = parser_for("f 1, (2 + n) * 3");
    let expr = parser.parse::<Expr>().unwrap();
    let copy = expr.clone();
    assert_eq!(show(&parser, &copy), show(&parser, &expr));
    assert_eq!(show(&parser, &copy), "f(1, ([(2 + n)] * 3))");
    assert_eq!(copy.span(), expr.span());
    if let (Expr::Call(a), Expr::Call(b)) = (&copy, &expr) {
        assert_eq!(a.clone().span(), b.span());
        assert_eq!(a.args.clone().span(), b.args.span());
    } else {
        panic!("not a call");
    }
}

#[test]
fn a_token_makes_the_leaf_of_its_kind() {
    let mut allocator = StringAllocator::new();
    let path = allocator.get_path("unit");
    let r = allocator.get("x");
    let span = Span::new(path, 1, 1);
    let ident = Token::new(TokenKind::Ident(r), span);
    let comma = Token::new(TokenKind::Symbol(Symbol::Comma), span);
    assert_eq!(Ident::from_token(ident), Some(Ident::new(r, span)));
    assert_eq!(Ident::from_token(comma), None);
    assert_eq!(Comma::from_token(comma), Some(Comma { span }));
    assert_eq!(Comma::from_token(ident), None);
    assert_eq!(Eol::from_token(Token::new(TokenKind::Eol, span)), Some(Eol { span }));
    assert_eq!(Eol::from_token(Token::new(TokenKind::Eof, span)), Some(Eol { span }));
    assert_eq!(Eol::from_token(comma), None);
    assert_eq!(Ident::name(), "{identifier}");
    assert_eq!(LitInt::name(), "{integer}");
    assert_eq!(Comma::name(), "Comma");
    assert_eq!(Eol::name(), "end of line");
    assert_eq!(
        dqk_parser::OpenParen::from_token(Token::new(
            TokenKind::Symbol(Symbol::Open(Delim::Paren)),
            span
        ))
        .map(|leaf| leaf.span()),
        Some(span)
    );
}

#[test]
fn a_list_spans_its_items_and_separators() {
    let mut parser = parser_for("  a ,b  , c  )");
    // The first token was looked at before the list is read.
    parser.peek_token().unwrap();
    let list = Punctuated::<Ident, Comma>::parse_terminated(
        &mut parser,
        TokenKind::Symbol(Symbol::Close(Delim::Paren)),
    )
    .unwrap();
    let mut spans: Vec<Span> = Vec::new();
    spans.extend(list.items.iter().map(|i| i.span()));
    spans.extend(list.punct.iter().map(|p| p.span()));
    assert_eq!(list.span().start(), spans.iter().map(|s| s.start()).min().unwrap());
    assert_eq!(list.span().end(), spans.iter().map(|s| s.end()).max().unwrap());
    assert_eq!(range(list.span()), (2, 11));

    // With the ending token held at entry the cursor does not move.
    let mut parser = parser_for("x )");
    parser.next_token().unwrap();
    parser.peek_token().unwrap();
    let at = parser.span();
    let list = Punctuated::<Ident, Comma>::parse_terminated(
        &mut parser,
        TokenKind::Symbol(Symbol::Close(Delim::Paren)),
    )
    .unwrap();
    assert!(list.items.is_empty() && list.punct.is_empty());
    assert_eq!(list.span(), at);
    assert_eq!(list.span().length(), 0);
    assert_eq!(parser.next_token().unwrap().kind(), TokenKind::Symbol(Symbol::Close(Delim::Paren)));

    let mut parser = parser_for("f x , y )");
    match parser.parse::<Expr>().unwrap() {
        Expr::Call(call) => assert_eq!(range(call.args.span()), (2, 7)),
        other => panic!("not a call: {:?}", other),
    }
    let (_, ln) = listener("ln f() where {}");
    let bounds = ln.where_clause.value().as_ref().unwrap();
    assert!(bounds.bounds.items.is_empty());
    assert_eq!(bounds.bounds.span().length(), 0);
}

#[test]
fn a_block_spans_its_braces_and_statements() {
    let mut parser = parser_for(" {\n a := 1\n b\n }");
    let block = parser.parse::<Block>().unwrap();
    let mut spans = vec![block.open.span(), block.close.span()];
    spans.extend(block.stmts.iter().map(|s| s.span()));
    assert_eq!(block.span().start(), spans.iter().map(|s| s.start()).min().unwrap());
    assert_eq!(block.span().end(), spans.iter().map(|s| s.end()).max().unwrap());
    assert_eq!(range(block.span()), (1, 16));
    for stmt in &block.stmts {
        assert!(block.open.span().end() <= stmt.span().start());
        assert!(stmt.span().end() <= block.close.span().start());
    }
}
