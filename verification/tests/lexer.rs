use dqk_parser::{
    Delim, Error, IntegerKind, Keyword, Parser, Span, StringAllocator, Symbol, Token, TokenKind,
};

fn parser_on(src: &str) -> Parser {
    let mut allocator = StringAllocator::new();
    let path = allocator.get_path("unit");
    Parser::new(src, path, allocator)
}

fn kinds(src: &str) -> Vec<TokenKind> {
    let mut parser = parser_on(src);
    let mut out = Vec::new();
    loop {
        let tok = parser.next_token().unwrap();
        out.push(tok.kind());
        if tok.kind() == TokenKind::Eof {
            return out;
        }
    }
}

fn integer(tok: Token) -> (i64, IntegerKind) {
    match tok.kind() {
        TokenKind::Integer(i) => (i.value(), i.kind()),
        other => panic!("not an integer: {:?}", other),
    }
}

fn hint(error: &Error, i: usize) -> (String, Span) {
    let h = &error.hints()[i];
    (h.msg().to_string(), h.span())
}

#[test]
fn binary_literal_reads_its_value_and_radix() {
    let mut parser = parser_on("0b101");
    let tok = parser.next_token().unwrap();
    assert_eq!(integer(tok), (5, IntegerKind::Binary));
    assert_eq!(tok.span().start(), 0);
    assert_eq!(tok.span().length(), 5);
    assert_eq!(parser.next_token().unwrap().kind(), TokenKind::Eof);
}

#[test]
fn decimal_literal_has_radix_decimal() {
    let mut parser = parser_on("7");
    assert_eq!(integer(parser.next_token().unwrap()), (7, IntegerKind::Decimal));
    let mut parser = parser_on("44");
    assert_eq!(integer(parser.next_token().unwrap()), (44, IntegerKind::Decimal));
}

#[test]
fn hex_literal_has_radix_hex() {
    let mut parser = parser_on("0xf");
    assert_eq!(integer(parser.next_token().unwrap()), (15, IntegerKind::Hex));
    let mut parser = parser_on("0x1F1");
    assert_eq!(integer(parser.next_token().unwrap()), (1 + 15 * 16 + 256, IntegerKind::Hex));
}

#[test]
fn first_digit_is_least_significant() {
    // The first digit read counts the radix to the zero.
    let mut parser = parser_on("42");
    assert_eq!(integer(parser.next_token().unwrap()), (4 + 2 * 10, IntegerKind::Decimal));
    let mut parser = parser_on("0x1f");
    assert_eq!(integer(parser.next_token().unwrap()), (1 + 15 * 16, IntegerKind::Hex));
    let mut parser = parser_on("0b100");
    assert_eq!(integer(parser.next_token().unwrap()), (1, IntegerKind::Binary));
    let mut parser = parser_on("123");
    assert_eq!(integer(parser.next_token().unwrap()), (321, IntegerKind::Decimal));
}

#[test]
fn radix_marker_without_digits_is_malformed() {
    let mut parser = parser_on("0b");
    let error = parser.next_token().unwrap_err();
    assert_eq!(error.msg(), "malformed integer");
    assert_eq!(error.hints().len(), 1);
    let (msg, span) = hint(&error, 0);
    assert_eq!(msg, "expected integer after radix");
    assert_eq!((span.start(), span.length()), (2, 0));

    let mut parser = parser_on("0x+");
    assert_eq!(parser.next_token().unwrap_err().msg(), "malformed integer");
    let mut parser = parser_on("0b2");
    assert_eq!(parser.next_token().unwrap_err().msg(), "malformed integer");
}

#[test]
fn only_a_single_zero_marks_a_radix() {
    assert_eq!(
        kinds("00b1").len(),
        3,
        "two zeros are a decimal literal, and b1 is an identifier"
    );
    let mut parser = parser_on("1b");
    assert_eq!(integer(parser.next_token().unwrap()), (1, IntegerKind::Decimal));
    assert!(matches!(parser.next_token().unwrap().kind(), TokenKind::Ident(_)));
}

#[test]
fn long_literals_wrap_around() {
    // 2 to the 64 ones in binary is minus one.
    let src = format!("0b{}", "1".repeat(64));
    let mut parser = parser_on(&src);
    assert_eq!(integer(parser.next_token().unwrap()), (-1, IntegerKind::Binary));
    // The weight of the last digit wraps to zero.
    let src = format!("0b{}1", "0".repeat(64));
    let mut parser = parser_on(&src);
    assert_eq!(integer(parser.next_token().unwrap()), (0, IntegerKind::Binary));
    let src = format!("0b{}1", "0".repeat(63));
    let mut parser = parser_on(&src);
    assert_eq!(integer(parser.next_token().unwrap()), (i64::MIN, IntegerKind::Binary));
}

#[test]
fn keywords_are_matched_by_case() {
    assert_eq!(
        kinds("event query where ln fn if for else return"),
        vec![
            TokenKind::Keyword(Keyword::Event),
            TokenKind::Keyword(Keyword::Query),
            TokenKind::Keyword(Keyword::Where),
            TokenKind::Keyword(Keyword::Ln),
            TokenKind::Keyword(Keyword::Fn),
            TokenKind::Keyword(Keyword::If),
            TokenKind::Keyword(Keyword::For),
            TokenKind::Keyword(Keyword::Else),
            TokenKind::Keyword(Keyword::Return),
            TokenKind::Eof,
        ]
    );
    let mut parser = parser_on("Ln lnx");
    assert!(matches!(parser.next_token().unwrap().kind(), TokenKind::Ident(_)));
    assert!(matches!(parser.next_token().unwrap().kind(), TokenKind::Ident(_)));
}

#[test]
fn identifiers_are_interned() {
    let mut parser = parser_on("foo _bar1 foo \u{e9}t\u{e9}");
    let a = parser.next_token().unwrap();
    let b = parser.next_token().unwrap();
    let c = parser.next_token().unwrap();
    let d = parser.next_token().unwrap();
    assert_eq!(a.kind(), c.kind());
    assert_ne!(a.kind(), b.kind());
    let (ra, rb, rd) = match (a.kind(), b.kind(), d.kind()) {
        (TokenKind::Ident(ra), TokenKind::Ident(rb), TokenKind::Ident(rd)) => (ra, rb, rd),
        other => panic!("not identifiers: {:?}", other),
    };
    let allocator = parser.string_allocator();
    assert_eq!(allocator.resolve(ra), Some("foo"));
    assert_eq!(allocator.resolve(rb), Some("_bar1"));
    assert_eq!(allocator.resolve(rd), Some("\u{e9}t\u{e9}"));
    // Spans are in bytes: each of the two accented letters takes two.
    assert_eq!((d.span().start(), d.span().length()), (14, 5));
    assert_eq!(d.span().end(), 19);
}

#[test]
fn a_digit_cannot_start_an_identifier() {
    let mut parser = parser_on("a1 1a");
    assert!(matches!(parser.next_token().unwrap().kind(), TokenKind::Ident(_)));
    assert!(matches!(parser.next_token().unwrap().kind(), TokenKind::Integer(_)));
    assert!(matches!(parser.next_token().unwrap().kind(), TokenKind::Ident(_)));
}

#[test]
fn symbols_take_the_longest_spelling() {
    assert_eq!(
        kinds("( { [ ) } ] := : ; , . + - * / == = >= > <= <"),
        vec![
            TokenKind::Symbol(Symbol::Open(Delim::Paren)),
            TokenKind::Symbol(Symbol::Open(Delim::Brace)),
            TokenKind::Symbol(Symbol::Open(Delim::Bracket)),
            TokenKind::Symbol(Symbol::Close(Delim::Paren)),
            TokenKind::Symbol(Symbol::Close(Delim::Brace)),
            TokenKind::Symbol(Symbol::Close(Delim::Bracket)),
            TokenKind::Symbol(Symbol::ColonEqual),
            TokenKind::Symbol(Symbol::Colon),
            TokenKind::Symbol(Symbol::SemiColon),
            TokenKind::Symbol(Symbol::Comma),
            TokenKind::Symbol(Symbol::Period),
            TokenKind::Symbol(Symbol::Plus),
            TokenKind::Symbol(Symbol::Minus),
            TokenKind::Symbol(Symbol::Asterisk),
            TokenKind::Symbol(Symbol::Slash),
            TokenKind::Symbol(Symbol::EqualEqual),
            TokenKind::Symbol(Symbol::Equal),
            TokenKind::Symbol(Symbol::GtEqual),
            TokenKind::Symbol(Symbol::Gt),
            TokenKind::Symbol(Symbol::LtEqual),
            TokenKind::Symbol(Symbol::Lt),
            TokenKind::Eof,
        ]
    );
    assert_eq!(
        kinds("==="),
        vec![
            TokenKind::Symbol(Symbol::EqualEqual),
            TokenKind::Symbol(Symbol::Equal),
            TokenKind::Eof
        ]
    );
    assert_eq!(
        kinds(":=="),
        vec![
            TokenKind::Symbol(Symbol::ColonEqual),
            TokenKind::Symbol(Symbol::Equal),
            TokenKind::Eof
        ]
    );
}

#[test]
fn line_breaks_and_the_end_of_input() {
    let mut parser = parser_on(" \t\n  x\n");
    let eol = parser.next_token().unwrap();
    assert_eq!(eol.kind(), TokenKind::Eol);
    assert_eq!((eol.span().start(), eol.span().length()), (3, 0));
    let x = parser.next_token().unwrap();
    assert_eq!((x.span().start(), x.span().length()), (5, 1));
    assert_eq!(parser.next_token().unwrap().kind(), TokenKind::Eol);
    let eof = parser.next_token().unwrap();
    assert_eq!(eof.kind(), TokenKind::Eof);
    assert_eq!((eof.span().start(), eof.span().length()), (7, 0));
    // The end of the input is given again and again.
    assert_eq!(parser.next_token().unwrap(), eof);
    assert!(TokenKind::Eol.is_eol());
    assert!(TokenKind::Eof.is_eol());
    assert!(!TokenKind::Symbol(Symbol::Comma).is_eol());
}

#[test]
fn empty_input_is_the_end_of_input() {
    let mut parser = parser_on("");
    let eof = parser.next_token().unwrap();
    assert_eq!(eof.kind(), TokenKind::Eof);
    assert_eq!((eof.span().start(), eof.span().length()), (0, 0));
}

#[test]
fn unexpected_character_is_reported_and_taken() {
    let mut parser = parser_on("  #x");
    let error = parser.next_token().unwrap_err();
    assert_eq!(error.msg(), "unexpected character");
    let (msg, span) = hint(&error, 0);
    assert_eq!(msg, "found character '#'");
    assert_eq!((span.start(), span.length()), (3, 0));
    assert!(matches!(parser.next_token().unwrap().kind(), TokenKind::Ident(_)));

    let mut parser = parser_on("\"");
    assert_eq!(parser.next_token().unwrap_err().msg(), "unexpected character");
}

#[test]
fn peeking_twice_gives_the_same_token() {
    let mut parser = parser_on("  foo + 1");
    let first = parser.peek_token().unwrap();
    let at = parser.span();
    let second = parser.peek_token().unwrap();
    assert_eq!(first.kind(), second.kind());
    assert_eq!(first.span(), second.span());
    assert_eq!(parser.span(), at);
    let taken = parser.next_token().unwrap();
    assert_eq!(taken, first);
    assert_eq!(parser.span(), at);
    assert_eq!(parser.peek_token().unwrap().kind(), TokenKind::Symbol(Symbol::Plus));
    assert_eq!(parser.peek_token().unwrap().kind(), TokenKind::Symbol(Symbol::Plus));
}

#[test]
fn characters_are_read_one_by_one() {
    let mut parser = parser_on("a\u{e9}");
    assert_eq!(parser.peek_char(), Some('a'));
    assert_eq!(parser.next_char(), Some('a'));
    assert_eq!(parser.span().start(), 1);
    assert_eq!(parser.next_char(), Some('\u{e9}'));
    assert_eq!(parser.span().start(), 3);
    assert_eq!(parser.peek_char(), None);
    assert_eq!(parser.next_char(), None);
    assert_eq!(parser.span().start(), 3);
}

#[test]
fn expect_names_what_was_expected_and_what_was_found() {
    let mut parser = parser_on(", x");
    let span = parser.expect(TokenKind::Symbol(Symbol::Comma)).unwrap();
    assert_eq!((span.start(), span.length()), (0, 1));
    let error = parser.expect(TokenKind::Symbol(Symbol::Open(Delim::Paren))).unwrap_err();
    assert_eq!(error.msg(), "expected 'Symbol(Open(Paren))'");
    let (msg, span) = hint(&error, 0);
    assert_eq!(msg, "found 'Ident(\"x\")'");
    assert_eq!((span.start(), span.length()), (2, 1));
}

#[test]
fn expect_eol_takes_a_line_break_or_the_end() {
    let mut parser = parser_on("\n");
    assert!(parser.expect_eol().is_ok());
    assert!(parser.expect_eol().is_ok());
    let mut parser = parser_on("12");
    let error = parser.expect_eol().unwrap_err();
    assert_eq!(error.msg(), "expected 'end of line'");
    assert_eq!(
        hint(&error, 0).0,
        "found 'Integer(Integer { value: 21, kind: Decimal })'"
    );
}

#[test]
fn skip_eol_stops_before_the_next_token() {
    let mut parser = parser_on("\n\n \n x");
    parser.skip_eol().unwrap();
    assert!(matches!(parser.next_token().unwrap().kind(), TokenKind::Ident(_)));
    parser.skip_eol().unwrap();
    assert_eq!(parser.next_token().unwrap().kind(), TokenKind::Eof);
}

#[test]
fn tokens_are_described_for_diagnostics() {
    let mut allocator = StringAllocator::new();
    let r = allocator.get("name");
    assert_eq!(TokenKind::Ident(r).describe(&allocator), "Ident(\"name\")");
    assert_eq!(TokenKind::String(r).describe(&allocator), "String(\"name\")");
    assert_eq!(TokenKind::Comment(r).describe(&allocator), "Comment(\"name\")");
    assert_eq!(TokenKind::Keyword(Keyword::Ln).describe(&allocator), "Keyword(Ln)");
    assert_eq!(TokenKind::Symbol(Symbol::GtEqual).describe(&allocator), "Symbol(GtEqual)");
    assert_eq!(
        TokenKind::Symbol(Symbol::Close(Delim::Brace)).describe(&allocator),
        "Symbol(Close(Brace))"
    );
    assert_eq!(
        TokenKind::Integer(dqk_parser::Integer::new(-120, IntegerKind::Hex)).describe(&allocator),
        "Integer(Integer { value: -120, kind: Hex })"
    );
    assert_eq!(
        TokenKind::Integer(dqk_parser::Integer::new(i64::MIN, IntegerKind::Binary))
            .describe(&allocator),
        "Integer(Integer { value: -9223372036854775808, kind: Binary })"
    );
    assert_eq!(
        TokenKind::Float(dqk_parser::Float::from_bits(1.5f64.to_bits())).describe(&allocator),
        format!("Float(Float {{ bits: {} }})", 1.5f64.to_bits())
    );
    assert_eq!(TokenKind::Eol.describe(&allocator), "Eol");
    assert_eq!(TokenKind::Eof.describe(&allocator), "Eof");
}

#[test]
fn radix_of_each_notation() {
    assert_eq!(IntegerKind::Binary.radix(), 2);
    assert_eq!(IntegerKind::Decimal.radix(), 10);
    assert_eq!(IntegerKind::Hex.radix(), 16);
}
