//! The lexical rules, as functions of the source text and a position in it.
//!
//! A position is an index into the characters of the source. Spans are in
//! bytes: the offset of a position is the length in UTF-8 of the text before
//! it.

use crate::error::{ErrorView, HintView};
use crate::span::Span;
use crate::string_allocator::{intern, lemma_intern, PathRef, StableRef};
use crate::text::{
    digit_of, lemma_offset_bounds, offset_at, unicode_alphabetic, unicode_numeric,
    unicode_white_space, utf8_len,
};
use crate::token::{Delim, Integer, IntegerKind, Keyword, Symbol, Token, TokenKind};
use vstd::arithmetic::power::pow;
use vstd::prelude::*;

verus! {

/// White space that separates tokens without ending a line.
pub open spec fn is_blank(c: char) -> bool {
    unicode_white_space(c) && c != '\n'
}

/// A character that may start an identifier.
pub open spec fn is_ident_start(c: char) -> bool {
    c == '_' || unicode_alphabetic(c)
}

/// A character that may continue an identifier.
pub open spec fn is_ident_part(c: char) -> bool {
    c == '_' || unicode_alphabetic(c) || unicode_numeric(c)
}

/// The first position at or after `pos` that holds no blank.
pub open spec fn skip_blank(chars: Seq<char>, pos: int) -> int
    decreases chars.len() - pos,
{
    if 0 <= pos < chars.len() && is_blank(chars[pos]) {
        skip_blank(chars, pos + 1)
    } else {
        pos
    }
}

/// The first position at or after `pos` that holds no digit of `radix`.
pub open spec fn digit_run(chars: Seq<char>, pos: int, radix: u32) -> int
    decreases chars.len() - pos,
{
    if 0 <= pos < chars.len() && digit_of(chars[pos], radix) is Some {
        digit_run(chars, pos + 1, radix)
    } else {
        pos
    }
}

/// The first position at or after `pos` that cannot continue an identifier.
pub open spec fn ident_run(chars: Seq<char>, pos: int) -> int
    decreases chars.len() - pos,
{
    if 0 <= pos < chars.len() && is_ident_part(chars[pos]) {
        ident_run(chars, pos + 1)
    } else {
        pos
    }
}

/// Where the identifier that starts at `pos` ends; `pos` itself where none
/// starts there.
pub open spec fn ident_end(chars: Seq<char>, pos: int) -> int {
    if 0 <= pos < chars.len() && is_ident_start(chars[pos]) {
        ident_run(chars, pos + 1)
    } else {
        pos
    }
}

/// The digit that `c` stands for, and zero where it stands for none.
pub open spec fn digit_value(c: char, radix: u32) -> int {
    match digit_of(c, radix) {
        Some(d) => d as int,
        None => 0,
    }
}

/// The digits from `from` up to `to`, read with the first digit as the
/// least significant: the digit at `from + i` counts `radix` to the `i`.
pub open spec fn lsf_value(chars: Seq<char>, from: int, to: int, radix: u32) -> int
    decreases to - from,
{
    if to <= from {
        0
    } else {
        lsf_value(chars, from, to - 1, radix) + digit_value(chars[to - 1], radix) * pow(
            radix as int,
            (to - 1 - from) as nat,
        )
    }
}

/// The 64-bit signed integer that is congruent to `n` modulo 2 to the 64.
pub open spec fn wrap_i64(n: int) -> i64 {
    let m = n % 0x1_0000_0000_0000_0000;
    if m < 0x8000_0000_0000_0000 {
        m as i64
    } else {
        (m - 0x1_0000_0000_0000_0000) as i64
    }
}

/// The empty span at position `pos`.
pub open spec fn here(file: PathRef, chars: Seq<char>, pos: int) -> Span {
    Span { file_path: Some(file), start: offset_at(chars, pos) as usize, length: 0 }
}

/// The span of the text from `from` up to `to`.
pub open spec fn between(file: PathRef, chars: Seq<char>, from: int, to: int) -> Span {
    Span {
        file_path: Some(file),
        start: offset_at(chars, from) as usize,
        length: (offset_at(chars, to) - offset_at(chars, from)) as usize,
    }
}

/// The error for a radix marker that no digit follows.
pub open spec fn malformed_integer(span: Span) -> ErrorView {
    ErrorView {
        msg: "malformed integer"@,
        hints: seq![HintView { msg: "expected integer after radix"@, span }],
    }
}

/// The error for a character that starts no token.
pub open spec fn unexpected_character(c: char, span: Span) -> ErrorView {
    ErrorView {
        msg: "unexpected character"@,
        hints: seq![HintView { msg: "found character '"@.push(c) + "'"@, span }],
    }
}

/// The error for a token other than the one that the grammar asks for:
/// `msg` names what was expected, the hint shows what was found, and where.
pub open spec fn unexpected(msg: Seq<char>, found: Token, table: Seq<Seq<char>>) -> ErrorView {
    ErrorView {
        msg,
        hints: seq![
            HintView { msg: "found '"@ + found.kind.text(table) + "'"@, span: found.span },
        ],
    }
}

/// The integer literal at `pos`, and where it ends. `None` where no decimal
/// digit stands at `pos`. A single `0` directly before `b` or `x` is a radix
/// marker: the digits after it are binary or hexadecimal, and there must be
/// one at least.
pub open spec fn integer_at(chars: Seq<char>, file: PathRef, pos: int) -> Option<
    (core::result::Result<Integer, ErrorView>, int),
> {
    let end = digit_run(chars, pos, 10);
    if end == pos {
        None
    } else if end == pos + 1 && chars[pos] == '0' && end < chars.len() && (chars[end] == 'b'
        || chars[end] == 'x') {
        let kind = if chars[end] == 'b' {
            IntegerKind::Binary
        } else {
            IntegerKind::Hex
        };
        let stop = digit_run(chars, end + 1, kind.radix_spec());
        if stop == end + 1 {
            Some((Err(malformed_integer(here(file, chars, stop))), stop))
        } else {
            Some(
                (
                    Ok(
                        Integer {
                            value: wrap_i64(lsf_value(chars, end + 1, stop, kind.radix_spec())),
                            kind,
                        },
                    ),
                    stop,
                ),
            )
        }
    } else {
        Some(
            (
                Ok(
                    Integer {
                        value: wrap_i64(lsf_value(chars, pos, end, 10)),
                        kind: IntegerKind::Decimal,
                    },
                ),
                end,
            ),
        )
    }
}

/// The keyword that is spelled `text`, if there is one.
pub open spec fn keyword_of(text: Seq<char>) -> Option<Keyword> {
    if text == Keyword::Event.spelling() {
        Some(Keyword::Event)
    } else if text == Keyword::Query.spelling() {
        Some(Keyword::Query)
    } else if text == Keyword::Where.spelling() {
        Some(Keyword::Where)
    } else if text == Keyword::Ln.spelling() {
        Some(Keyword::Ln)
    } else if text == Keyword::Fn.spelling() {
        Some(Keyword::Fn)
    } else if text == Keyword::If.spelling() {
        Some(Keyword::If)
    } else if text == Keyword::For.spelling() {
        Some(Keyword::For)
    } else if text == Keyword::Else.spelling() {
        Some(Keyword::Else)
    } else if text == Keyword::Return.spelling() {
        Some(Keyword::Return)
    } else {
        None
    }
}

/// The symbol that the single character `c` spells, if it spells one.
pub open spec fn single_symbol(c: char) -> Option<Symbol> {
    if c == '(' {
        Some(Symbol::Open(Delim::Paren))
    } else if c == '{' {
        Some(Symbol::Open(Delim::Brace))
    } else if c == '[' {
        Some(Symbol::Open(Delim::Bracket))
    } else if c == ')' {
        Some(Symbol::Close(Delim::Paren))
    } else if c == '}' {
        Some(Symbol::Close(Delim::Brace))
    } else if c == ']' {
        Some(Symbol::Close(Delim::Bracket))
    } else if c == ':' {
        Some(Symbol::Colon)
    } else if c == ';' {
        Some(Symbol::SemiColon)
    } else if c == ',' {
        Some(Symbol::Comma)
    } else if c == '.' {
        Some(Symbol::Period)
    } else if c == '+' {
        Some(Symbol::Plus)
    } else if c == '-' {
        Some(Symbol::Minus)
    } else if c == '*' {
        Some(Symbol::Asterisk)
    } else if c == '/' {
        Some(Symbol::Slash)
    } else if c == '=' {
        Some(Symbol::Equal)
    } else if c == '>' {
        Some(Symbol::Gt)
    } else if c == '<' {
        Some(Symbol::Lt)
    } else {
        None
    }
}

/// The symbol that a symbol followed by `=` makes, for the four that make one.
pub open spec fn with_equal(s: Symbol) -> Option<Symbol> {
    match s {
        Symbol::Colon => Some(Symbol::ColonEqual),
        Symbol::Equal => Some(Symbol::EqualEqual),
        Symbol::Gt => Some(Symbol::GtEqual),
        Symbol::Lt => Some(Symbol::LtEqual),
        _ => None,
    }
}

/// The symbol at `pos`, and where it ends: the longest that the characters
/// there spell.
pub open spec fn symbol_at(chars: Seq<char>, pos: int) -> Option<(Symbol, int)> {
    if 0 <= pos < chars.len() {
        match single_symbol(chars[pos]) {
            Some(s) => {
                if pos + 1 < chars.len() && chars[pos + 1] == '=' && with_equal(s) is Some {
                    Some((with_equal(s)->0, pos + 2))
                } else {
                    Some((s, pos + 1))
                }
            },
            None => None,
        }
    } else {
        None
    }
}

/// What reading one token gives: the token or the error, the position after
/// it, and the table of interned strings after it.
pub struct Lexed {
    pub result: core::result::Result<Token, ErrorView>,
    pub pos: int,
    pub table: Seq<Seq<char>>,
}

/// The token that starts at `start`, which holds no blank, is not the end
/// of the text and not a line break. The rules are tried in this order: an
/// integer, an identifier or keyword, a symbol.
pub open spec fn lex_word(
    chars: Seq<char>,
    file: PathRef,
    start: int,
    table: Seq<Seq<char>>,
) -> Lexed {
    match integer_at(chars, file, start) {
        Some((Ok(integer), end)) => Lexed {
            result: Ok(
                Token { kind: TokenKind::Integer(integer), span: between(file, chars, start, end) },
            ),
            pos: end,
            table,
        },
        Some((Err(error), end)) => Lexed { result: Err(error), pos: end, table },
        None => {
            let end = ident_end(chars, start);
            if end > start {
                let spelling = chars.subrange(start, end);
                let (grown, index) = intern(table, spelling);
                let kind = match keyword_of(spelling) {
                    Some(keyword) => TokenKind::Keyword(keyword),
                    None => TokenKind::Ident(StableRef { index: index as usize }),
                };
                Lexed {
                    result: Ok(Token { kind, span: between(file, chars, start, end) }),
                    pos: end,
                    table: grown,
                }
            } else {
                match symbol_at(chars, start) {
                    Some((symbol, end)) => Lexed {
                        result: Ok(
                            Token {
                                kind: TokenKind::Symbol(symbol),
                                span: between(file, chars, start, end),
                            },
                        ),
                        pos: end,
                        table,
                    },
                    None => Lexed {
                        result: Err(
                            unexpected_character(chars[start], here(file, chars, start + 1)),
                        ),
                        pos: start + 1,
                        table,
                    },
                }
            }
        },
    }
}

/// The token read from `pos` on. Blanks before it are passed over. The end
/// of the text gives `Eof` and a line break `Eol`, each with an empty span
/// at the position reached.
pub open spec fn lex(chars: Seq<char>, file: PathRef, pos: int, table: Seq<Seq<char>>) -> Lexed {
    let start = skip_blank(chars, pos);
    if start >= chars.len() {
        Lexed {
            result: Ok(Token { kind: TokenKind::Eof, span: here(file, chars, start) }),
            pos: start,
            table,
        }
    } else if chars[start] == '\n' {
        Lexed {
            result: Ok(Token { kind: TokenKind::Eol, span: here(file, chars, start + 1) }),
            pos: start + 1,
            table,
        }
    } else {
        lex_word(chars, file, start, table)
    }
}

/// A run of blanks ends at or after its start, within the text.
pub proof fn lemma_skip_blank(chars: Seq<char>, pos: int)
    requires
        0 <= pos <= chars.len(),
    ensures
        pos <= skip_blank(chars, pos) <= chars.len(),
        skip_blank(chars, pos) < chars.len() ==> !is_blank(chars[skip_blank(chars, pos)]),
        forall|k: int| pos <= k < skip_blank(chars, pos) ==> is_blank(#[trigger] chars[k]),
    decreases chars.len() - pos,
{
    if pos < chars.len() && is_blank(chars[pos]) {
        lemma_skip_blank(chars, pos + 1);
    }
}

/// A run of digits ends at or after its start, within the text.
pub proof fn lemma_digit_run(chars: Seq<char>, pos: int, radix: u32)
    requires
        0 <= pos <= chars.len(),
    ensures
        pos <= digit_run(chars, pos, radix) <= chars.len(),
        digit_run(chars, pos, radix) < chars.len() ==> digit_of(
            chars[digit_run(chars, pos, radix)],
            radix,
        ) is None,
        forall|k: int|
            pos <= k < digit_run(chars, pos, radix) ==> digit_of(#[trigger] chars[k], radix) is Some,
    decreases chars.len() - pos,
{
    if pos < chars.len() && digit_of(chars[pos], radix) is Some {
        lemma_digit_run(chars, pos + 1, radix);
    }
}

/// A run of identifier characters ends at or after its start, within the text.
pub proof fn lemma_ident_run(chars: Seq<char>, pos: int)
    requires
        0 <= pos <= chars.len(),
    ensures
        pos <= ident_run(chars, pos) <= chars.len(),
        ident_run(chars, pos) < chars.len() ==> !is_ident_part(chars[ident_run(chars, pos)]),
        forall|k: int| pos <= k < ident_run(chars, pos) ==> is_ident_part(#[trigger] chars[k]),
    decreases chars.len() - pos,
{
    if pos < chars.len() && is_ident_part(chars[pos]) {
        lemma_ident_run(chars, pos + 1);
    }
}

/// The span between two positions of a text that the machine can address is
/// well formed, and is the union of the empty spans at its two ends.
pub proof fn lemma_between(file: PathRef, chars: Seq<char>, from: int, to: int)
    requires
        0 <= from <= to <= chars.len(),
        utf8_len(chars) <= usize::MAX,
    ensures
        here(file, chars, from).well_formed(),
        here(file, chars, to).well_formed(),
        between(file, chars, from, to).well_formed(),
        between(file, chars, from, to) == here(file, chars, from).merge(here(file, chars, to)),
        here(file, chars, from).start == offset_at(chars, from),
        between(file, chars, from, to).end_spec() == offset_at(chars, to),
{
    lemma_offset_bounds(chars, from, to);
}

/// Reading a token never moves back and never leaves the text; every token
/// but `Eof` takes at least one character; `Eof` comes only with the text
/// used up; and the token read lies in the unit that is read.
pub proof fn lemma_lex(chars: Seq<char>, file: PathRef, pos: int, table: Seq<Seq<char>>)
    requires
        0 <= pos <= chars.len(),
    ensures
        pos <= lex(chars, file, pos, table).pos <= chars.len(),
        table.len() <= lex(chars, file, pos, table).table.len(),
        forall|k: int|
            0 <= k < table.len() ==> (#[trigger] lex(chars, file, pos, table).table[k]) == table[k],
        match lex(chars, file, pos, table).result {
            Ok(token) => {
                &&& token.span.file_path == Some(file)
                &&& utf8_len(chars) <= usize::MAX ==> token.span.well_formed()
                &&& token.kind is Eof ==> lex(chars, file, pos, table).pos == chars.len()
                &&& !(token.kind is Eof) ==> lex(chars, file, pos, table).pos > pos
                &&& token.kind matches TokenKind::Ident(r) ==> r.index < lex(
                    chars,
                    file,
                    pos,
                    table,
                ).table.len()
            },
            Err(error) => lex(chars, file, pos, table).pos > pos,
        },
{
    let start = skip_blank(chars, pos);
    lemma_skip_blank(chars, pos);
    if start >= chars.len() {
        if utf8_len(chars) <= usize::MAX {
            lemma_between(file, chars, start, start);
        }
    } else if chars[start] == '\n' {
        if utf8_len(chars) <= usize::MAX {
            lemma_between(file, chars, start + 1, start + 1);
        }
    } else {
        let end = digit_run(chars, start, 10);
        lemma_digit_run(chars, start, 10);
        if end == start {
            let stop = ident_end(chars, start);
            if is_ident_start(chars[start]) {
                lemma_ident_run(chars, start + 1);
            }
            if stop > start {
                lemma_intern(table, chars.subrange(start, stop));
                if utf8_len(chars) <= usize::MAX {
                    lemma_between(file, chars, start, stop);
                }
            } else {
                match symbol_at(chars, start) {
                    Some((symbol, finish)) => {
                        if utf8_len(chars) <= usize::MAX {
                            lemma_between(file, chars, start, finish);
                        }
                    },
                    None => {},
                }
            }
        } else if end == start + 1 && chars[start] == '0' && end < chars.len() && (chars[end] == 'b'
            || chars[end] == 'x') {
            let kind = if chars[end] == 'b' {
                IntegerKind::Binary
            } else {
                IntegerKind::Hex
            };
            let stop = digit_run(chars, end + 1, kind.radix_spec());
            lemma_digit_run(chars, end + 1, kind.radix_spec());
            if utf8_len(chars) <= usize::MAX {
                lemma_between(file, chars, start, stop);
            }
        } else {
            if utf8_len(chars) <= usize::MAX {
                lemma_between(file, chars, start, end);
            }
        }
    }
}

} // verus!
