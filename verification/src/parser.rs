//! The parser's cursor: a position in the source, the table of interned
//! strings, and one token of lookahead.

use crate::error::{seen, Error, ErrorView, Result};
use crate::lexer::{
    digit_value, digit_run, here, ident_end, ident_run, integer_at, keyword_of, lemma_between,
    lemma_digit_run, lemma_lex, lemma_skip_blank, lex, lsf_value, single_symbol, skip_blank,
    symbol_at, unexpected, with_equal, wrap_i64,
};
use crate::parse::Parse;
use crate::span::{Span, Spanned};
use crate::string_allocator::{intern, PathRef, StableRef, StringAllocator};
use crate::text::{
    digit_of, lemma_offset_bounds, lemma_offset_step, len_utf8, offset_at, str_eq, to_digit,
    utf8_len,
};
use crate::token::{Delim, Integer, IntegerKind, Keyword, Symbol, Token, TokenKind};
use vstd::arithmetic::div_mod::{
    lemma_add_mod_noop, lemma_mul_mod_noop_left, lemma_mul_mod_noop_right, lemma_small_mod,
};
use vstd::arithmetic::power::{lemma_pow0, pow};
use vstd::prelude::*;
use vstd::string::StringExecFns;

verus! {

/// The state of a parser: the characters of the source, the position of the
/// next one to read, the unit they belong to, the token that was looked at
/// and not yet taken, and the table of interned strings.
pub struct ParserView {
    pub chars: Seq<char>,
    pub pos: int,
    pub file: PathRef,
    pub pending: Option<Token>,
    pub table: Seq<Seq<char>>,
}

/// What an operation of the parser gives: its result, and the state that it
/// leaves the parser in.
pub struct Outcome<T> {
    pub result: core::result::Result<T, ErrorView>,
    pub after: ParserView,
}

impl ParserView {
    /// The position lies in the text, the machine can address every byte of
    /// the text, and the token looked at lies in the unit that is read.
    pub open spec fn valid(self) -> bool {
        &&& 0 <= self.pos <= self.chars.len()
        &&& utf8_len(self.chars) <= usize::MAX
        &&& self.pending matches Some(token) ==> token.span.well_formed() && token.span.file_path
            == Some(self.file)
    }

    /// A measure of the input that is left: it never grows, and it shrinks
    /// whenever a token other than the end of the input is taken.
    pub open spec fn remaining(self) -> nat {
        let unread: nat = if 0 <= self.pos <= self.chars.len() {
            (2 * (self.chars.len() - self.pos)) as nat
        } else {
            0
        };
        let held: nat = match self.pending {
            Some(token) => if token.kind is Eof {
                0
            } else {
                1
            },
            None => 0,
        };
        unread + held
    }

    /// The same state at another position.
    pub open spec fn at(self, pos: int) -> ParserView {
        ParserView { pos, ..self }
    }

    /// The empty span at the position of the cursor.
    pub open spec fn position(self) -> Span {
        here(self.file, self.chars, self.pos)
    }

    /// The next character, if there is one.
    pub open spec fn peek_char(self) -> Option<char> {
        if 0 <= self.pos < self.chars.len() {
            Some(self.chars[self.pos])
        } else {
            None
        }
    }

    /// Taking the next character: the cursor moves past it.
    pub open spec fn next_char(self) -> (Option<char>, ParserView) {
        if 0 <= self.pos < self.chars.len() {
            (Some(self.chars[self.pos]), self.at(self.pos + 1))
        } else {
            (None, self)
        }
    }

    /// Reading a token at the cursor, whatever token is held.
    pub open spec fn read_token(self) -> Outcome<Token> {
        let lexed = lex(self.chars, self.file, self.pos, self.table);
        Outcome {
            result: lexed.result,
            after: ParserView { pos: lexed.pos, table: lexed.table, ..self },
        }
    }

    /// Taking a token: the one that is held, if one is, else one read at the
    /// cursor.
    pub open spec fn next_token(self) -> Outcome<Token> {
        match self.pending {
            Some(token) => Outcome {
                result: Ok(token),
                after: ParserView { pending: None, ..self },
            },
            None => self.read_token(),
        }
    }

    /// Looking at the next token: the one that is held, if one is, else one
    /// read at the cursor, which is then held.
    pub open spec fn peek_token(self) -> Outcome<Token> {
        match self.pending {
            Some(token) => Outcome { result: Ok(token), after: self },
            None => {
                let read = self.read_token();
                match read.result {
                    Ok(token) => Outcome {
                        result: Ok(token),
                        after: ParserView { pending: Some(token), ..read.after },
                    },
                    Err(error) => read,
                }
            },
        }
    }

    /// Taking a token that must be of the kind `kind`.
    pub open spec fn expect(self, kind: TokenKind) -> Outcome<Span> {
        let next = self.next_token();
        match next.result {
            Ok(token) => if token.kind == kind {
                Outcome { result: Ok(token.span), after: next.after }
            } else {
                Outcome {
                    result: Err(
                        unexpected(
                            "expected '"@ + kind.text(next.after.table) + "'"@,
                            token,
                            next.after.table,
                        ),
                    ),
                    after: next.after,
                }
            },
            Err(error) => Outcome { result: Err(error), after: next.after },
        }
    }

    /// Taking a token that must end a line.
    pub open spec fn expect_eol(self) -> Outcome<Span> {
        let next = self.next_token();
        match next.result {
            Ok(token) => if token.kind.is_eol_spec() {
                Outcome { result: Ok(token.span), after: next.after }
            } else {
                Outcome {
                    result: Err(unexpected("expected 'end of line'"@, token, next.after.table)),
                    after: next.after,
                }
            },
            Err(error) => Outcome { result: Err(error), after: next.after },
        }
    }

    /// Taking every end of line that comes next. The token after them is
    /// looked at and held.
    pub open spec fn skip_eol(self) -> Outcome<()>
        decreases self.remaining(),
    {
        let peeked = self.peek_token();
        match peeked.result {
            Ok(token) => if token.kind is Eol && self.valid() {
                proof {
                    lemma_peek_token(self);
                }
                (ParserView { pending: None, ..peeked.after }).skip_eol()
            } else {
                Outcome { result: Ok(()), after: peeked.after }
            },
            Err(error) => Outcome { result: Err(error), after: peeked.after },
        }
    }
}

/// The outcome of an operation that gave `value`.
pub open spec fn done<T>(value: T, after: ParserView) -> Outcome<T> {
    Outcome { result: Ok(value), after }
}

/// The outcome of an operation that failed with `error`.
pub open spec fn fail<T>(error: ErrorView, after: ParserView) -> Outcome<T> {
    Outcome { result: Err(error), after }
}

/// Stands where a rule that repeats needs the input to have shrunk and it
/// has not. No valid state leads here, as every rule that is repeated takes
/// a token: the parsing functions promise that an error of theirs has a
/// message, and this one has none.
pub open spec fn stalled<T>(after: ParserView) -> Outcome<T> {
    Outcome { result: Err(ErrorView { msg: Seq::empty(), hints: Seq::empty() }), after }
}

/// The result is no error without a message.
pub open spec fn told<T>(r: Result<T>) -> bool {
    r matches Err(error) ==> error@.msg.len() > 0
}

/// One state follows another in the course of parsing: the text and the
/// unit are the same, the state is valid, no input has come back, and every
/// interned string has kept its place.
pub open spec fn follows(after: ParserView, before: ParserView) -> bool {
    &&& after.chars == before.chars
    &&& after.file == before.file
    &&& after.valid()
    &&& after.remaining() <= before.remaining()
    &&& before.table.len() <= after.table.len()
    &&& forall|k: int| 0 <= k < before.table.len() ==> (#[trigger] after.table[k]) == before.table[k]
}

/// Reading a token leads to a state that follows.
pub proof fn lemma_read_token(v: ParserView)
    requires
        v.valid(),
    ensures
        follows(v.read_token().after, v),
        v.read_token().after.pending == v.pending,
        v.pos <= v.read_token().after.pos,
        match v.read_token().result {
            Ok(token) => {
                &&& token.span.well_formed()
                &&& token.span.file_path == Some(v.file)
                &&& !(token.kind is Eof) ==> v.read_token().after.pos > v.pos
                &&& token.kind is Eof ==> v.read_token().after.pos == v.chars.len()
            },
            Err(error) => true,
        },
{
    lemma_lex(v.chars, v.file, v.pos, v.table);
}

/// Taking a token leads to a state that follows, and to less input unless
/// the token is the end of the input.
pub proof fn lemma_next_token(v: ParserView)
    requires
        v.valid(),
    ensures
        follows(v.next_token().after, v),
        v.next_token().after.pending is None,
        match v.next_token().result {
            Ok(token) => {
                &&& token.span.well_formed()
                &&& token.span.file_path == Some(v.file)
                &&& !(token.kind is Eof) ==> v.next_token().after.remaining() < v.remaining()
            },
            Err(error) => true,
        },
{
    lemma_read_token(v);
}

/// Looking at a token leads to a state that follows and that holds the token.
pub proof fn lemma_peek_token(v: ParserView)
    requires
        v.valid(),
    ensures
        follows(v.peek_token().after, v),
        match v.peek_token().result {
            Ok(token) => {
                &&& token.span.well_formed()
                &&& token.span.file_path == Some(v.file)
                &&& v.peek_token().after.pending == Some(token)
                &&& !(token.kind is Eof) ==> v.peek_token().after.remaining() >= 1
            },
            Err(error) => v.peek_token().after.pending is None,
        },
{
    lemma_read_token(v);
}

/// Looking twice without taking gives the same token both times, and the
/// second look changes nothing.
pub proof fn peek_token_twice(v: ParserView)
    ensures
        v.peek_token().result is Ok ==> v.peek_token().after.peek_token() == v.peek_token(),
{
}

/// A token that was looked at is the one that is taken next, and taking it
/// moves the cursor no further.
pub proof fn next_token_after_peek(v: ParserView)
    ensures
        v.peek_token().result is Ok ==> {
            &&& v.peek_token().after.next_token().result == v.peek_token().result
            &&& v.peek_token().after.next_token().after == (ParserView {
                pending: None,
                ..v.peek_token().after
            })
        },
{
}

/// Skipping ends of line leads to a state that follows, in which the next
/// token is held and is no end of line.
pub proof fn lemma_skip_eol(v: ParserView)
    requires
        v.valid(),
    ensures
        follows(v.skip_eol().after, v),
        v.skip_eol().result is Ok ==> (v.skip_eol().after.pending matches Some(token)
            && !(token.kind is Eol)),
    decreases v.remaining(),
{
    lemma_peek_token(v);
    let peeked = v.peek_token();
    match peeked.result {
        Ok(token) => {
            if token.kind is Eol {
                lemma_skip_eol(ParserView { pending: None, ..peeked.after });
            }
        },
        Err(error) => {},
    }
}

/// The result of an operation together with the state that it left.
pub open spec fn outcome<T>(result: Result<T>, after: ParserView) -> Outcome<T> {
    Outcome { result: seen(result), after }
}

/// A reader of one source text: a cursor over its characters that turns them
/// into tokens on request, with one token of lookahead.
pub struct Parser {
    string_allocator: StringAllocator,
    file_path: PathRef,
    start: usize,
    chars: Vec<char>,
    pos: usize,
    next_token: Option<Token>,
}

impl View for Parser {
    type V = ParserView;

    closed spec fn view(&self) -> ParserView {
        ParserView {
            chars: self.chars@,
            pos: self.pos as int,
            file: self.file_path,
            pending: self.next_token,
            table: self.string_allocator@,
        }
    }
}

/// The characters of `src`.
fn chars_of(src: &str) -> (chars: Vec<char>)
    ensures
        chars@ == src@,
{
    let mut chars: Vec<char> = Vec::new();
    for c in it: src.chars()
        invariant
            chars@ == it.seq().take(it.index()),
    {
        chars.push(c);
    }
    chars
}

/// The keyword that `text` spells, if it spells one.
fn keyword(text: &str) -> (k: Option<Keyword>)
    ensures
        k == keyword_of(text@),
{
    if str_eq(text, "event") {
        Some(Keyword::Event)
    } else if str_eq(text, "query") {
        Some(Keyword::Query)
    } else if str_eq(text, "where") {
        Some(Keyword::Where)
    } else if str_eq(text, "ln") {
        Some(Keyword::Ln)
    } else if str_eq(text, "fn") {
        Some(Keyword::Fn)
    } else if str_eq(text, "if") {
        Some(Keyword::If)
    } else if str_eq(text, "for") {
        Some(Keyword::For)
    } else if str_eq(text, "else") {
        Some(Keyword::Else)
    } else if str_eq(text, "return") {
        Some(Keyword::Return)
    } else {
        None
    }
}

/// The symbol that `c` spells alone, if it spells one.
fn single(c: char) -> (s: Option<Symbol>)
    ensures
        s == single_symbol(c),
{
    if c == '(' {
        Some(Symbol::Open(Delim::Paren))
    } else if c == '{' {
        Some(Symbol::Open(Delim::Brace))
    } else if c == '[' {
        Some(Symbol::Open(Delim::Bracket))
    } else if c == ')' {
        Some(Symbol::Close(Delim::Paren))
    } else if c == '}' {
        Some(Symbol::Close(Delim::Brace))
    } else if c == ']' {
        Some(Symbol::Close(Delim::Bracket))
    } else if c == ':' {
        Some(Symbol::Colon)
    } else if c == ';' {
        Some(Symbol::SemiColon)
    } else if c == ',' {
        Some(Symbol::Comma)
    } else if c == '.' {
        Some(Symbol::Period)
    } else if c == '+' {
        Some(Symbol::Plus)
    } else if c == '-' {
        Some(Symbol::Minus)
    } else if c == '*' {
        Some(Symbol::Asterisk)
    } else if c == '/' {
        Some(Symbol::Slash)
    } else if c == '=' {
        Some(Symbol::Equal)
    } else if c == '>' {
        Some(Symbol::Gt)
    } else if c == '<' {
        Some(Symbol::Lt)
    } else {
        None
    }
}

/// The symbol that `s` makes with `=` behind it, if it makes one.
fn doubled(s: Symbol) -> (d: Option<Symbol>)
    ensures
        d == with_equal(s),
{
    match s {
        Symbol::Colon => Some(Symbol::ColonEqual),
        Symbol::Equal => Some(Symbol::EqualEqual),
        Symbol::Gt => Some(Symbol::GtEqual),
        Symbol::Lt => Some(Symbol::LtEqual),
        _ => None,
    }
}

/// The signed integer with the same 64 bits.
fn reinterpret(bits: u64) -> (value: i64)
    ensures
        value == wrap_i64(bits as int),
{
    assert(bits as int % 0x1_0000_0000_0000_0000 == bits as int) by {
        lemma_small_mod(bits as nat, 0x1_0000_0000_0000_0000);
    }
    if bits < 0x8000_0000_0000_0000 {
        bits as i64
    } else {
        ((bits - 0x8000_0000_0000_0000) as i64) + i64::MIN
    }
}

/// One more digit, with the first digit as the least significant: the sum
/// and the weight of the next digit, both modulo 2 to the 64.
proof fn lemma_lsf_step(
    chars: Seq<char>,
    from: int,
    to: int,
    radix: u32,
    sum: u64,
    weight: u64,
    digit: u32,
)
    requires
        0 <= from <= to < chars.len(),
        digit_of(chars[to], radix) == Some(digit),
        sum as int == lsf_value(chars, from, to, radix) % 0x1_0000_0000_0000_0000,
        weight as int == pow(radix as int, (to - from) as nat) % 0x1_0000_0000_0000_0000,
    ensures
        vstd::wrapping::u64_specs::wrapping_add(
            sum,
            vstd::wrapping::u64_specs::wrapping_mul(digit as u64, weight),
        ) as int == lsf_value(chars, from, to + 1, radix) % 0x1_0000_0000_0000_0000,
        vstd::wrapping::u64_specs::wrapping_mul(weight, radix as u64) as int == pow(
            radix as int,
            (to + 1 - from) as nat,
        ) % 0x1_0000_0000_0000_0000,
{
    let m: int = 0x1_0000_0000_0000_0000;
    let l = lsf_value(chars, from, to, radix);
    let w = pow(radix as int, (to - from) as nat);
    let d = digit as int;
    let term = vstd::wrapping::u64_specs::wrapping_mul(digit as u64, weight);
    assert(term as int == (d * (w % m)) % m);
    lemma_mul_mod_noop_right(d, w, m);
    assert(term as int == (d * w) % m);
    let total = vstd::wrapping::u64_specs::wrapping_add(sum, term);
    assert(total as int == (sum as int + term as int) % m) by {
        if sum as int + term as int >= m {
            assert(total as int == sum as int + term as int - m);
            lemma_small_mod((sum as int + term as int - m) as nat, m as nat);
            vstd::arithmetic::div_mod::lemma_mod_sub_multiples_vanish(
                sum as int + term as int,
                m,
            );
        } else {
            lemma_small_mod((sum as int + term as int) as nat, m as nat);
        }
    }
    lemma_add_mod_noop(l, d * w, m);
    assert(lsf_value(chars, from, to + 1, radix) == l + digit_value(chars[to], radix) * w);
    let next = vstd::wrapping::u64_specs::wrapping_mul(weight, radix as u64);
    assert(next as int == ((w % m) * (radix as int)) % m);
    lemma_mul_mod_noop_left(w, radix as int, m);
    assert(pow(radix as int, (to + 1 - from) as nat) == (radix as int) * w) by {
        reveal(pow);
    }
    assert(w * (radix as int) == (radix as int) * w) by (nonlinear_arith);
}

impl Parser {
    /// The byte offset that is kept for the cursor is that of its position.
    pub closed spec fn synced(&self) -> bool {
        self.start == offset_at(self.chars@, self.pos as int)
    }

    /// What every parser holds to: its state is valid and its byte offset is
    /// that of its position.
    pub open spec fn wf(&self) -> bool {
        self@.valid() && self.synced()
    }

    /// A parser at the start of `src`, which is the text of the unit
    /// `file_path`, interning into `string_allocator`.
    pub fn new(src: &str, file_path: PathRef, string_allocator: StringAllocator) -> (parser: Self)
        ensures
            parser.wf(),
            parser@ == (ParserView {
                chars: src@,
                pos: 0,
                file: file_path,
                pending: None,
                table: string_allocator@,
            }),
    {
        // The text is held in memory, so its length in bytes is a `usize`,
        // and so is every offset into it.
        let size = src.as_bytes().len();
        let chars = chars_of(src);
        proof {
            assert(utf8_len(chars@) == size);
            assert(chars@.take(0) =~= Seq::<char>::empty());
            assert(vstd::utf8::encode_utf8(Seq::<char>::empty()) =~= Seq::<u8>::empty());
        }
        Parser { string_allocator, file_path, start: 0, chars, pos: 0, next_token: None }
    }

    /// Gives back the table of interned strings when the parsing is done.
    pub fn into_string_allocator(self) -> (allocator: StringAllocator)
        ensures
            allocator@ == self@.table,
    {
        self.string_allocator
    }

    /// The table of interned strings, to look up what a handle stands for.
    pub fn string_allocator(&self) -> (allocator: &StringAllocator)
        ensures
            allocator@ == self@.table,
    {
        &self.string_allocator
    }

    /// The empty span at the cursor.
    pub fn span(&self) -> (s: Span)
        requires
            self.wf(),
        ensures
            s == self@.position(),
            s.well_formed(),
    {
        proof {
            lemma_between(self.file_path, self.chars@, self.pos as int, self.pos as int);
        }
        Span::new(self.file_path, self.start, 0)
    }

    /// Takes the next character.
    pub fn next_char(&mut self) -> (ch: Option<char>)
        requires
            old(self).wf(),
        ensures
            final(self).wf(),
            (ch, final(self)@) == old(self)@.next_char(),
    {
        if self.pos < self.chars.len() {
            let c = self.chars[self.pos];
            proof {
                lemma_offset_step(self.chars@, self.pos as int);
                lemma_offset_bounds(self.chars@, self.pos as int + 1, self.chars@.len() as int);
            }
            self.start = self.start + len_utf8(c);
            self.pos = self.pos + 1;
            Some(c)
        } else {
            None
        }
    }

    /// Looks at the next character.
    pub fn peek_char(&self) -> (ch: Option<char>)
        requires
            self.wf(),
        ensures
            ch == self@.peek_char(),
    {
        if self.pos < self.chars.len() {
            Some(self.chars[self.pos])
        } else {
            None
        }
    }

    /// Passes over blanks: white space but for line breaks.
    fn skip_whitespace(&mut self)
        requires
            old(self).wf(),
        ensures
            final(self).wf(),
            final(self)@ == old(self)@.at(skip_blank(old(self)@.chars, old(self)@.pos)),
    {
        loop
            invariant
                self.wf(),
                self@ == old(self)@.at(self@.pos),
                skip_blank(self@.chars, self@.pos) == skip_blank(old(self)@.chars, old(self)@.pos),
            ensures
                self.wf(),
                self@ == old(self)@.at(skip_blank(old(self)@.chars, old(self)@.pos)),
            decreases self@.chars.len() - self@.pos,
        {
            match self.peek_char() {
                Some(c) => {
                    if c.is_whitespace() && c != '\n' {
                        self.next_char();
                    } else {
                        break ;
                    }
                },
                None => {
                    break ;
                },
            }
        }
    }

    /// Takes the digits of `radix` at the cursor: how many there are, and
    /// their value with the first digit as the least significant.
    fn scan_digits(&mut self, radix: u32) -> (r: (usize, i64))
        requires
            old(self).wf(),
            2 <= radix <= 36,
        ensures
            final(self).wf(),
            final(self)@ == old(self)@.at(digit_run(old(self)@.chars, old(self)@.pos, radix)),
            r.0 == final(self)@.pos - old(self)@.pos,
            r.1 == wrap_i64(lsf_value(old(self)@.chars, old(self)@.pos, final(self)@.pos, radix)),
    {
        let mut sum: u64 = 0;
        let mut weight: u64 = 1;
        let mut count: usize = 0;
        let total = self.chars.len();
        let ghost from = self@.pos;
        proof {
            lemma_pow0(radix as int);
            lemma_small_mod(1, 0x1_0000_0000_0000_0000);
            lemma_small_mod(0, 0x1_0000_0000_0000_0000);
        }
        loop
            invariant
                self.wf(),
                2 <= radix <= 36,
                from == old(self)@.pos,
                self@ == old(self)@.at(self@.pos),
                from <= self@.pos,
                count == self@.pos - from,
                total == self@.chars.len(),
                digit_run(self@.chars, self@.pos, radix) == digit_run(self@.chars, from, radix),
                sum as int == lsf_value(self@.chars, from, self@.pos, radix)
                    % 0x1_0000_0000_0000_0000,
                weight as int == pow(radix as int, (self@.pos - from) as nat)
                    % 0x1_0000_0000_0000_0000,
            ensures
                self.wf(),
                from <= self@.pos,
                self@ == old(self)@.at(digit_run(old(self)@.chars, from, radix)),
                count == self@.pos - from,
                sum as int == lsf_value(self@.chars, from, self@.pos, radix)
                    % 0x1_0000_0000_0000_0000,
            decreases self@.chars.len() - self@.pos,
        {
            match self.peek_char() {
                Some(c) => {
                    match to_digit(c, radix) {
                        Some(digit) => {
                            proof {
                                lemma_lsf_step(
                                    self@.chars,
                                    from,
                                    self@.pos,
                                    radix,
                                    sum,
                                    weight,
                                    digit,
                                );
                            }
                            sum = sum.wrapping_add((digit as u64).wrapping_mul(weight));
                            weight = weight.wrapping_mul(radix as u64);
                            count = count + 1;
                            self.next_char();
                        },
                        None => {
                            break ;
                        },
                    }
                },
                None => {
                    break ;
                },
            }
        }
        proof {
            let l = lsf_value(self@.chars, from, self@.pos, radix);
            vstd::arithmetic::div_mod::lemma_mod_twice(l, 0x1_0000_0000_0000_0000);
            vstd::arithmetic::div_mod::lemma_mod_bound(l, 0x1_0000_0000_0000_0000);
        }
        (count, reinterpret(sum))
    }

    /// Reads an integer literal, if one starts at the cursor.
    fn parse_integer(&mut self) -> (r: Option<Result<Integer>>)
        requires
            old(self).wf(),
        ensures
            final(self).wf(),
            old(self)@.pos <= final(self)@.pos,
            r matches Some(found) ==> told(found),
            match integer_at(old(self)@.chars, old(self)@.file, old(self)@.pos) {
                Some((result, end)) => r matches Some(found) && seen(found) == result && final(self)@ == old(self)@.at(end),
                None => r is None && final(self)@ == old(self)@,
            },
    {
        let ghost chars = self@.chars;
        let ghost start = self@.pos;
        let (count, value) = self.scan_digits(10);
        if count == 0 {
            return None;
        }
        proof {
            lemma_digit_run(chars, start, 10);
            if count == 1 {
                reveal_with_fuel(lsf_value, 2);
                lemma_pow0(10);
                let d = digit_value(chars[start], 10);
                assert(lsf_value(chars, start, start + 1, 10) == d);
                lemma_small_mod(d as nat, 0x1_0000_0000_0000_0000);
                assert(value == d);
                if value == 0 {
                    vstd::utf8::char_u32_cast(chars[start], 48u32);
                    vstd::utf8::char_u32_cast('0', 48u32);
                }
                assert(value == 0 <==> chars[start] == '0');
            }
        }
        let marker = self.peek_char();
        let kind = if count == 1 && value == 0 && marker == Some('b') {
            IntegerKind::Binary
        } else if count == 1 && value == 0 && marker == Some('x') {
            IntegerKind::Hex
        } else {
            return Some(Ok(Integer::new(value, IntegerKind::Decimal)));
        };
        self.next_char();
        assert(self@ == old(self)@.at(start + 2));
        let (digits, value) = self.scan_digits(kind.radix());
        assert(self@.pos == digit_run(chars, start + 2, kind.radix_spec()));
        if digits == 0 {
            proof {
                reveal_strlit("malformed integer");
            }
            let error = Error::new("malformed integer").with_hint(
                "expected integer after radix",
                self.span(),
            );
            Some(Err(error))
        } else {
            Some(Ok(Integer::new(value, kind)))
        }
    }

    /// Reads an identifier, if one starts at the cursor, and interns its
    /// spelling.
    fn parse_ident(&mut self) -> (r: Option<StableRef>)
        requires
            old(self).wf(),
        ensures
            final(self).wf(),
            old(self)@.pos <= final(self)@.pos,
            ({
                let before = old(self)@;
                let end = ident_end(before.chars, before.pos);
                if end > before.pos {
                    let (table, index) = intern(before.table, before.chars.subrange(before.pos, end));
                    &&& r matches Some(handle)
                    &&& handle.index == index
                    &&& final(self)@ == (ParserView { pos: end, table, ..before })
                } else {
                    r is None && final(self)@ == before
                }
            }),
    {
        let ghost before = self@;
        let mut ident = String::new();
        loop
            invariant
                self.wf(),
                before == old(self)@,
                self@ == before.at(self@.pos),
                before.pos <= self@.pos <= before.chars.len(),
                ident@ == before.chars.subrange(before.pos, self@.pos),
                self@.pos > before.pos ==> ident_run(before.chars, self@.pos) == ident_end(
                    before.chars,
                    before.pos,
                ),
            ensures
                self.wf(),
                self@ == before.at(ident_end(before.chars, before.pos)),
                ident@ == before.chars.subrange(before.pos, self@.pos),
            decreases before.chars.len() - self@.pos,
        {
            match self.peek_char() {
                Some(c) => {
                    if c == '_' || c.is_alphabetic() || (!ident.as_str().is_empty()
                        && c.is_numeric()) {
                        ident.push(c);
                        self.next_char();
                        assert(ident@ =~= before.chars.subrange(before.pos, self@.pos));
                    } else {
                        break ;
                    }
                },
                None => {
                    break ;
                },
            }
        }
        if ident.as_str().is_empty() {
            return None;
        }
        let handle = self.string_allocator.get(ident.as_str());
        Some(handle)
    }

    /// Reads a symbol, if one starts at the cursor: the longest that the
    /// characters there spell.
    fn parse_symbol(&mut self) -> (r: Option<Symbol>)
        requires
            old(self).wf(),
        ensures
            final(self).wf(),
            old(self)@.pos <= final(self)@.pos,
            match symbol_at(old(self)@.chars, old(self)@.pos) {
                Some((symbol, end)) => r == Some(symbol) && final(self)@ == old(self)@.at(end),
                None => r is None && final(self)@ == old(self)@,
            },
    {
        let first = match self.peek_char() {
            Some(c) => single(c),
            None => None,
        };
        match first {
            Some(symbol) => {
                self.next_char();
                match doubled(symbol) {
                    Some(longer) => {
                        if self.peek_char() == Some('=') {
                            self.next_char();
                            Some(longer)
                        } else {
                            Some(symbol)
                        }
                    },
                    None => Some(symbol),
                }
            },
            None => None,
        }
    }

    /// Reads one token at the cursor.
    fn parse_token(&mut self) -> (r: Result<Token>)
        requires
            old(self).wf(),
        ensures
            final(self).wf(),
            outcome(r, final(self)@) == old(self)@.read_token(),
            told(r),
    {
        let ghost before = self@;
        self.skip_whitespace();
        proof {
            lemma_skip_blank(before.chars, before.pos);
        }
        let first = self.peek_char();
        if first.is_none() {
            return Ok(Token::new(TokenKind::Eof, self.span()));
        }
        if first == Some('\n') {
            self.next_char();
            return Ok(Token::new(TokenKind::Eol, self.span()));
        }
        let ghost from = self@.pos;
        let start = self.span();
        proof {
            lemma_lex(before.chars, before.file, before.pos, before.table);
        }
        match self.parse_integer() {
            Some(Ok(integer)) => {
                proof {
                    lemma_between(before.file, before.chars, from, self@.pos);
                }
                return Ok(Token::new(TokenKind::Integer(integer), start.join(self.span())));
            },
            Some(Err(error)) => {
                return Err(error);
            },
            None => {},
        }
        match self.parse_ident() {
            Some(handle) => {
                proof {
                    lemma_between(before.file, before.chars, from, self@.pos);
                    crate::string_allocator::lemma_intern(
                        before.table,
                        before.chars.subrange(from, self@.pos),
                    );
                }
                let kind = match self.string_allocator.resolve(handle) {
                    Some(text) => match keyword(text) {
                        Some(k) => TokenKind::Keyword(k),
                        None => TokenKind::Ident(handle),
                    },
                    None => TokenKind::Ident(handle),
                };
                return Ok(Token::new(kind, start.join(self.span())));
            },
            None => {},
        }
        match self.parse_symbol() {
            Some(symbol) => {
                proof {
                    lemma_between(before.file, before.chars, from, self@.pos);
                }
                return Ok(Token::new(TokenKind::Symbol(symbol), start.join(self.span())));
            },
            None => {},
        }
        match self.next_char() {
            Some(c) => {
                proof {
                    reveal_strlit("unexpected character");
                }
                let mut msg = "found character '".to_owned();
                msg.push(c);
                msg.append("'");
                Err(Error::new("unexpected character").with_hint(msg.as_str(), self.span()))
            },
            None => Ok(Token::new(TokenKind::Eof, self.span())),
        }
    }

    /// Takes the next token: the one that was looked at, if one was, else a
    /// token read at the cursor.
    pub fn next_token(&mut self) -> (r: Result<Token>)
        requires
            old(self).wf(),
        ensures
            final(self).wf(),
            outcome(r, final(self)@) == old(self)@.next_token(),
            follows(final(self)@, old(self)@),
            told(r),
            r matches Ok(token) ==> token.span.well_formed() && token.span.file_path == Some(
                old(self)@.file,
            ),
            r matches Ok(token) && !(token.kind is Eof) ==> final(self)@.remaining() < old(self)@.remaining(),
    {
        proof {
            lemma_next_token(self@);
        }
        match self.next_token {
            Some(token) => {
                self.next_token = None;
                Ok(token)
            },
            None => self.parse_token(),
        }
    }

    /// Looks at the next token without taking it. The token is held, and a
    /// second look gives it again.
    pub fn peek_token(&mut self) -> (r: Result<Token>)
        requires
            old(self).wf(),
        ensures
            final(self).wf(),
            outcome(r, final(self)@) == old(self)@.peek_token(),
            follows(final(self)@, old(self)@),
            told(r),
            r matches Ok(token) ==> token.span.well_formed() && token.span.file_path == Some(
                old(self)@.file,
            ) && final(self)@.pending == Some(token),
    {
        proof {
            lemma_peek_token(self@);
        }
        match self.next_token {
            Some(token) => Ok(token),
            None => {
                match self.parse_token() {
                    Ok(token) => {
                        self.next_token = Some(token);
                        Ok(token)
                    },
                    Err(error) => Err(error),
                }
            },
        }
    }

    /// Parses a syntax node of the type `T`.
    pub fn parse<T: Parse>(&mut self) -> (r: Result<T>)
        requires
            old(self).wf(),
        ensures
            final(self).wf(),
            crate::parse::parse_post(r, old(self)@, final(self)@, T::parsed(old(self)@)),
            r is Ok && T::advances() ==> final(self)@.remaining() < old(self)@.remaining(),
    {
        T::parse(self)
    }

    /// The error for a token other than what the grammar asks for: `msg`
    /// names what was expected, and the hint shows `found` at its place.
    pub fn unexpected(&self, msg: &str, found: Token) -> (e: Error)
        ensures
            e@ == unexpected(msg@, found, self@.table),
    {
        let mut hint = "found '".to_owned();
        hint.append(found.kind().describe(&self.string_allocator).as_str());
        hint.append("'");
        Error::new(msg).with_hint(hint.as_str(), found.span())
    }

    /// Takes the next token, which must be of the kind `kind`, and gives its
    /// span.
    pub fn expect(&mut self, kind: TokenKind) -> (r: Result<Span>)
        requires
            old(self).wf(),
        ensures
            final(self).wf(),
            outcome(r, final(self)@) == old(self)@.expect(kind),
            follows(final(self)@, old(self)@),
            told(r),
            r matches Ok(span) ==> span.well_formed() && span.file_path == Some(old(self)@.file),
            r is Ok && !(kind is Eof) ==> final(self)@.remaining() < old(self)@.remaining(),
    {
        let tok = self.next_token()?;
        if tok.kind() == kind {
            Ok(tok.span())
        } else {
            let mut msg = "expected '".to_owned();
            proof {
                reveal_strlit("expected '");
            }
            msg.append(kind.describe(&self.string_allocator).as_str());
            msg.append("'");
            Err(self.unexpected(msg.as_str(), tok))
        }
    }

    /// Takes the next token, which must end a line, and gives its span.
    pub fn expect_eol(&mut self) -> (r: Result<Span>)
        requires
            old(self).wf(),
        ensures
            final(self).wf(),
            outcome(r, final(self)@) == old(self)@.expect_eol(),
            follows(final(self)@, old(self)@),
            told(r),
            r matches Ok(span) ==> span.well_formed() && span.file_path == Some(old(self)@.file),
    {
        let tok = self.next_token()?;
        match tok.kind() {
            TokenKind::Eol | TokenKind::Eof => Ok(tok.span()),
            _ => {
                proof {
                    reveal_strlit("expected 'end of line'");
                }
                Err(self.unexpected("expected 'end of line'", tok))
            },
        }
    }

    /// Takes every end of line that comes next.
    pub fn skip_eol(&mut self) -> (r: Result<()>)
        requires
            old(self).wf(),
        ensures
            final(self).wf(),
            outcome(r, final(self)@) == old(self)@.skip_eol(),
            follows(final(self)@, old(self)@),
            told(r),
    {
        proof {
            lemma_skip_eol(self@);
        }
        loop
            invariant
                self.wf(),
                self@.skip_eol() == old(self)@.skip_eol(),
                follows(old(self)@.skip_eol().after, old(self)@),
            decreases self@.remaining(),
        {
            proof {
                lemma_peek_token(self@);
            }
            let tok = match self.peek_token() {
                Ok(tok) => tok,
                Err(error) => {
                    return Err(error);
                },
            };
            if tok.kind() == TokenKind::Eol {
                self.next_token = None;
            } else {
                return Ok(());
            }
        }
    }
}

} // verus!
