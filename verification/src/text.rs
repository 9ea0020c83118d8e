//! Characters and text: the character classes the lexer asks about, digit
//! values, UTF-8 widths and byte offsets, string comparison and decimal
//! rendering.

use vstd::prelude::*;
use vstd::utf8::*;

verus! {

/// Whether `c` has the Unicode `White_Space` property, as `char::is_whitespace` decides it.
pub uninterp spec fn unicode_white_space(c: char) -> bool;

/// Whether `c` has the Unicode `Alphabetic` property, as `char::is_alphabetic` decides it.
pub uninterp spec fn unicode_alphabetic(c: char) -> bool;

/// Whether `c` is in one of the Unicode numeric categories, as `char::is_numeric` decides it.
pub uninterp spec fn unicode_numeric(c: char) -> bool;

/// `char::is_whitespace` looks the character up in the Unicode tables that
/// the standard library was built with; the answer depends on the character
/// alone, and is given the name [`unicode_white_space`]. Among the first 128
/// characters the property is fixed: it holds of the space and of the five
/// control characters from the tab to the carriage return.
pub assume_specification[ char::is_whitespace ](c: char) -> (r: bool)
    ensures
        r == unicode_white_space(c),
        c as u32 <= 0x7f ==> r == (c as u32 == 0x20 || 0x09 <= c as u32 <= 0x0d),
;

/// `char::is_alphabetic` looks the character up in the Unicode tables that
/// the standard library was built with; the answer depends on the character
/// alone, and is given the name [`unicode_alphabetic`]. Among the first 128
/// characters the property is fixed: it holds of the letters `a` to `z` and
/// `A` to `Z`.
pub assume_specification[ char::is_alphabetic ](c: char) -> (r: bool)
    ensures
        r == unicode_alphabetic(c),
        c as u32 <= 0x7f ==> r == (0x61 <= c as u32 <= 0x7a || 0x41 <= c as u32 <= 0x5a),
;

/// `char::is_numeric` looks the character up in the Unicode tables that the
/// standard library was built with; the answer depends on the character
/// alone, and is given the name [`unicode_numeric`]. Among the first 128
/// characters the property is fixed: it holds of the digits `0` to `9`.
pub assume_specification[ char::is_numeric ](c: char) -> (r: bool)
    ensures
        r == unicode_numeric(c),
        c as u32 <= 0x7f ==> r == (0x30 <= c as u32 <= 0x39),
;

/// `String::push` appends one character to the end of the string.
pub assume_specification[ std::string::String::push ](s: &mut std::string::String, c: char)
    ensures
        final(s)@ == old(s)@.push(c),
;

/// The value of `c` as a digit: `0`-`9` count 0 to 9, letters of either case
/// count from 10 on. `None` where the value is not below `radix`.
pub open spec fn digit_of(c: char, radix: u32) -> Option<u32> {
    let code = c as u32;
    if 48 <= code <= 57 && code - 48 < radix {
        Some((code - 48) as u32)
    } else if 97 <= code <= 122 && code - 87 < radix {
        Some((code - 87) as u32)
    } else if 65 <= code <= 90 && code - 55 < radix {
        Some((code - 55) as u32)
    } else {
        None
    }
}

/// The digit that `c` stands for in the given radix, if it stands for one.
pub fn to_digit(c: char, radix: u32) -> (d: Option<u32>)
    ensures
        d == digit_of(c, radix),
{
    let code: u32 = c as u32;
    if 48 <= code && code <= 57 && code - 48 < radix {
        Some(code - 48)
    } else if 97 <= code && code <= 122 && code - 87 < radix {
        Some(code - 87)
    } else if 65 <= code && code <= 90 && code - 55 < radix {
        Some(code - 55)
    } else {
        None
    }
}

/// The number of bytes that `c` takes in UTF-8.
pub open spec fn char_width(c: char) -> nat {
    encode_scalar(c as u32).len()
}

/// The number of bytes that `chars` takes in UTF-8.
pub open spec fn utf8_len(chars: Seq<char>) -> nat {
    encode_utf8(chars).len()
}

/// The byte offset at which the character with index `pos` starts.
pub open spec fn offset_at(chars: Seq<char>, pos: int) -> nat {
    utf8_len(chars.take(pos))
}

/// The number of bytes that `c` takes in UTF-8: between one and four.
pub fn len_utf8(c: char) -> (n: usize)
    ensures
        n == char_width(c),
        1 <= n <= 4,
{
    let code: u32 = c as u32;
    proof {
        char_is_scalar(c);
    }
    if code <= 0x7F {
        1
    } else if code <= 0x7FF {
        2
    } else if code <= 0xFFFF {
        3
    } else {
        4
    }
}

/// Appending a character adds its width to the encoded length.
pub proof fn lemma_utf8_len_push(chars: Seq<char>, c: char)
    ensures
        utf8_len(chars.push(c)) == utf8_len(chars) + char_width(c),
    decreases chars.len(),
{
    if chars.len() == 0 {
        assert(chars.push(c).drop_first() =~= Seq::<char>::empty());
        assert(encode_utf8(Seq::<char>::empty()) =~= Seq::<u8>::empty());
        assert(encode_utf8(chars) =~= Seq::<u8>::empty());
    } else {
        assert(chars.push(c).drop_first() =~= chars.drop_first().push(c));
        lemma_utf8_len_push(chars.drop_first(), c);
    }
}

/// Offsets grow with the position, by the width of each character passed.
pub proof fn lemma_offset_step(chars: Seq<char>, pos: int)
    requires
        0 <= pos < chars.len(),
    ensures
        offset_at(chars, pos + 1) == offset_at(chars, pos) + char_width(chars[pos]),
        offset_at(chars, pos) < offset_at(chars, pos + 1),
{
    assert(chars.take(pos + 1) =~= chars.take(pos).push(chars[pos]));
    lemma_utf8_len_push(chars.take(pos), chars[pos]);
    char_is_scalar(chars[pos]);
}

/// No offset lies beyond the encoded length of the whole text.
pub proof fn lemma_offset_bounds(chars: Seq<char>, from: int, to: int)
    requires
        0 <= from <= to <= chars.len(),
    ensures
        offset_at(chars, from) <= offset_at(chars, to) <= utf8_len(chars),
        from < to ==> offset_at(chars, from) < offset_at(chars, to),
    decreases chars.len() - from,
{
    if from < to {
        lemma_offset_step(chars, from);
        lemma_offset_bounds(chars, from + 1, to);
    } else if to < chars.len() {
        lemma_offset_step(chars, to);
        lemma_offset_bounds(chars, to + 1, chars.len() as int);
    } else {
        assert(chars.take(to) =~= chars);
    }
}

/// Whether two strings hold the same characters.
pub fn str_eq(a: &str, b: &str) -> (r: bool)
    ensures
        r == (a@ == b@),
{
    let x = a.as_bytes();
    let y = b.as_bytes();
    if x.len() != y.len() {
        return false;
    }
    let mut i: usize = 0;
    while i < x.len()
        invariant
            i <= x.len(),
            x.len() == y.len(),
            x@ == encode_utf8(a@),
            y@ == encode_utf8(b@),
            forall|j: int| 0 <= j < i ==> x@[j] == y@[j],
        decreases x.len() - i,
    {
        if x[i] != y[i] {
            return false;
        }
        i += 1;
    }
    proof {
        assert(x@ =~= y@);
        encode_utf8_decode_utf8(a@);
        encode_utf8_decode_utf8(b@);
    }
    true
}

/// The character for a decimal digit.
pub open spec fn digit_char(d: nat) -> char {
    if d == 0 {
        '0'
    } else if d == 1 {
        '1'
    } else if d == 2 {
        '2'
    } else if d == 3 {
        '3'
    } else if d == 4 {
        '4'
    } else if d == 5 {
        '5'
    } else if d == 6 {
        '6'
    } else if d == 7 {
        '7'
    } else if d == 8 {
        '8'
    } else {
        '9'
    }
}

/// `n` written in decimal, most significant digit first, without leading zeros.
pub open spec fn decimal(n: nat) -> Seq<char>
    decreases n,
{
    if n < 10 {
        seq![digit_char(n)]
    } else {
        decimal(n / 10).push(digit_char(n % 10))
    }
}

/// `n` written in decimal, with a minus sign where it is negative.
pub open spec fn signed_decimal(n: int) -> Seq<char> {
    if n < 0 {
        seq!['-'] + decimal((-n) as nat)
    } else {
        decimal(n as nat)
    }
}

fn digit_to_char(d: u64) -> (c: char)
    requires
        d < 10,
    ensures
        c == digit_char(d as nat),
{
    if d == 0 {
        '0'
    } else if d == 1 {
        '1'
    } else if d == 2 {
        '2'
    } else if d == 3 {
        '3'
    } else if d == 4 {
        '4'
    } else if d == 5 {
        '5'
    } else if d == 6 {
        '6'
    } else if d == 7 {
        '7'
    } else if d == 8 {
        '8'
    } else {
        '9'
    }
}

/// Appends `n` in decimal to `out`.
pub fn push_decimal(out: &mut String, n: u64)
    ensures
        final(out)@ == old(out)@ + decimal(n as nat),
    decreases n,
{
    if n >= 10 {
        push_decimal(out, n / 10);
    }
    out.push(digit_to_char(n % 10));
    proof {
        if n >= 10 {
            assert(final(out)@ =~= old(out)@ + decimal(n as nat));
        } else {
            assert(final(out)@ =~= old(out)@ + decimal(n as nat));
        }
    }
}

/// Appends `n` in decimal to `out`, with a minus sign where it is negative.
pub fn push_signed_decimal(out: &mut String, n: i64)
    ensures
        final(out)@ == old(out)@ + signed_decimal(n as int),
{
    if n < 0 {
        out.push('-');
        let magnitude: u64 = if n == i64::MIN {
            0x8000_0000_0000_0000u64
        } else {
            (-n) as u64
        };
        push_decimal(out, magnitude);
        assert(final(out)@ =~= old(out)@ + signed_decimal(n as int));
    } else {
        push_decimal(out, n as u64);
    }
}

} // verus!
