use dqk_parser::text::{len_utf8, str_eq, to_digit};
use dqk_parser::{
    checked_merge_spans, merge_spans, Error, ErrorHint, Span, Spanned, StringAllocator,
};

fn unit() -> (StringAllocator, dqk_parser::PathRef) {
    let mut allocator = StringAllocator::new();
    let path = allocator.get_path("unit");
    (allocator, path)
}

#[test]
fn span_end_is_start_plus_length() {
    let (_, path) = unit();
    let s = Span::new(path, 3, 4);
    assert_eq!(s.start(), 3);
    assert_eq!(s.length(), 4);
    assert_eq!(s.end(), 7);
    assert_eq!(s.file_path(), Some(path));
    assert_eq!(s.span(), s);
}

#[test]
fn join_runs_from_the_lesser_start_to_the_greater_end() {
    let (_, path) = unit();
    let a = Span::new(path, 3, 4);
    let b = Span::new(path, 10, 2);
    assert_eq!(a.join(b), Span::new(path, 3, 9));
    assert_eq!(b.join(a), Span::new(path, 3, 9));
    let inner = Span::new(path, 4, 1);
    assert_eq!(a.join(inner), a);
    assert_eq!(inner.join(a), a);
    assert_eq!(a.join(a), a);
    let empty = Span::new(path, 20, 0);
    assert_eq!(a.join(empty), Span::new(path, 3, 17));
}

#[test]
fn merge_spans_folds_from_left_to_right() {
    let (_, path) = unit();
    let parts = [Span::new(path, 8, 1), Span::new(path, 2, 3), Span::new(path, 4, 9)];
    let whole = merge_spans(&parts);
    assert_eq!(whole, Span::new(path, 2, 11));
    assert_eq!(whole.start(), parts.iter().map(|s| s.start()).min().unwrap());
    assert_eq!(whole.end(), parts.iter().map(|s| s.end()).max().unwrap());
    assert_eq!(merge_spans(&parts[..1]), parts[0]);
}

#[test]
fn equal_strings_get_the_same_handle() {
    let mut allocator = StringAllocator::new();
    let a = allocator.get("alpha");
    let b = allocator.get("beta");
    let c = allocator.get("alpha");
    assert_eq!(a, c);
    assert_ne!(a, b);
    assert_eq!(allocator.len(), 2);
    assert_eq!(allocator.resolve(a), Some("alpha"));
    assert_eq!(allocator.resolve(b), Some("beta"));
}

#[test]
fn handles_do_not_depend_on_the_order_of_calls() {
    let mut first = StringAllocator::new();
    let a1 = first.get("a");
    let b1 = first.get("b");
    let a2 = first.get("a");
    let mut second = StringAllocator::new();
    let b3 = second.get("b");
    let a3 = second.get("a");
    let a4 = second.get("a");
    let b4 = second.get("b");
    assert_eq!(a1, a2);
    assert_ne!(a1, b1);
    assert_eq!(a3, a4);
    assert_eq!(b3, b4);
    assert_ne!(a3, b3);
    assert_eq!(second.resolve(a4), Some("a"));
    assert_eq!(second.resolve(b4), Some("b"));
}

#[test]
fn paths_share_the_table_with_strings() {
    let mut allocator = StringAllocator::new();
    let s = allocator.get("main.dqk");
    let p = allocator.get_path("main.dqk");
    let q = allocator.get_path("other.dqk");
    assert_eq!(p.text, s);
    assert_ne!(p, q);
    assert_eq!(allocator.resolve_path(q), Some("other.dqk"));
    assert_eq!(allocator.len(), 2);
}

#[test]
fn a_handle_of_another_table_resolves_to_nothing() {
    let mut big = StringAllocator::new();
    big.get("a");
    let b = big.get("b");
    let small = StringAllocator::new();
    assert_eq!(small.resolve(b), None);
    assert_eq!(small.len(), 0);
    small.dealloc();
    big.dealloc();
}

#[test]
fn the_empty_string_can_be_interned() {
    let mut allocator = StringAllocator::new();
    let e = allocator.get("");
    let x = allocator.get("x");
    assert_ne!(e, x);
    assert_eq!(allocator.get(""), e);
    assert_eq!(allocator.resolve(e), Some(""));
}

#[test]
fn errors_keep_their_hints_in_order() {
    let (_, path) = unit();
    let error = Error::new("expected expression")
        .with_hint("found 'Eof'", Span::new(path, 5, 0))
        .with_hint("while reading a statement", Span::new(path, 0, 5));
    assert_eq!(error.msg(), "expected expression");
    assert_eq!(error.hints().len(), 2);
    assert_eq!(error.hints()[0].msg(), "found 'Eof'");
    assert_eq!(error.hints()[0].span(), Span::new(path, 5, 0));
    assert_eq!(error.hints()[1].msg(), "while reading a statement");
    let plain = Error::new("plain");
    assert!(plain.hints().is_empty());
    let hint = ErrorHint::new("here", Span::new(path, 1, 2));
    assert_eq!(hint.msg(), "here");
    assert_eq!(hint.span().end(), 3);
}

#[test]
fn digits_by_radix() {
    assert_eq!(to_digit('0', 2), Some(0));
    assert_eq!(to_digit('1', 2), Some(1));
    assert_eq!(to_digit('2', 2), None);
    assert_eq!(to_digit('9', 10), Some(9));
    assert_eq!(to_digit('a', 10), None);
    assert_eq!(to_digit('a', 16), Some(10));
    assert_eq!(to_digit('F', 16), Some(15));
    assert_eq!(to_digit('g', 16), None);
    assert_eq!(to_digit('z', 36), Some(35));
    for radix in [2u32, 10, 16, 36] {
        for c in ['0', '7', 'a', 'f', 'G', 'z', ' ', '\u{e9}', '/', ':', '@', '[', '`', '{'] {
            assert_eq!(to_digit(c, radix), c.to_digit(radix));
        }
    }
}

#[test]
fn widths_in_utf8() {
    for c in ['a', '\u{7f}', '\u{80}', '\u{7ff}', '\u{800}', '\u{ffff}', '\u{10000}', '\u{10ffff}'] {
        assert_eq!(len_utf8(c), c.len_utf8());
    }
}

#[test]
fn strings_compare_by_their_characters() {
    assert!(str_eq("", ""));
    assert!(str_eq("where", "where"));
    assert!(!str_eq("where", "wher"));
    assert!(!str_eq("where", "whera"));
    assert!(str_eq("\u{e9}", "\u{e9}"));
    assert!(!str_eq("\u{e9}", "e"));
}

#[test]
fn spans_of_two_units_are_not_merged() {
    let mut allocator = StringAllocator::new();
    let one = allocator.get_path("one");
    let two = allocator.get_path("two");
    let a = Span::new(one, 3, 4);
    let b = Span::new(one, 10, 2);
    let c = Span::new(two, 0, 1);
    assert_eq!(a.checked_join(b), Some(Span::new(one, 3, 9)));
    assert_eq!(a.checked_join(b), Some(a.join(b)));
    assert_eq!(a.checked_join(c), None);
    assert_eq!(c.checked_join(a), None);
    let beyond = Span::new(one, usize::MAX, 1);
    assert_eq!(a.checked_join(beyond), None);
    assert_eq!(beyond.checked_join(a), None);
    assert_eq!(checked_merge_spans(&[a, b]), Some(merge_spans(&[a, b])));
    assert_eq!(checked_merge_spans(&[b, a, b]), Some(Span::new(one, 3, 9)));
    assert_eq!(checked_merge_spans(&[a]), Some(a));
    assert_eq!(checked_merge_spans(&[]), None);
    assert_eq!(checked_merge_spans(&[a, b, c]), None);
    assert_eq!(checked_merge_spans(&[c, a]), None);
    assert_eq!(checked_merge_spans(&[beyond]), None);
    assert_eq!(checked_merge_spans(&[a, beyond]), None);
}
