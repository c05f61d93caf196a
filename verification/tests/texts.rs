use status_monitor::text::{
    char_is_whitespace, chars_of, decimal_text, find_char, line_ranges, parse_unsigned,
    push_decimal, range_is, same_text, split_range, text_of_range, trim_range,
};

fn pieces(chars: &Vec<char>, bounds: &Vec<(usize, usize)>) -> Vec<String> {
    bounds.iter().map(|&(start, end)| chars[start..end].iter().collect()).collect()
}

#[test]
fn chars_of_keeps_every_character() {
    assert_eq!(chars_of(""), Vec::<char>::new());
    assert_eq!(chars_of("a\u{e9}\u{1f600}b"), vec!['a', '\u{e9}', '\u{1f600}', 'b']);
}

#[test]
fn same_text_compares_characters() {
    assert!(same_text("udp", "udp"));
    assert!(same_text("", ""));
    assert!(!same_text("udp", "UDP"));
    assert!(!same_text("udp", "udp "));
    assert!(!same_text("ud", "udp"));
}

#[test]
fn range_is_compares_a_range() {
    let chars = chars_of("xtruey");
    assert!(range_is(&chars, 1, 5, "true"));
    assert!(!range_is(&chars, 0, 5, "true"));
    assert!(!range_is(&chars, 1, 4, "true"));
    assert!(range_is(&chars, 3, 3, ""));
}

#[test]
fn whitespace_is_the_unicode_property() {
    for c in [
        '\t', '\n', '\u{b}', '\u{c}', '\r', ' ', '\u{85}', '\u{a0}', '\u{1680}', '\u{2000}',
        '\u{2005}', '\u{200a}', '\u{2028}', '\u{2029}', '\u{202f}', '\u{205f}', '\u{3000}',
    ] {
        assert!(char_is_whitespace(c), "{:?}", c);
    }
    for c in ['a', '0', ',', '\u{8}', '\u{e}', '\u{1f}', '\u{200b}', '\u{180e}', '\u{feff}'] {
        assert!(!char_is_whitespace(c), "{:?}", c);
    }
}

#[test]
fn whitespace_agrees_with_std() {
    let mut code: u32 = 0;
    while code <= 0x10FFFF {
        if let Some(c) = char::from_u32(code) {
            assert_eq!(char_is_whitespace(c), c.is_whitespace(), "{:x}", code);
        }
        code += 1;
    }
}

#[test]
fn trim_range_drops_whitespace_at_both_ends() {
    let chars = chars_of(" \t true\u{a0}\n");
    assert_eq!(trim_range(&chars, 0, chars.len()), (3, 7));
    assert_eq!(trim_range(&chars, 3, 7), (3, 7));
    assert_eq!(trim_range(&chars, 4, 6), (4, 6));
    let inner = chars_of("a b");
    assert_eq!(trim_range(&inner, 0, 3), (0, 3));
}

#[test]
fn trim_range_of_blank_text_is_empty() {
    let chars = chars_of(" \t ");
    let (lo, hi) = trim_range(&chars, 0, 3);
    assert_eq!(lo, hi);
    let (lo, hi) = trim_range(&chars, 1, 1);
    assert_eq!((lo, hi), (1, 1));
}

#[test]
fn find_char_finds_the_first() {
    let chars = chars_of("a,b,c");
    assert_eq!(find_char(&chars, 0, 5, ','), 1);
    assert_eq!(find_char(&chars, 2, 5, ','), 3);
    assert_eq!(find_char(&chars, 4, 5, ','), 5);
    assert_eq!(find_char(&chars, 0, 1, ','), 1);
}

#[test]
fn split_range_keeps_empty_pieces() {
    let chars = chars_of("a,,bc,");
    let bounds = split_range(&chars, 0, chars.len(), ',');
    assert_eq!(pieces(&chars, &bounds), vec!["a", "", "bc", ""]);
    let none = chars_of("abc");
    assert_eq!(split_range(&none, 0, 3, ','), vec![(0, 3)]);
    let empty = chars_of("");
    assert_eq!(split_range(&empty, 0, 0, ','), vec![(0, 0)]);
    assert_eq!(split_range(&chars, 1, 3, ','), vec![(1, 1), (2, 2), (3, 3)]);
}

#[test]
fn split_range_agrees_with_std() {
    for text in ["", ",", "a", "a,b", ",a,,b,", "2024-01-01T00:00:00Z,true,42,,0"] {
        let chars = chars_of(text);
        let bounds = split_range(&chars, 0, chars.len(), ',');
        let expected: Vec<String> = text.split(',').map(String::from).collect();
        assert_eq!(pieces(&chars, &bounds), expected, "{:?}", text);
    }
}

#[test]
fn line_ranges_end_at_line_feeds() {
    let chars = chars_of("one\ntwo\r\n\nthree");
    let bounds = line_ranges(&chars);
    assert_eq!(pieces(&chars, &bounds), vec!["one", "two", "", "three"]);
}

#[test]
fn line_ranges_agree_with_std() {
    for text in [
        "", "\n", "\r\n", "a", "a\n", "a\r", "a\r\n", "\r", "\r\r\n", "a\n\nb", "a\nb\r", "\n\n",
        "a\r\nb\n", "x\ny\r\n\r\nz\r",
    ] {
        let chars = chars_of(text);
        let bounds = line_ranges(&chars);
        let expected: Vec<String> = text.lines().map(String::from).collect();
        assert_eq!(pieces(&chars, &bounds), expected, "{:?}", text);
    }
}

#[test]
fn parse_unsigned_reads_plain_numbers() {
    let read = |text: &str| {
        let chars = chars_of(text);
        parse_unsigned(&chars, 0, chars.len())
    };
    assert_eq!(read("0"), Some(0));
    assert_eq!(read("42"), Some(42));
    assert_eq!(read("+42"), Some(42));
    assert_eq!(read("0042"), Some(42));
    assert_eq!(read("340282366920938463463374607431768211455"), Some(u128::MAX));
    assert_eq!(read("340282366920938463463374607431768211456"), None);
    assert_eq!(read("3402823669209384634633746074317682114550"), None);
    assert_eq!(read(""), None);
    assert_eq!(read("+"), None);
    assert_eq!(read("-1"), None);
    assert_eq!(read("++1"), None);
    assert_eq!(read("1+"), None);
    assert_eq!(read(" 1"), None);
    assert_eq!(read("1 "), None);
    assert_eq!(read("1.5"), None);
    assert_eq!(read("\u{661}"), None);
}

#[test]
fn parse_unsigned_agrees_with_std() {
    for text in ["", "+", "-", "0", "+0", "-0", "12", "+12", "012", "1_000", "0x10", "99999999999999999999999999999999999999999"] {
        let chars = chars_of(text);
        assert_eq!(parse_unsigned(&chars, 0, chars.len()), text.parse::<u128>().ok(), "{:?}", text);
    }
}

#[test]
fn decimal_text_writes_digits() {
    assert_eq!(decimal_text(0), "0");
    assert_eq!(decimal_text(7), "7");
    assert_eq!(decimal_text(10), "10");
    assert_eq!(decimal_text(1_234_567_890), "1234567890");
    assert_eq!(decimal_text(u128::MAX), "340282366920938463463374607431768211455");
    let mut out = String::from("n=");
    push_decimal(&mut out, 305);
    assert_eq!(out, "n=305");
}

#[test]
fn text_of_range_copies_a_range() {
    let chars = chars_of("h\u{e9}llo");
    assert_eq!(text_of_range(&chars, 1, 4), "\u{e9}ll");
    assert_eq!(text_of_range(&chars, 2, 2), "");
    assert_eq!(text_of_range(&chars, 0, 5), "h\u{e9}llo");
}

#[test]
fn trim_range_agrees_with_std() {
    for text in ["", " ", "a", " a", "a ", " a b ", "\t\r\n x\u{3000}", "\u{a0}\u{2003}", "\u{200b} x \u{200b}"] {
        let chars = chars_of(text);
        let (lo, hi) = trim_range(&chars, 0, chars.len());
        let trimmed: String = chars[lo..hi].iter().collect();
        assert_eq!(trimmed, text.trim(), "{:?}", text);
    }
}
