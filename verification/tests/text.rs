use cargo_player::text::{
    chars_of, decimal_text, find_char, has_prefix, is_whitespace_char, matches_at,
    split_first_line, strip_prefix, text_eq, trim_text,
};

#[test]
fn first_line_agrees_with_std_lines() {
    for text in [
        "",
        "one",
        "one\n",
        "one\ntwo",
        "one\r\ntwo\r\n",
        "\n",
        "\r\n",
        "\r",
        "one\r",
        "a\rb\nc",
        "\n\nx",
        "é\u{2028}x\nz",
    ] {
        let (line, rest) = split_first_line(text);
        let mut lines = text.lines();
        assert_eq!(lines.next().unwrap_or(""), line, "{:?}", text);
        assert_eq!(
            lines.collect::<Vec<_>>(),
            rest.lines().collect::<Vec<_>>(),
            "{:?}",
            text
        );
    }
    assert_eq!(("one", "two\nthree"), split_first_line("one\r\ntwo\nthree"));
    assert_eq!(("one\r", ""), split_first_line("one\r"));
    assert_eq!(("", "\r\n"), split_first_line("\n\r\n"));
}

#[test]
fn trim_agrees_with_std_trim() {
    for text in [
        "",
        " ",
        "a",
        "  a b  ",
        "\t\n\u{b}\u{c}\r x \u{85}\u{a0}",
        "\u{1680}\u{2000}\u{200a}\u{2028}\u{2029}\u{202f}\u{205f}\u{3000}y\u{3000}",
        "\u{200b}z\u{200b}",
        "\u{feff} w",
        " é ",
    ] {
        assert_eq!(text.trim(), trim_text(text), "{:?}", text);
    }
    assert_eq!("a b", trim_text(" \t a b \n"));
}

#[test]
fn white_space_agrees_with_std() {
    let mut n: u32 = 0;
    while n <= 0x3100 {
        if let Some(c) = char::from_u32(n) {
            assert_eq!(c.is_whitespace(), is_whitespace_char(c), "{:x}", n);
        }
        n += 1;
    }
    assert!(!is_whitespace_char('\u{feff}'));
    assert!(!is_whitespace_char('\u{10ffff}'));
}

#[test]
fn find_char_counts_characters() {
    assert_eq!(Some(0), find_char("=", '='));
    assert_eq!(Some(3), find_char("abc=d=e", '='));
    assert_eq!(Some(2), find_char("éé=", '='));
    assert_eq!(None, find_char("abc", '='));
    assert_eq!(None, find_char("", '='));
}

#[test]
fn prefixes() {
    assert!(has_prefix("//# x", "//# "));
    assert!(has_prefix("//# ", "//# "));
    assert!(has_prefix("x", ""));
    assert!(!has_prefix("//#", "//# "));
    assert!(!has_prefix(" //# x", "//# "));
    assert_eq!(Some("x"), strip_prefix("//# x", "//# "));
    assert_eq!(Some(""), strip_prefix("//# ", "//# "));
    assert_eq!(Some("éx"), strip_prefix("ééx", "é"));
    assert_eq!(None, strip_prefix("//> x", "//# "));
    assert_eq!(None, strip_prefix("", "//# "));
}

#[test]
fn matches_at_looks_at_one_place() {
    let text = chars_of("abcabc");
    let pat = chars_of("bc");
    assert!(!matches_at(&text, 0, &pat));
    assert!(matches_at(&text, 1, &pat));
    assert!(matches_at(&text, 4, &pat));
    assert!(!matches_at(&text, 5, &pat));
    assert!(!matches_at(&text, 6, &pat));
    assert!(matches_at(&text, 6, &chars_of("")));
    assert!(!matches_at(&text, 7, &chars_of("")));
    assert_eq!(vec!['h', 'é', '!'], chars_of("hé!"));
}

#[test]
fn text_equality() {
    assert!(text_eq("", ""));
    assert!(text_eq("main", "main"));
    assert!(!text_eq("main", "Main"));
    assert!(!text_eq("main", "main "));
}

#[test]
fn decimal_notation() {
    assert_eq!("0", decimal_text(0));
    assert_eq!("7", decimal_text(7));
    assert_eq!("10", decimal_text(10));
    assert_eq!("1905", decimal_text(1905));
    assert_eq!("18446744073709551615", decimal_text(u64::MAX));
    for n in [9u64, 99, 100, 101, 123456789, 1 << 63] {
        assert_eq!(n.to_string(), decimal_text(n));
    }
}
