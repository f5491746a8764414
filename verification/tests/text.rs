use stock_tracker::text::{chars_of, is_white_space_char, lower, same_text, text_less, trim};

#[test]
fn trim_removes_outer_whitespace() {
    assert_eq!(trim("  abc  "), "abc");
    assert_eq!(trim("\t a b \n"), "a b");
    assert_eq!(trim("abc"), "abc");
    assert_eq!(trim("   "), "");
    assert_eq!(trim(""), "");
    assert_eq!(trim("\u{2003}x\u{205f}"), "x");
}

#[test]
fn trim_is_idempotent_on_examples() {
    for s in ["  a ", "b", "", " \u{85} c d \u{2028}"] {
        assert_eq!(trim(trim(s)), trim(s));
    }
}

#[test]
fn white_space_follows_unicode() {
    assert!(is_white_space_char(' '));
    assert!(is_white_space_char('\u{3000}'));
    assert!(is_white_space_char('\u{85}'));
    assert!(!is_white_space_char('a'));
    assert!(!is_white_space_char('\u{200b}'));
    for c in ['\t', '\n', '\u{b}', '\u{c}', '\r', ' ', '\u{a0}', '\u{1680}', '\u{2000}', '\u{200a}', '\u{202f}', 'x', '_', '\u{180e}'] {
        assert_eq!(is_white_space_char(c), c.is_whitespace());
    }
}

#[test]
fn lower_lowers() {
    assert_eq!(lower("SeLL"), "sell");
    assert_eq!(lower("ÀB"), "àb");
}

#[test]
fn same_text_compares_characters() {
    assert!(same_text("abc", "abc"));
    assert!(!same_text("abc", "abd"));
    assert!(!same_text("abc", "ab"));
    assert!(same_text("", ""));
}

#[test]
fn text_less_is_lexicographic() {
    let a = chars_of("2026-01-01");
    let b = chars_of("2026-02-01");
    let c = chars_of("2026-01");
    assert!(text_less(&a, &b));
    assert!(!text_less(&b, &a));
    assert!(!text_less(&a, &a));
    assert!(text_less(&c, &a));
    assert!(!text_less(&a, &c));
    assert_eq!(chars_of("héllo"), vec!['h', 'é', 'l', 'l', 'o']);
}
