use clip_server::text::{
    chars_of, contains_text, escape_quotes, hyphenate, normalize_slashes, same_text,
    trim, write_decimal, write_signed,
};

#[test]
fn backslashes_become_slashes() {
    assert_eq!(normalize_slashes("C:\\Users\\me\\wiki"), "C:/Users/me/wiki");
    assert_eq!(normalize_slashes("/plain/path"), "/plain/path");
    assert_eq!(normalize_slashes(""), "");
}

#[test]
fn quotes_get_backslashes() {
    assert_eq!(escape_quotes("a \"b\" c"), "a \\\"b\\\" c");
    assert_eq!(escape_quotes("plain"), "plain");
}

#[test]
fn trim_takes_white_space_of_any_kind() {
    assert_eq!(trim(" \t\r\n\u{b}\u{c}a b\u{3000}"), "a b");
    assert_eq!(trim("\u{2003}\u{a0}"), "");
    assert_eq!(trim("x"), "x");
    for text in ["", " ", "a", " a", "a ", " \u{85}a\u{2028} ", "\u{200b}a\u{200b}"] {
        assert_eq!(trim(text), text.trim());
    }
}

#[test]
fn parts_of_texts_are_found() {
    assert!(contains_text("{\"ok\":true}", "\"ok\":true"));
    assert!(!contains_text("{\"ok\": true}", "\"ok\":true"));
    assert!(contains_text("aaab", "aab"));
    assert!(contains_text("", ""));
    assert!(contains_text("a", ""));
    assert!(!contains_text("", "a"));
}

#[test]
fn decimals() {
    assert_eq!(write_decimal(0), "0");
    assert_eq!(write_decimal(1234567890), "1234567890");
    assert_eq!(write_decimal(u64::MAX), "18446744073709551615");
    assert_eq!(write_signed(-7), "-7");
    assert_eq!(write_signed(i64::MIN), "-9223372036854775808");
    assert_eq!(write_signed(i64::MAX), "9223372036854775807");
}

#[test]
fn words_are_joined_by_hyphens() {
    let join = |text: &str| hyphenate(&chars_of(text));
    assert_eq!(join("  one two\t three "), "one-two-three");
    assert_eq!(join(" - "), "-");
    assert_eq!(join(""), "");
    assert_eq!(join("a\u{3000}b"), "a-b");
}

#[test]
fn characters_of_texts() {
    assert_eq!(chars_of("aé漢"), vec!['a', 'é', '漢']);
    assert!(same_text("/ask", "/ask"));
    assert!(!same_text("/ask", "/asks"));
}

#[test]
fn just_the_white_space_of_unicode_is_trimmed() {
    for c in '\0'..=char::MAX {
        let white = matches!(
            c,
            '\t'..='\r'
                | ' '
                | '\u{85}'
                | '\u{a0}'
                | '\u{1680}'
                | '\u{2000}'..='\u{200a}'
                | '\u{2028}'
                | '\u{2029}'
                | '\u{202f}'
                | '\u{205f}'
                | '\u{3000}'
        );
        let text = format!("{}x{}", c, c);
        let expected = if white { "x" } else { text.as_str() };
        assert_eq!(trim(&text), expected);
    }
}
