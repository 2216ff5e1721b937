use servers::tokenizer::{is_whitespace, tokenize};

#[test]
fn tokenize_splits_at_whitespace() {
    assert_eq!(tokenize("/say  hello\tworld\r\n"), vec!["/say", "hello", "world"]);
}

#[test]
fn tokenize_blank_unit_has_no_token() {
    assert!(tokenize("").is_empty());
    assert!(tokenize(" \t\r\n\x0C").is_empty());
}

#[test]
fn tokenize_single_word() {
    assert_eq!(tokenize("/help"), vec!["/help"]);
    assert_eq!(tokenize("   /help"), vec!["/help"]);
    assert_eq!(tokenize("/help   "), vec!["/help"]);
}

#[test]
fn tokenize_knows_no_quoting() {
    assert_eq!(tokenize("/say \"a b\""), vec!["/say", "\"a", "b\""]);
}

#[test]
fn tokenize_keeps_other_unicode_space() {
    // U+00A0 and U+2003 are whitespace to Unicode but not to ASCII.
    assert_eq!(tokenize("a\u{a0}b c\u{2003}d"), vec!["a\u{a0}b", "c\u{2003}d"]);
}

#[test]
fn tokenize_agrees_with_std() {
    let units = [
        "",
        " ",
        "a",
        " a",
        "a ",
        "a b",
        "\ta\nb\rc\x0Cd ",
        "/broadcast hi  there",
        "żółć  ünï\tcode",
        "x\x0By",
    ];
    for unit in units {
        let expected: Vec<String> = unit.split_ascii_whitespace().map(String::from).collect();
        assert_eq!(tokenize(unit), expected, "unit {unit:?}");
    }
}

#[test]
fn tokens_are_never_empty_and_hold_no_whitespace() {
    for unit in ["  a  bb   ccc ", "\n\n", "one", "\r\none\ttwo\x0C"] {
        for token in tokenize(unit) {
            assert!(!token.is_empty());
            assert!(token.chars().all(|c| !is_whitespace(c)));
        }
    }
}

#[test]
fn whitespace_is_the_five_ascii_characters() {
    for c in [' ', '\t', '\n', '\x0C', '\r'] {
        assert!(is_whitespace(c));
    }
    for c in ['a', '0', '\x0B', '\u{a0}', '\0', '/'] {
        assert!(!is_whitespace(c));
    }
}
