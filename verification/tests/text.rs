use servers::text::{chars_of, append, contains, decimal, join, same, string_of};

#[test]
fn chars_of_lists_characters() {
    assert_eq!(chars_of("aß€"), vec!['a', 'ß', '€']);
    assert!(chars_of("").is_empty());
}

#[test]
fn string_of_takes_a_range() {
    let chars = vec!['h', 'e', 'l', 'l', 'o'];
    assert_eq!(string_of(&chars, 1, 4), "ell");
    assert_eq!(string_of(&chars, 0, 5), "hello");
    assert_eq!(string_of(&chars, 2, 2), "");
}

#[test]
fn string_of_cuts_off_past_the_end() {
    let chars = vec!['h', 'e', 'l', 'l', 'o'];
    assert_eq!(string_of(&chars, 3, 99), "lo");
    assert_eq!(string_of(&chars, 4, 2), "");
    assert_eq!(string_of(&chars, 7, 9), "");
}

#[test]
fn same_compares_by_characters() {
    assert!(same("/help", "/help"));
    assert!(same("", ""));
    assert!(!same("/help", "/helq"));
    assert!(!same("/help", "/hel"));
    assert!(!same("a", "A"));
}

#[test]
fn append_puts_second_behind_first() {
    assert_eq!(append("error: ", "boom"), "error: boom");
    assert_eq!(append("", "x"), "x");
    assert_eq!(append("x", ""), "x");
}

#[test]
fn join_puts_separator_between_neighbours() {
    let parts = vec!["a".to_string(), "b".to_string(), "c".to_string()];
    assert_eq!(join(&parts, ", "), "a, b, c");
    assert_eq!(join(&parts, ""), "abc");
    assert_eq!(join(&vec!["only".to_string()], ", "), "only");
    assert_eq!(join(&Vec::new(), ", "), "");
    assert_eq!(join(&vec![String::new(), String::new()], " "), " ");
}

#[test]
fn contains_finds_a_run() {
    assert!(contains("write failed: Broken pipe (os error 32)", "Broken pipe"));
    assert!(contains("Broken pipe", "Broken pipe"));
    assert!(contains("abc", ""));
    assert!(contains("", ""));
    assert!(contains("aab", "ab"));
    assert!(!contains("broken pipe", "Broken pipe"));
    assert!(!contains("Broken pip", "Broken pipe"));
    assert!(!contains("", "x"));
}

#[test]
fn decimal_prints_numbers() {
    assert_eq!(decimal(0), "0");
    assert_eq!(decimal(7), "7");
    assert_eq!(decimal(10), "10");
    assert_eq!(decimal(1234567890), "1234567890");
    assert_eq!(decimal(usize::MAX), usize::MAX.to_string());
}
