use wer::text::{
    chars_of, decimal, join, pad_end, pad_start, repeat_char, same_text, take_chars, text_of,
};

#[test]
fn decimal_writes_numbers_without_leading_zeros() {
    assert_eq!(decimal(0), "0");
    assert_eq!(decimal(7), "7");
    assert_eq!(decimal(10), "10");
    assert_eq!(decimal(1234), "1234");
    assert_eq!(decimal(usize::MAX), usize::MAX.to_string());
}

#[test]
fn padding_fills_up_to_the_width_and_never_cuts() {
    assert_eq!(pad_end("ab", 5), "ab   ");
    assert_eq!(pad_end("abcde", 5), "abcde");
    assert_eq!(pad_end("abcdef", 5), "abcdef");
    assert_eq!(pad_end("", 3), "   ");
    assert_eq!(pad_start("12", 4), "  12");
    assert_eq!(pad_start("12345", 4), "12345");
    assert_eq!(pad_start("", 0), "");
}

#[test]
fn padding_counts_characters_not_bytes() {
    assert_eq!(pad_end("Zoë", 5), "Zoë  ");
    assert_eq!(pad_start("é", 2), " é");
}

#[test]
fn take_chars_cuts_at_characters() {
    assert_eq!(take_chars("abcdefgh", 7), "abcdefg");
    assert_eq!(take_chars("abc", 7), "abc");
    assert_eq!(take_chars("abc", 0), "");
    assert_eq!(take_chars("äöüß", 2), "äö");
}

#[test]
fn repeat_char_repeats() {
    assert_eq!(repeat_char('─', 3), "───");
    assert_eq!(repeat_char('x', 0), "");
}

#[test]
fn join_puts_the_separator_between_neighbours_only() {
    let none: Vec<String> = Vec::new();
    assert_eq!(join(&none, ", "), "");
    assert_eq!(join(&vec!["a".to_string()], ", "), "a");
    assert_eq!(join(&vec!["a".to_string(), "b".to_string(), "c".to_string()], ", "), "a, b, c");
    assert_eq!(join(&vec!["".to_string(), "".to_string()], "/"), "/");
}

#[test]
fn chars_and_text_are_inverse() {
    let chars = chars_of("héllo");
    assert_eq!(chars, vec!['h', 'é', 'l', 'l', 'o']);
    assert_eq!(text_of(&chars, 0, 5), "héllo");
    assert_eq!(text_of(&chars, 1, 3), "él");
    assert_eq!(text_of(&chars, 2, 2), "");
}

#[test]
fn same_text_compares_characters() {
    assert!(same_text("abc", "abc"));
    assert!(same_text("", ""));
    assert!(!same_text("abc", "abd"));
    assert!(!same_text("abc", "ab"));
}
