use bspterm::text::{chars_of, copy_range, is_white_space_char, same_text, starts_with_chars};

#[test]
fn white_space_matches_char_is_whitespace() {
    for u in 0u32..=0x10FFFF {
        if let Some(c) = char::from_u32(u) {
            assert_eq!(is_white_space_char(c), c.is_whitespace(), "U+{:04X}", u);
        }
    }
}

#[test]
fn chars_of_keeps_every_character() {
    assert_eq!(chars_of("a环境\tb"), vec!['a', '环', '境', '\t', 'b']);
    assert!(chars_of("").is_empty());
}

#[test]
fn prefix_and_equality_tests() {
    let s = chars_of("show version");
    assert!(starts_with_chars(&s, &chars_of("show")));
    assert!(starts_with_chars(&s, &chars_of("")));
    assert!(starts_with_chars(&s, &chars_of("show version")));
    assert!(!starts_with_chars(&s, &chars_of("show versions")));
    assert!(!starts_with_chars(&s, &chars_of("sh0w")));
    assert!(same_text("escape", "escape"));
    assert!(!same_text("escape", "Escape"));
    assert!(!same_text("g", "gg"));
}

#[test]
fn copy_range_takes_a_slice() {
    let s = chars_of("abcdef");
    assert_eq!(copy_range(&s, 1, 4), vec!['b', 'c', 'd']);
    assert!(copy_range(&s, 3, 3).is_empty());
}
