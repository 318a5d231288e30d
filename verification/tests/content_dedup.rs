use mnemo::services::content_dedup::content_hash;
use mnemo::services::content_dedup::normalize_content;

#[test]
fn normalization_is_stable() {
    assert_eq!(normalize_content("  Hello\n WORLD  "), "hello world");
    assert_eq!(content_hash("hello world").len(), 64);
}

#[test]
fn hash_is_lower_hex_and_depends_on_input() {
    let a = content_hash("hello world");
    let b = content_hash("hello world!");
    assert_ne!(a, b);
    assert_ne!(a, "hello world");
    assert!(a.chars().all(|c| c.is_ascii_digit() || ('a'..='f').contains(&c)));
    assert_eq!(a, content_hash(&normalize_content("HELLO   world")));
}

#[test]
fn normal_form_is_single_spaced() {
    assert_eq!(normalize_content("A\tb\n\nC"), "a b c");
    let n = normalize_content("\u{3000} one \t\r\n two\u{2003}\u{2003}three  ");
    assert_eq!(n, "one two three");
    assert!(!n.starts_with(char::is_whitespace) && !n.ends_with(char::is_whitespace));
    assert!(!n.contains("  "));
    assert!(n.chars().all(|c| !c.is_whitespace() || c == ' '));
    assert_eq!(normalize_content(" \n\t "), "");
}
