use pleaser::text::{chars_of, split_at_char, string_of, trimmed};

#[test]
fn split_keeps_empty_pieces() {
    let pieces = split_at_char(&chars_of("a\n\nb\n"), '\n');
    let texts: Vec<String> = pieces.iter().map(string_of).collect();
    assert_eq!(texts, vec!["a", "", "b", ""]);
}

#[test]
fn trim_strips_both_ends() {
    let v = chars_of("  key \t");
    assert_eq!(string_of(&trimmed(&v, 0, v.len())), "key");
}
