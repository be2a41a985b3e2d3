use mockbox::text::{chars_of, same_text, split_at_char, split_once_at, starts_with, text_eq_ignoring_ascii_case};

#[test]
fn split_matches_std() {
    for (s, sep) in [("a&b", '&'), ("", '&'), ("&", '&'), ("a&&b&", '&'), ("/x/y", '/'), ("no", '/')] {
        let expected: Vec<String> = s.split(sep).map(|p| p.to_string()).collect();
        assert_eq!(split_at_char(s, sep), expected);
    }
}

#[test]
fn split_once_matches_std() {
    for s in ["k=v", "k==v", "=", "none", "", "a=b=c"] {
        let expected = s.split_once('=').map(|(a, b)| (a.to_string(), b.to_string()));
        assert_eq!(split_once_at(s, '='), expected);
    }
}

#[test]
fn text_helpers() {
    assert_eq!(chars_of("aé"), vec!['a', 'é']);
    assert!(same_text("x", "x"));
    assert!(!same_text("x", "X"));
    assert!(starts_with("https://a", "https://"));
    assert!(!starts_with("http", "https://"));
    assert!(starts_with("", ""));
    assert!(text_eq_ignoring_ascii_case("HoSt", "host"));
    assert!(!text_eq_ignoring_ascii_case("hosts", "host"));
    assert!(!text_eq_ignoring_ascii_case("[", "{"));
}
