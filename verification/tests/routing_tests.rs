use mockbox::routing::{feature_enabled, parse_query, parts};

fn strings(items: &[&str]) -> Vec<String> {
    items.iter().map(|s| s.to_string()).collect()
}

fn sorted_pairs(mut pairs: Vec<(String, String)>) -> Vec<(String, String)> {
    pairs.sort();
    pairs
}

fn pairs(items: &[(&str, &str)]) -> Vec<(String, String)> {
    items.iter().map(|(k, v)| (k.to_string(), v.to_string())).collect()
}

#[test]
fn parts_splits_a_path() {
    assert_eq!(parts("/api/users"), strings(&["api", "users"]));
}

#[test]
fn parts_drops_empty_segments() {
    assert_eq!(parts("//mock//a/b/"), strings(&["mock", "a", "b"]));
}

#[test]
fn parts_of_root_and_empty_are_empty() {
    assert_eq!(parts("/"), Vec::<String>::new());
    assert_eq!(parts(""), Vec::<String>::new());
}

#[test]
fn parts_without_slash_is_one_segment() {
    assert_eq!(parts("demo"), strings(&["demo"]));
}

#[test]
fn parts_keeps_non_ascii() {
    assert_eq!(parts("/grüße/ü"), strings(&["grüße", "ü"]));
}

#[test]
fn feature_flags() {
    assert!(feature_enabled("cache"));
    assert!(feature_enabled("rugen"));
    assert!(!feature_enabled("rng"));
    assert!(!feature_enabled("Cache"));
    assert!(!feature_enabled(""));
}

#[test]
fn query_simple_pairs() {
    assert_eq!(sorted_pairs(parse_query("a=1&b=2")), pairs(&[("a", "1"), ("b", "2")]));
}

#[test]
fn query_later_value_wins() {
    assert_eq!(parse_query("a=1&a=2"), pairs(&[("a", "2")]));
}

#[test]
fn query_splits_at_first_equals() {
    assert_eq!(parse_query("x=y=z"), pairs(&[("x", "y=z")]));
}

#[test]
fn query_ignores_pieces_without_equals() {
    assert_eq!(sorted_pairs(parse_query("flag&k=v&&")), pairs(&[("k", "v")]));
}

#[test]
fn query_empty_is_empty() {
    assert_eq!(parse_query(""), Vec::<(String, String)>::new());
}

#[test]
fn query_empty_key_and_value() {
    assert_eq!(sorted_pairs(parse_query("=v&k=")), pairs(&[("", "v"), ("k", "")]));
}

#[test]
fn parts_of_joined_segments_round_trip() {
    let segments = strings(&["api", "v1", "users"]);
    assert_eq!(parts(&segments.join("/")), segments);
    assert_eq!(parts(&format!("/{}", segments.join("/"))), segments);
}
