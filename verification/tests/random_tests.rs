use mockbox::generate::{alphanumeric_string, pick_one, pick_weighted, random_string};
use mockbox::helper::to_string;
use mockbox::rng::{
    alpha_numeric, alpha_numeric_many, choose_many, choose_one, range, range_char, range_char_inclusive,
    range_char_inclusive_many, range_char_many, range_inclusive, range_inclusive_many, range_many, sample,
};

#[test]
fn range_stays_in_bounds() {
    for _ in 0..200 {
        let n = range(3, 7);
        assert!((3..7).contains(&n));
    }
    assert_eq!(range(4, 5), 4);
}

#[test]
fn range_inclusive_stays_in_bounds() {
    for _ in 0..200 {
        let n = range_inclusive(3, 4);
        assert!((3..=4).contains(&n));
    }
    assert_eq!(range_inclusive(9, 9), 9);
}

#[test]
fn range_many_counts() {
    let ns = range_many(10, 20, 50);
    assert_eq!(ns.len(), 50);
    assert!(ns.iter().all(|n| (10..20).contains(n)));
    assert!(range_many(5, 5, 0).is_empty());
    let ms = range_inclusive_many(1, 1, 3);
    assert_eq!(ms, vec![1, 1, 1]);
}

#[test]
fn char_ranges_stay_in_bounds() {
    for _ in 0..200 {
        let c = range_char('a', 'd');
        assert!(('a'..'d').contains(&c));
        let d = range_char_inclusive('x', 'z');
        assert!(('x'..='z').contains(&d));
    }
    let across = range_char_many('\u{D7FF}', '\u{E001}', 100);
    assert!(across.iter().all(|c| *c == '\u{D7FF}' || *c == '\u{E000}'));
    assert_eq!(range_char_inclusive_many('q', 'q', 2), vec!['q', 'q']);
    assert!(range_char_many('b', 'a', 0).is_empty());
}

#[test]
fn alpha_numeric_chars() {
    assert!(alpha_numeric().is_ascii_alphanumeric());
    let cs = alpha_numeric_many(64);
    assert_eq!(cs.len(), 64);
    assert!(cs.iter().all(|c| c.is_ascii_alphanumeric()));
}

#[test]
fn choose_one_from_values() {
    let empty: [u8; 0] = [];
    assert_eq!(choose_one(&empty), None);
    let values = [1, 2, 3];
    let picked = choose_one(&values).unwrap();
    assert!(values.contains(picked));
    assert_eq!(choose_one(&[42]), Some(&42));
}

#[test]
fn choose_many_takes_distinct_positions() {
    let values = [1, 2, 3, 4, 5];
    let mut picked: Vec<i32> = choose_many(&values, 3).into_iter().copied().collect();
    assert_eq!(picked.len(), 3);
    picked.sort();
    picked.dedup();
    assert_eq!(picked.len(), 3);
    let mut all: Vec<i32> = sample(&values, 10).into_iter().copied().collect();
    all.sort();
    assert_eq!(all, vec![1, 2, 3, 4, 5]);
    assert!(sample(&values, 0).is_empty());
}

#[test]
fn pick_one_of_none_fails() {
    let empty: [u8; 0] = [];
    assert_eq!(pick_one(&empty), Err("OneOf has no values".to_string()));
    assert_eq!(pick_one(&["a"]), Ok(&"a"));
}

#[test]
fn pick_weighted_never_picks_zero_weight() {
    let items = [(0u32, "never"), (5u32, "always"), (0u32, "never")];
    for _ in 0..100 {
        assert_eq!(pick_weighted(&items), Ok(&"always"));
    }
}

#[test]
fn pick_weighted_errors() {
    let empty: [(u32, u8); 0] = [];
    assert_eq!(pick_weighted(&empty), Err("OneOf has no values".to_string()));
    assert_eq!(pick_weighted(&[(0u32, 1u8), (0u32, 2u8)]), Err("OneOf has no values".to_string()));
    assert_eq!(pick_weighted(&[(u32::MAX, 1u8), (1u32, 2u8)]), Err("OneOf has no values".to_string()));
    assert_eq!(pick_weighted(&[(u32::MAX, 1u8), (0u32, 2u8)]), Ok(&1u8));
}

#[test]
fn generated_strings() {
    let s = alphanumeric_string(12);
    assert_eq!(s.chars().count(), 12);
    assert!(s.chars().all(|c| c.is_ascii_alphanumeric()));
    assert_eq!(alphanumeric_string(0), "");
    let t = random_string(20, 'a', 'c');
    assert_eq!(t.chars().count(), 20);
    assert!(t.chars().all(|c| c == 'a' || c == 'b'));
    assert_eq!(random_string(0, 'z', 'a'), "");
}

#[test]
fn to_string_renders_display() {
    assert_eq!(to_string(42), "42");
    assert_eq!(to_string("text"), "text");
}
