use page_harvest::text::{
    append_text, chars_of, contains_chars, contains_word, equals_ignoring_ascii_case, lowercase,
    matches_at, same_chars, spells, to_ascii_lower,
};

fn v(s: &str) -> Vec<char> {
    s.chars().collect()
}

#[test]
fn strings_and_characters() {
    assert_eq!(chars_of("héllo"), vec!['h', 'é', 'l', 'l', 'o']);
    assert!(chars_of("").is_empty());
    let mut s = "ab".to_string();
    append_text(&mut s, "cd");
    append_text(&mut s, "");
    assert_eq!(s, "abcd");
}

#[test]
fn ascii_lower_case() {
    assert_eq!(to_ascii_lower('A'), 'a');
    assert_eq!(to_ascii_lower('Z'), 'z');
    assert_eq!(to_ascii_lower('a'), 'a');
    assert_eq!(to_ascii_lower('@'), '@');
    assert_eq!(to_ascii_lower('['), '[');
    assert_eq!(to_ascii_lower('É'), 'É');
    assert_eq!(lowercase(&v("Nav-BAR É1")), v("nav-bar É1"));
    for s in ["", "MiXed", "ÀÉÎ", "123 ABC xyz"] {
        assert_eq!(lowercase(&v(s)), v(&s.to_ascii_lowercase()));
    }
}

#[test]
fn equality_of_texts() {
    assert!(same_chars(&v("abc"), &v("abc")));
    assert!(!same_chars(&v("abc"), &v("abd")));
    assert!(!same_chars(&v("abc"), &v("ab")));
    assert!(same_chars(&v(""), &v("")));
    assert!(spells(&v("pre"), "pre"));
    assert!(!spells(&v("pre"), "pr"));
    assert!(equals_ignoring_ascii_case("Navigation", "navigation"));
    assert!(equals_ignoring_ascii_case("TRUE", "true"));
    assert!(!equals_ignoring_ascii_case("truth", "true"));
    assert!(!equals_ignoring_ascii_case("É", "é"));
}

#[test]
fn substrings() {
    assert!(contains_word(&v("main-navbar"), "nav"));
    assert!(contains_word(&v("nav"), "nav"));
    assert!(contains_word(&v("xnav"), "nav"));
    assert!(!contains_word(&v("na"), "nav"));
    assert!(!contains_word(&v("n-a-v"), "nav"));
    assert!(contains_word(&v("anything"), ""));
    assert!(contains_word(&v(""), ""));
    assert!(!contains_word(&v(""), "a"));
    assert!(contains_chars(&v("aab"), &v("ab")));
    assert!(matches_at(&v("hello"), &v("ll"), 2));
    assert!(!matches_at(&v("hello"), &v("ll"), 1));
    assert!(matches_at(&v("hello"), &v(""), 5));
    for (hay, needle) in [("abcabd", "abd"), ("aaaa", "aaaaa"), ("xyz", "z"), ("xyz", "zz")] {
        assert_eq!(contains_chars(&v(hay), &v(needle)), hay.contains(needle));
    }
}
