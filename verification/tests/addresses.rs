use page_harvest::address::PageUrl;
use page_harvest::search::{
    addresses_in, extract_urls, extract_urls_matching, is_trailing_mark, trim_trailing_marks,
    SearchError, TextPosition, URL_PATTERN,
};

fn found(text: &str) -> Vec<String> {
    extract_urls(text).unwrap().iter().map(|u| u.as_str().to_string()).collect()
}

#[test]
fn addresses_are_found_trimmed_and_unique() {
    let text = "See (https://example.com/a). Also https://example.com/a, \
                and http://Example.org:80/x?y=1; end";
    assert_eq!(found(text), vec!["https://example.com/a", "http://example.org/x?y=1"]);
}

#[test]
fn addresses_come_in_order_of_first_occurrence() {
    let text = "https://b.example/ https://a.example/ https://b.example https://c.example/z";
    assert_eq!(
        found(text),
        vec!["https://b.example/", "https://a.example/", "https://c.example/z"]
    );
}

#[test]
fn text_without_addresses() {
    assert!(found("").is_empty());
    assert!(found("no links here, ftp://files.example/ neither").is_empty());
    assert!(found("https:// and http://").is_empty());
}

#[test]
fn candidates_that_are_no_urls_are_left_out() {
    assert_eq!(found("http://[bad https://good.example/ok"), vec!["https://good.example/ok"]);
}

#[test]
fn address_is_normalised_on_parsing() {
    let url = PageUrl::parse("HTTPS://Example.COM").unwrap();
    assert_eq!(url.as_str(), "https://example.com/");
    assert!(url.same_as(&PageUrl::parse("https://example.com/").unwrap()));
    assert!(!url.same_as(&PageUrl::parse("https://example.com/x").unwrap()));
    assert_eq!(url.clone(), url);
    assert!(PageUrl::parse("not a url").is_none());
    assert!(PageUrl::parse("/relative/path").is_none());
    assert_eq!(PageUrl::parse("mailto:someone@example.com").unwrap().as_str(), "mailto:someone@example.com");
}

#[test]
fn trailing_marks_are_removed() {
    assert_eq!(trim_trailing_marks("https://example.com/a)."), "https://example.com/a");
    assert_eq!(trim_trailing_marks("x)]}.,;:\"'> "), "x");
    assert_eq!(trim_trailing_marks(".,;"), "");
    assert_eq!(trim_trailing_marks(""), "");
    assert_eq!(trim_trailing_marks(".a.b"), ".a.b");
    assert_eq!(trim_trailing_marks("a(b)c"), "a(b)c");
    for c in [')', ']', '}', '.', ',', ';', ':', '"', '\'', '>', ' '] {
        assert!(is_trailing_mark(c));
    }
    for c in ['(', '[', '{', '<', '/', 'a', '!', '?', '\t'] {
        assert!(!is_trailing_mark(c));
    }
}

#[test]
fn addresses_among_candidates() {
    let candidates = vec![
        "https://example.com/a).".to_string(),
        "nonsense".to_string(),
        "https://EXAMPLE.com/a".to_string(),
        "https://example.com/b;".to_string(),
    ];
    let urls = addresses_in(&candidates);
    let texts: Vec<&str> = urls.iter().map(|u| u.as_str()).collect();
    assert_eq!(texts, vec!["https://example.com/a", "https://example.com/b"]);
    assert!(addresses_in(&Vec::new()).is_empty());
}

#[test]
fn pattern_of_addresses() {
    assert_eq!(URL_PATTERN, "https?://[A-Za-z0-9\\-._~:/?#\\[\\]@!$&'()*+,;=%]+");
}

#[test]
fn position_in_words() {
    assert_eq!(TextPosition { line: 3, column: 14 }.to_text(), "line 3 column 14");
    assert_eq!(TextPosition { line: 0, column: 0 }.to_text(), "line 0 column 0");
}

#[test]
fn pattern_that_is_not_accepted_is_an_error() {
    assert_eq!(extract_urls_matching("https?://(", "https://example.com/"), Err(SearchError::PatternRejected));
}

#[test]
fn other_patterns_find_other_candidates() {
    let urls = extract_urls_matching("ftp://[a-z./]+", "see ftp://files.example/pub, or https://example.com/").unwrap();
    let texts: Vec<&str> = urls.iter().map(|u| u.as_str()).collect();
    assert_eq!(texts, vec!["ftp://files.example/pub"]);
}
