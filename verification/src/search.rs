//! Discovery of page addresses in free text, and the presentation of
//! search results.

use vstd::prelude::*;
use crate::address::{parsed_url, PageUrl};
use crate::extract::texts_of;
use crate::text::{append_text, chars_of, decimal, decimal_text};

verus! {

/// A place in a text, by line and column.
#[derive(Clone, Copy, Debug, PartialEq, Eq, Structural)]
pub struct TextPosition {
    pub line: usize,
    pub column: usize,
}

impl TextPosition {
    /// The position in words: the line, then the column.
    pub open spec fn line_and_column(&self) -> Seq<char> {
        "line "@ + decimal(self.line as nat) + " column "@ + decimal(self.column as nat)
    }

    /// The position in words, such as `line 3 column 14`.
    pub fn to_text(&self) -> (out: String)
        ensures
            out@ == self.line_and_column(),
    {
        let mut out = String::new();
        append_text(&mut out, "line ");
        append_text(&mut out, decimal_text(self.line as u64).as_str());
        append_text(&mut out, " column ");
        append_text(&mut out, decimal_text(self.column as u64).as_str());
        out
    }
}

/// The pattern that finds candidates for page addresses in free text.
pub const URL_PATTERN: &'static str = r#"https?://[A-Za-z0-9\-._~:/?#\[\]@!$&'()*+,;=%]+"#;

/// Why no page address could be looked for.
#[derive(Clone, Copy, Debug, PartialEq, Eq, Structural)]
pub enum SearchError {
    /// The pattern for page addresses was not accepted.
    PatternRejected,
}

/// The matches of `pattern` in `text` that `regex` finds: the parts of the
/// text that `Regex::find_iter` yields, in order, for the pattern compiled
/// by `Regex::new`. `None` where the pattern is not accepted.
pub uninterp spec fn regex_matches(pattern: Seq<char>, text: Seq<char>) -> Option<Seq<Seq<char>>>;

/// `regex::Regex::new` and `Regex::find_iter`: compiles the pattern and
/// hands out the text of each of its successive matches in `text`. Nothing
/// comes back where the pattern is not accepted.
#[verifier::external_body]
fn find_all(pattern: &str, text: &str) -> (found: Option<Vec<String>>)
    ensures
        match found {
            Some(matches) => regex_matches(pattern@, text@) == Some(texts_of(matches@)),
            None => regex_matches(pattern@, text@) is None,
        },
{
    let compiled = regex::Regex::new(pattern).ok()?;
    Some(compiled.find_iter(text).map(|m| m.as_str().to_string()).collect())
}

/// The characters that end a sentence or close a bracket or a quotation,
/// and so are no part of an address that they follow.
pub open spec fn trailing_mark(c: char) -> bool {
    c == ')' || c == ']' || c == '}' || c == '.' || c == ',' || c == ';' || c == ':' || c == '"'
        || c == '\'' || c == '>' || c == ' '
}

/// A text without the trailing marks at its end.
pub open spec fn trimmed(s: Seq<char>) -> Seq<char>
    decreases s.len(),
{
    if s.len() > 0 && trailing_mark(s.last()) {
        trimmed(s.drop_last())
    } else {
        s
    }
}

/// The addresses among the candidates: each candidate is trimmed and read
/// as an absolute URL; what cannot be read is left out, and each address
/// is kept where it first occurs.
pub open spec fn addresses_among(candidates: Seq<Seq<char>>) -> Seq<Seq<char>>
    decreases candidates.len(),
{
    if candidates.len() == 0 {
        Seq::empty()
    } else {
        let before = addresses_among(candidates.drop_last());
        match parsed_url(trimmed(candidates.last())) {
            Some(address) => if before.contains(address) {
                before
            } else {
                before.push(address)
            },
            None => before,
        }
    }
}

/// The views of a vector of addresses.
pub open spec fn addresses_of(urls: Seq<PageUrl>) -> Seq<Seq<char>> {
    Seq::new(urls.len(), |i: int| urls[i]@)
}

/// Whether a character is a trailing mark.
pub fn is_trailing_mark(c: char) -> (mark: bool)
    ensures
        mark == trailing_mark(c),
{
    c == ')' || c == ']' || c == '}' || c == '.' || c == ',' || c == ';' || c == ':' || c == '"'
        || c == '\'' || c == '>' || c == ' '
}

/// A text without the trailing marks at its end.
pub fn trim_trailing_marks(text: &str) -> (out: String)
    ensures
        out@ == trimmed(text@),
{
    let chars = chars_of(text);
    let mut end: usize = chars.len();
    proof {
        assert(chars@.take(end as int) == chars@);
    }
    while end > 0 && is_trailing_mark(chars[end - 1])
        invariant
            end <= chars.len(),
            trimmed(chars@) == trimmed(chars@.take(end as int)),
        decreases end,
    {
        proof {
            assert(chars@.take(end as int).drop_last() == chars@.take(end - 1));
        }
        end -= 1;
    }
    let mut out = String::new();
    let mut i: usize = 0;
    while i < end
        invariant
            i <= end,
            end <= chars.len(),
            out@ == chars@.take(i as int),
        decreases end - i,
    {
        out.push(chars[i]);
        i += 1;
    }
    out
}

/// Whether `url` is among `urls`.
fn has_address(urls: &Vec<PageUrl>, url: &PageUrl) -> (found: bool)
    ensures
        found == addresses_of(urls@).contains(url@),
{
    let mut i: usize = 0;
    while i < urls.len()
        invariant
            i <= urls.len(),
            forall|k: int| 0 <= k < i ==> addresses_of(urls@)[k] != url@,
        decreases urls.len() - i,
    {
        if urls[i].same_as(url) {
            assert(addresses_of(urls@)[i as int] == url@);
            return true;
        }
        i += 1;
    }
    false
}

/// The page addresses among the candidates, each once, in the order in
/// which they first occur.
pub fn addresses_in(candidates: &Vec<String>) -> (urls: Vec<PageUrl>)
    ensures
        addresses_of(urls@) == addresses_among(texts_of(candidates@)),
        forall|i: int| 0 <= i < urls.len() ==> (#[trigger] urls[i]).wf(),
{
    let ghost all = texts_of(candidates@);
    let mut urls: Vec<PageUrl> = Vec::new();
    let mut i: usize = 0;
    while i < candidates.len()
        invariant
            i <= candidates.len(),
            all == texts_of(candidates@),
            addresses_of(urls@) == addresses_among(all.take(i as int)),
            forall|k: int| 0 <= k < urls.len() ==> (#[trigger] urls[k]).wf(),
        decreases candidates.len() - i,
    {
        proof {
            assert(all.take(i + 1).drop_last() == all.take(i as int));
        }
        let text = trim_trailing_marks(candidates[i].as_str());
        if let Some(url) = PageUrl::parse(text.as_str()) {
            if !has_address(&urls, &url) {
                urls.push(url);
            }
        }
        i += 1;
    }
    proof {
        assert(all.take(candidates.len() as int) == all);
    }
    urls
}

/// The page addresses in a text, each once, in the order in which they
/// first occur, with the candidates found by `pattern`. The candidates are
/// the matches of the pattern; what becomes of them is what
/// [`addresses_in`] makes of them. There is nothing but an error where the
/// pattern is not accepted.
pub fn extract_urls_matching(pattern: &str, s: &str) -> (result: Result<Vec<PageUrl>, SearchError>)
    ensures
        match regex_matches(pattern@, s@) {
            Some(candidates) => result matches Ok(urls) && addresses_of(urls@) == addresses_among(
                candidates,
            ) && forall|i: int| 0 <= i < urls.len() ==> (#[trigger] urls[i]).wf(),
            None => result == Err::<Vec<PageUrl>, SearchError>(SearchError::PatternRejected),
        },
{
    match find_all(pattern, s) {
        Some(candidates) => Ok(addresses_in(&candidates)),
        None => Err(SearchError::PatternRejected),
    }
}

/// The page addresses in a text, each once, in the order in which they
/// first occur. The candidates are the matches of [`URL_PATTERN`].
/// Addresses of every scheme that the pattern lets through are returned.
pub fn extract_urls(s: &str) -> (result: Result<Vec<PageUrl>, SearchError>)
    ensures
        match regex_matches(URL_PATTERN@, s@) {
            Some(candidates) => result matches Ok(urls) && addresses_of(urls@) == addresses_among(
                candidates,
            ) && forall|i: int| 0 <= i < urls.len() ==> (#[trigger] urls[i]).wf(),
            None => result == Err::<Vec<PageUrl>, SearchError>(SearchError::PatternRejected),
        },
{
    extract_urls_matching(URL_PATTERN, s)
}

/// Trimming takes marks away from the end and nothing else: what is left
/// is a beginning of the text, does not end in a mark, and everything after
/// it is marks.
pub proof fn lemma_trimmed_shape(s: Seq<char>)
    ensures
        trimmed(s).len() <= s.len(),
        trimmed(s) == s.take(trimmed(s).len() as int),
        trimmed(s).len() > 0 ==> !trailing_mark(trimmed(s).last()),
        forall|i: int| trimmed(s).len() <= i < s.len() ==> trailing_mark(#[trigger] s[i]),
    decreases s.len(),
{
    if s.len() > 0 && trailing_mark(s.last()) {
        let front = s.drop_last();
        lemma_trimmed_shape(front);
        assert forall|i: int| trimmed(s).len() <= i < s.len() implies trailing_mark(
            #[trigger] s[i],
        ) by {
            if i < front.len() {
                assert(s[i] == front[i]);
            }
        }
    }
}

/// The addresses found form a set: none occurs twice, each is the normal
/// form of a trimmed candidate, and the normal form of every candidate that
/// is an absolute URL is among them.
pub proof fn lemma_addresses_are_distinct(candidates: Seq<Seq<char>>)
    ensures
        addresses_among(candidates).no_duplicates(),
        forall|i: int|
            0 <= i < addresses_among(candidates).len() ==> exists|k: int|
                0 <= k < candidates.len() && parsed_url(trimmed(candidates[k])) == Some(
                    #[trigger] addresses_among(candidates)[i],
                ),
        forall|k: int|
            0 <= k < candidates.len() ==> (#[trigger] parsed_url(
                trimmed(candidates[k]),
            ) matches Some(address) ==> addresses_among(candidates).contains(address)),
    decreases candidates.len(),
{
    if candidates.len() > 0 {
        let front = candidates.drop_last();
        let before = addresses_among(front);
        let found = addresses_among(candidates);
        lemma_addresses_are_distinct(front);
        assert forall|i: int| 0 <= i < found.len() implies exists|k: int|
            0 <= k < candidates.len() && parsed_url(trimmed(candidates[k])) == Some(
                #[trigger] found[i],
            ) by {
            if i < before.len() {
                assert(found[i] == before[i]);
                let k = choose|k: int|
                    0 <= k < front.len() && parsed_url(trimmed(front[k])) == Some(before[i]);
                assert(front[k] == candidates[k]);
            } else {
                assert(parsed_url(trimmed(candidates[candidates.len() - 1])) == Some(found[i]));
            }
        }
        assert forall|k: int| 0 <= k < candidates.len() implies (#[trigger] parsed_url(
            trimmed(candidates[k]),
        ) matches Some(address) ==> found.contains(address)) by {
            if let Some(address) = parsed_url(trimmed(candidates[k])) {
                if k < front.len() {
                    assert(front[k] == candidates[k]);
                    let i = choose|i: int| 0 <= i < before.len() && before[i] == address;
                    assert(found[i] == address);
                } else if before.contains(address) {
                    let i = choose|i: int| 0 <= i < before.len() && before[i] == address;
                    assert(found[i] == address);
                } else {
                    assert(found[before.len() as int] == address);
                }
            }
        }
    }
}

} // verus!
