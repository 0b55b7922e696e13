//! Reduction of one page to its readable text blocks: which elements are
//! candidates, which of them are page chrome or lie inside another
//! candidate, and how their text is normalised.

use scraper::{ElementRef, Html, Selector};
use vstd::prelude::*;
use crate::address::PageUrl;
use crate::rag::{WebDoc, WebDocView};
use crate::text::{
    chars_of,
    contains_word,
    equals_ignoring_ascii_case,
    has_substring,
    lowercase,
    lowered,
    same_ignoring_ascii_case,
    spells,
};

verus! {

/// Whether `char::is_whitespace` holds of `c`, that is, whether `c` has the
/// Unicode property `White_Space`.
pub uninterp spec fn unicode_whitespace(c: char) -> bool;

/// `char::is_whitespace` tells whether a character has the Unicode
/// property `White_Space`.
pub assume_specification[ char::is_whitespace ](c: char) -> (white: bool)
    ensures
        white == unicode_whitespace(c),
;

/// What the extractor reads of an element that encloses a candidate: its
/// tag and the attributes that can mark it as page chrome.
#[derive(Clone, Debug, PartialEq, Eq)]
pub struct Element {
    pub tag: String,
    pub role: Option<String>,
    pub aria_hidden: Option<String>,
    pub id: Option<String>,
    pub class: Option<String>,
}

/// A candidate for extraction: the tag of an element, the elements that
/// enclose it from the nearest outwards, and the pieces of text inside it in
/// document order.
#[derive(Clone, Debug, PartialEq, Eq)]
pub struct TextBlock {
    pub tag: String,
    pub ancestors: Vec<Element>,
    pub chunks: Vec<String>,
}

/// Why a page could not be reduced to text.
#[derive(Clone, Copy, Debug, PartialEq, Eq, Structural)]
pub enum ExtractError {
    /// The candidate selector was not accepted, so no element was selected.
    SelectorRejected,
}

/// What an [`Element`] holds.
pub struct ElementView {
    pub tag: Seq<char>,
    pub role: Option<Seq<char>>,
    pub aria_hidden: Option<Seq<char>>,
    pub id: Option<Seq<char>>,
    pub class: Option<Seq<char>>,
}

/// What a [`TextBlock`] holds.
pub struct TextBlockView {
    pub tag: Seq<char>,
    pub ancestors: Seq<ElementView>,
    pub chunks: Seq<Seq<char>>,
}

/// The text of an attribute that may be absent.
pub open spec fn value_of(attribute: Option<String>) -> Option<Seq<char>> {
    match attribute {
        Some(value) => Some(value@),
        None => None,
    }
}

impl View for Element {
    type V = ElementView;

    open spec fn view(&self) -> ElementView {
        ElementView {
            tag: self.tag@,
            role: value_of(self.role),
            aria_hidden: value_of(self.aria_hidden),
            id: value_of(self.id),
            class: value_of(self.class),
        }
    }
}

impl View for TextBlock {
    type V = TextBlockView;

    open spec fn view(&self) -> TextBlockView {
        TextBlockView {
            tag: self.tag@,
            ancestors: Seq::new(self.ancestors@.len(), |i: int| self.ancestors@[i]@),
            chunks: texts_of(self.chunks@),
        }
    }
}

/// The views of a vector of blocks.
pub open spec fn blocks_of(blocks: Seq<TextBlock>) -> Seq<TextBlockView> {
    Seq::new(blocks.len(), |i: int| blocks[i]@)
}

/// The views of a vector of documents.
pub open spec fn docs_of(docs: Seq<WebDoc>) -> Seq<WebDocView> {
    Seq::new(docs.len(), |i: int| docs[i]@)
}

/// The candidates that `scraper` finds in a page: the elements of the
/// parsed document `html` that match the selector group `selector`, in the
/// order in which `Html::select` yields them, each with its tag, its
/// enclosing elements and the text nodes below it. `None` where
/// `Selector::parse` does not accept the selector.
pub uninterp spec fn selected_blocks(html: Seq<char>, selector: Seq<char>) -> Option<
    Seq<TextBlockView>,
>;

/// `scraper::Selector::parse`, `scraper::Html::parse_document` and
/// `Html::select`: parses the selector group and the page and hands out the
/// matching elements as blocks. Of each element it keeps the name, of each
/// enclosing element the name and the attributes `role`, `aria-hidden`, `id`
/// and `class`, and the text nodes below the element as `ElementRef::text`
/// yields them. Nothing comes back where the selector is not accepted.
#[verifier::external_body]
fn select_blocks(html: &str, selector: &str) -> (found: Option<Vec<TextBlock>>)
    ensures
        match found {
            Some(blocks) => selected_blocks(html@, selector@) == Some(blocks_of(blocks@)),
            None => selected_blocks(html@, selector@) is None,
        },
{
    let selector = Selector::parse(selector).ok()?;
    let read = |e: ElementRef| Element {
        tag: e.value().name().to_string(),
        role: e.attr("role").map(String::from),
        aria_hidden: e.attr("aria-hidden").map(String::from),
        id: e.attr("id").map(String::from),
        class: e.attr("class").map(String::from),
    };
    let page = Html::parse_document(html);
    Some(page.select(&selector).map(|node| TextBlock {
        tag: node.value().name().to_string(),
        ancestors: node.ancestors().filter_map(ElementRef::wrap).map(read).collect(),
        chunks: node.text().map(String::from).collect(),
    }).collect())
}

/// The tags whose elements are candidates for extraction: paragraph, list
/// item, block quote, preformatted block, code, and the six headings.
pub open spec fn block_tag(tag: Seq<char>) -> bool {
    ||| tag == "p"@
    ||| tag == "li"@
    ||| tag == "blockquote"@
    ||| tag == "pre"@
    ||| tag == "code"@
    ||| tag == "h1"@
    ||| tag == "h2"@
    ||| tag == "h3"@
    ||| tag == "h4"@
    ||| tag == "h5"@
    ||| tag == "h6"@
}

/// An `id` or `class` value hints at page chrome when its lower-case form
/// holds one of the chrome keywords.
pub open spec fn chrome_like(value: Seq<char>) -> bool {
    let low = lowered(value);
    ||| has_substring(low, "nav"@)
    ||| has_substring(low, "navbar"@)
    ||| has_substring(low, "menu"@)
    ||| has_substring(low, "footer"@)
    ||| has_substring(low, "header"@)
    ||| has_substring(low, "sidebar"@)
    ||| has_substring(low, "breadcrumb"@)
    ||| has_substring(low, "breadcrumbs"@)
    ||| has_substring(low, "cookie"@)
    ||| has_substring(low, "consent"@)
    ||| has_substring(low, "subscribe"@)
    ||| has_substring(low, "newsletter"@)
}

/// A character that separates words: the space, and every character that
/// Unicode counts as white space.
pub open spec fn is_blank(c: char) -> bool {
    c == ' ' || unicode_whitespace(c)
}

/// The words of a text: its maximal runs of characters that are not blank,
/// in order.
pub open spec fn words(s: Seq<char>) -> Seq<Seq<char>>
    decreases s.len(),
{
    if s.len() == 0 {
        Seq::empty()
    } else {
        let before = s.drop_last();
        let found = words(before);
        if is_blank(s.last()) {
            found
        } else if before.len() > 0 && !is_blank(before.last()) {
            found.drop_last().push(found.last().push(s.last()))
        } else {
            found.push(seq![s.last()])
        }
    }
}

/// The words of `ws` with one space between neighbours.
pub open spec fn joined(ws: Seq<Seq<char>>) -> Seq<char>
    decreases ws.len(),
{
    if ws.len() == 0 {
        Seq::empty()
    } else if ws.len() == 1 {
        ws[0]
    } else {
        joined(ws.drop_last()).push(' ') + ws.last()
    }
}

/// The normal form of a text: its words, separated by single spaces, with
/// nothing before the first and nothing after the last.
pub open spec fn normalized(s: Seq<char>) -> Seq<char> {
    joined(words(s))
}

/// The pieces of text `chunks[0]`, `chunks[1]`, ... up to but excluding
/// `chunks[n]`, one after the other.
pub open spec fn run_together(chunks: Seq<Seq<char>>, n: int) -> Seq<char>
    decreases n,
{
    if n <= 0 {
        Seq::empty()
    } else {
        run_together(chunks, n - 1) + chunks[n - 1]
    }
}

/// The views of a vector of strings.
pub open spec fn texts_of(chunks: Seq<String>) -> Seq<Seq<char>> {
    Seq::new(chunks.len(), |i: int| chunks[i]@)
}

/// No word of a text is empty, and a text that ends in a character that is
/// not blank has a last word.
proof fn lemma_words_are_filled(s: Seq<char>)
    ensures
        forall|i: int| 0 <= i < words(s).len() ==> #[trigger] words(s)[i].len() > 0,
        s.len() > 0 && !is_blank(s.last()) ==> words(s).len() > 0,
    decreases s.len(),
{
    if s.len() > 0 {
        let found = words(s.drop_last());
        lemma_words_are_filled(s.drop_last());
        assert forall|i: int| 0 <= i < words(s).len() implies #[trigger] words(s)[i].len()
            > 0 by {
            if i < found.len() - 1 {
                assert(words(s)[i] == found[i]);
            } else if i < found.len() && is_blank(s.last()) {
                assert(words(s)[i] == found[i]);
            }
        }
    }
}

/// Joined words give the empty text only when there is no word.
proof fn lemma_joined_is_filled(ws: Seq<Seq<char>>)
    requires
        forall|i: int| 0 <= i < ws.len() ==> #[trigger] ws[i].len() > 0,
    ensures
        joined(ws).len() == 0 <==> ws.len() == 0,
    decreases ws.len(),
{
    if ws.len() > 1 {
        lemma_joined_is_filled(ws.drop_last());
    }
}

/// A character added to the last word is added to the joined text.
proof fn lemma_joined_grows(ws: Seq<Seq<char>>, c: char)
    requires
        ws.len() > 0,
    ensures
        joined(ws.drop_last().push(ws.last().push(c))) == joined(ws).push(c),
{
    let grown = ws.drop_last().push(ws.last().push(c));
    assert(grown.drop_last() == ws.drop_last());
    if ws.len() > 1 {
        assert(joined(grown) == joined(ws.drop_last()).push(' ') + ws.last().push(c));
        assert(joined(ws.drop_last()).push(' ') + ws.last().push(c) == (joined(
            ws.drop_last(),
        ).push(' ') + ws.last()).push(c));
    }
}

/// A new word is added to the joined text after a space, or stands alone
/// when it is the first.
proof fn lemma_joined_gains_word(ws: Seq<Seq<char>>, c: char)
    ensures
        joined(ws.push(seq![c])) == if ws.len() == 0 {
            seq![c]
        } else {
            joined(ws).push(' ').push(c)
        },
{
    let more = ws.push(seq![c]);
    assert(more.drop_last() == ws);
    if ws.len() > 0 {
        assert(joined(ws).push(' ') + seq![c] == joined(ws).push(' ').push(c));
    }
}

/// Whether a tag names a candidate element.
pub fn is_block_tag(tag: &str) -> (block: bool)
    ensures
        block == block_tag(tag@),
{
    let t = chars_of(tag);
    spells(&t, "p")
        || spells(&t, "li")
        || spells(&t, "blockquote")
        || spells(&t, "pre")
        || spells(&t, "code")
        || spells(&t, "h1")
        || spells(&t, "h2")
        || spells(&t, "h3")
        || spells(&t, "h4")
        || spells(&t, "h5")
        || spells(&t, "h6")
}

/// Whether an `id` or `class` value hints at page chrome.
pub fn looks_like_chrome(s: &str) -> (chrome: bool)
    ensures
        chrome == chrome_like(s@),
{
    let low = lowercase(&chars_of(s));
    contains_word(&low, "nav")
        || contains_word(&low, "navbar")
        || contains_word(&low, "menu")
        || contains_word(&low, "footer")
        || contains_word(&low, "header")
        || contains_word(&low, "sidebar")
        || contains_word(&low, "breadcrumb")
        || contains_word(&low, "breadcrumbs")
        || contains_word(&low, "cookie")
        || contains_word(&low, "consent")
        || contains_word(&low, "subscribe")
        || contains_word(&low, "newsletter")
}

/// Whether a character separates words.
pub fn is_blank_char(c: char) -> (blank: bool)
    ensures
        blank == is_blank(c),
{
    c == ' ' || c.is_whitespace()
}

/// The normal form of the text that the chunks make up when read one after
/// the other: every run of blanks, also one that spans two chunks, becomes
/// one space, and blanks at either end are dropped.
pub fn normalize_text(chunks: &Vec<String>) -> (text: String)
    ensures
        text@ == normalized(run_together(texts_of(chunks@), chunks.len() as int)),
{
    let ghost all = texts_of(chunks@);
    let mut out = String::new();
    let mut in_word = false;
    let mut started = false;
    let mut i: usize = 0;
    while i < chunks.len()
        invariant
            i <= chunks.len(),
            all == texts_of(chunks@),
            out@ == normalized(run_together(all, i as int)),
            started == (out@.len() > 0),
            in_word == (run_together(all, i as int).len() > 0 && !is_blank(
                run_together(all, i as int).last(),
            )),
        decreases chunks.len() - i,
    {
        let ghost base = run_together(all, i as int);
        let chunk = chunks[i].as_str();
        assert(chunk@ == all[i as int]);
        for c in it: chunk.chars()
            invariant
                it.seq() == chunk@,
                out@ == normalized(base + chunk@.take(it.index())),
                started == (out@.len() > 0),
                in_word == ((base + chunk@.take(it.index())).len() > 0 && !is_blank(
                    (base + chunk@.take(it.index())).last(),
                )),
        {
            let ghost seen = base + chunk@.take(it.index());
            let ghost more = base + chunk@.take(it.index() + 1);
            proof {
                assert(more == seen.push(c));
                assert(more.drop_last() == seen);
                lemma_words_are_filled(seen);
                lemma_joined_is_filled(words(seen));
                if !is_blank(c) {
                    if in_word {
                        lemma_joined_grows(words(seen), c);
                    } else {
                        lemma_joined_gains_word(words(seen), c);
                    }
                }
            }
            if is_blank_char(c) {
                in_word = false;
            } else {
                if !in_word && started {
                    out.push(' ');
                }
                out.push(c);
                in_word = true;
                started = true;
            }
        }
        proof {
            assert(chunk@.take(chunk@.len() as int) == chunk@);
            assert(run_together(all, i + 1) == base + chunk@);
        }
        i += 1;
    }
    out
}

/// The selector group that picks the candidates of a page.
pub const BLOCK_SELECTOR: &'static str = "p,li,blockquote,pre,code,h1,h2,h3,h4,h5,h6";

/// The tags of the landmarks that hold page chrome: navigation, page
/// header, page footer and complementary content.
pub open spec fn landmark_tag(tag: Seq<char>) -> bool {
    tag == "nav"@ || tag == "header"@ || tag == "footer"@ || tag == "aside"@
}

/// An element marks what it encloses as page chrome when it is a landmark,
/// has the role of navigation, is hidden from assistive technology, or has
/// an `id` or a `class` that hints at chrome.
pub open spec fn chrome_element(e: ElementView) -> bool {
    ||| landmark_tag(e.tag)
    ||| e.role matches Some(role) && same_ignoring_ascii_case(role, "navigation"@)
    ||| e.aria_hidden matches Some(hidden) && same_ignoring_ascii_case(hidden, "true"@)
    ||| e.id matches Some(id) && chrome_like(id)
    ||| e.class matches Some(class) && chrome_like(class)
}

/// A block is boilerplate when one of the elements that enclose it marks
/// it as page chrome.
pub open spec fn boilerplate(b: TextBlockView) -> bool {
    exists|i: int| 0 <= i < b.ancestors.len() && chrome_element(#[trigger] b.ancestors[i])
}

/// A block is nested when one of the elements that enclose it is itself a
/// candidate.
pub open spec fn nested(b: TextBlockView) -> bool {
    exists|i: int| 0 <= i < b.ancestors.len() && block_tag(#[trigger] b.ancestors[i].tag)
}

/// The normal form of the text of a block.
pub open spec fn block_text(b: TextBlockView) -> Seq<char> {
    normalized(run_together(b.chunks, b.chunks.len() as int))
}

/// A block carries content when it is neither boilerplate nor nested and
/// its text is not empty.
pub open spec fn is_content(b: TextBlockView) -> bool {
    !boilerplate(b) && !nested(b) && block_text(b).len() > 0
}

/// The texts that a page yields: the text of every block that carries
/// content, in the order of the blocks, each text where it first occurs.
pub open spec fn kept_texts(blocks: Seq<TextBlockView>) -> Seq<Seq<char>>
    decreases blocks.len(),
{
    if blocks.len() == 0 {
        Seq::empty()
    } else {
        let before = kept_texts(blocks.drop_last());
        let text = block_text(blocks.last());
        if is_content(blocks.last()) && !before.contains(text) {
            before.push(text)
        } else {
            before
        }
    }
}

/// The documents that a page yields: one for each kept text, under the
/// address of the page.
pub open spec fn documents(url: Seq<char>, blocks: Seq<TextBlockView>) -> Seq<WebDocView> {
    Seq::new(
        kept_texts(blocks).len(),
        |i: int| WebDocView { url: url, text: kept_texts(blocks)[i] },
    )
}

/// Whether an element marks what it encloses as page chrome.
pub fn is_chrome_element(e: &Element) -> (chrome: bool)
    ensures
        chrome == chrome_element(e@),
{
    let tag = chars_of(e.tag.as_str());
    if spells(&tag, "nav")
        || spells(&tag, "header")
        || spells(&tag, "footer")
        || spells(&tag, "aside")
    {
        return true;
    }
    if let Some(role) = &e.role {
        if equals_ignoring_ascii_case(role.as_str(), "navigation") {
            return true;
        }
    }
    if let Some(hidden) = &e.aria_hidden {
        if equals_ignoring_ascii_case(hidden.as_str(), "true") {
            return true;
        }
    }
    if let Some(id) = &e.id {
        if looks_like_chrome(id.as_str()) {
            return true;
        }
    }
    if let Some(class) = &e.class {
        if looks_like_chrome(class.as_str()) {
            return true;
        }
    }
    false
}

/// Whether a block lies inside page chrome.
pub fn is_boilerplate(block: &TextBlock) -> (chrome: bool)
    ensures
        chrome == boilerplate(block@),
{
    let mut i: usize = 0;
    while i < block.ancestors.len()
        invariant
            i <= block.ancestors.len(),
            forall|k: int| 0 <= k < i ==> !chrome_element(#[trigger] block@.ancestors[k]),
        decreases block.ancestors.len() - i,
    {
        if is_chrome_element(&block.ancestors[i]) {
            assert(chrome_element(block@.ancestors[i as int]));
            return true;
        }
        i += 1;
    }
    false
}

/// Whether a block lies inside another candidate.
pub fn is_nested_block(block: &TextBlock) -> (inside: bool)
    ensures
        inside == nested(block@),
{
    let mut i: usize = 0;
    while i < block.ancestors.len()
        invariant
            i <= block.ancestors.len(),
            forall|k: int| 0 <= k < i ==> !block_tag(#[trigger] block@.ancestors[k].tag),
        decreases block.ancestors.len() - i,
    {
        if is_block_tag(block.ancestors[i].tag.as_str()) {
            assert(block_tag(block@.ancestors[i as int].tag));
            return true;
        }
        i += 1;
    }
    false
}

/// Whether one of the documents has the text `text`.
fn has_text(docs: &Vec<WebDoc>, text: &String) -> (found: bool)
    ensures
        found == exists|i: int| 0 <= i < docs.len() && (#[trigger] docs[i]).text@ == text@,
{
    let mut i: usize = 0;
    while i < docs.len()
        invariant
            i <= docs.len(),
            forall|k: int| 0 <= k < i ==> (#[trigger] docs[k]).text@ != text@,
        decreases docs.len() - i,
    {
        if docs[i].text == *text {
            return true;
        }
        i += 1;
    }
    false
}

/// Reduces the candidates of one page to its documents: drops boilerplate,
/// nested blocks and blocks without text, normalises the text of the rest
/// and keeps each text where it first occurs, in the order of the blocks.
pub fn extract_from_blocks(url: PageUrl, blocks: &Vec<TextBlock>) -> (docs: Vec<WebDoc>)
    ensures
        docs_of(docs@) == documents(url@, blocks_of(blocks@)),
{
    let ghost all = blocks_of(blocks@);
    let mut docs: Vec<WebDoc> = Vec::new();
    let mut i: usize = 0;
    while i < blocks.len()
        invariant
            i <= blocks.len(),
            all == blocks_of(blocks@),
            docs_of(docs@) == documents(url@, all.take(i as int)),
        decreases blocks.len() - i,
    {
        let block = &blocks[i];
        let ghost before = kept_texts(all.take(i as int));
        proof {
            assert(all.take(i + 1).drop_last() == all.take(i as int));
            assert(all.take(i + 1).last() == block@);
            assert(docs_of(docs@).len() == documents(url@, all.take(i as int)).len());
            assert forall|k: int| 0 <= k < docs.len() implies (#[trigger] docs[k]).text@
                == before[k] by {
                assert(docs_of(docs@)[k] == documents(url@, all.take(i as int))[k]);
            }
        }
        if !is_boilerplate(block) && !is_nested_block(block) {
            let text = normalize_text(&block.chunks);
            if text.as_str().unicode_len() > 0 && !has_text(&docs, &text) {
                proof {
                    assert(!before.contains(text@)) by {
                        if before.contains(text@) {
                            let k = choose|k: int| 0 <= k < before.len() && before[k] == text@;
                            assert(docs[k].text@ == text@);
                        }
                    }
                }
                let ghost earlier = docs@;
                docs.push(WebDoc { url: url.clone(), text });
                proof {
                    assert(docs_of(docs@) =~= documents(url@, all.take(i + 1))) by {
                        assert forall|k: int| 0 <= k < docs.len() implies docs_of(docs@)[k]
                            == documents(url@, all.take(i + 1))[k] by {
                            if k < earlier.len() {
                                assert(docs_of(earlier)[k] == documents(
                                    url@,
                                    all.take(i as int),
                                )[k]);
                            }
                        }
                    }
                }
            } else {
                proof {
                    if text@.len() > 0 {
                        let k = choose|k: int|
                            0 <= k < docs.len() && (#[trigger] docs[k]).text@ == text@;
                        assert(before[k] == text@);
                    }
                    assert(docs_of(docs@) =~= documents(url@, all.take(i + 1)));
                }
            }
        } else {
            proof {
                assert(docs_of(docs@) =~= documents(url@, all.take(i + 1)));
            }
        }
        i += 1;
    }
    proof {
        assert(all.take(blocks.len() as int) == all);
    }
    docs
}

/// Reduces the rendered HTML of one page to its documents, with the
/// candidates picked by `selector`. The candidates are those that the parser
/// and the selector engine find; what becomes of them is what
/// [`extract_from_blocks`] makes of them. The page yields nothing but an
/// error where the selector is not accepted.
pub fn extract_selected(url: PageUrl, html: &str, selector: &str) -> (result: Result<
    Vec<WebDoc>,
    ExtractError,
>)
    ensures
        match selected_blocks(html@, selector@) {
            Some(blocks) => result matches Ok(docs) && docs_of(docs@) == documents(url@, blocks),
            None => result == Err::<Vec<WebDoc>, ExtractError>(ExtractError::SelectorRejected),
        },
{
    match select_blocks(html, selector) {
        Some(blocks) => Ok(extract_from_blocks(url, &blocks)),
        None => Err(ExtractError::SelectorRejected),
    }
}

/// Reduces the rendered HTML of one page to its documents. The candidates
/// are the elements picked by [`BLOCK_SELECTOR`].
pub fn extract_text(url: PageUrl, html: &str) -> (result: Result<Vec<WebDoc>, ExtractError>)
    ensures
        match selected_blocks(html@, BLOCK_SELECTOR@) {
            Some(blocks) => result matches Ok(docs) && docs_of(docs@) == documents(url@, blocks),
            None => result == Err::<Vec<WebDoc>, ExtractError>(ExtractError::SelectorRejected),
        },
{
    extract_selected(url, html, BLOCK_SELECTOR)
}

/// The documents of the first `n` pages, page after page. A page whose
/// candidates cannot be selected yields nothing.
pub open spec fn documents_of_pages(pages: Seq<(PageUrl, String)>, n: int) -> Seq<WebDocView>
    decreases n,
{
    if n <= 0 {
        Seq::empty()
    } else {
        let before = documents_of_pages(pages, n - 1);
        match selected_blocks(pages[n - 1].1@, BLOCK_SELECTOR@) {
            Some(blocks) => before + documents(pages[n - 1].0@, blocks),
            None => before,
        }
    }
}

/// Reduces every page to its documents and hands them out page after page,
/// in the order of the pages. A page that cannot be reduced is left out and
/// does not stand in the way of the others.
pub fn collect_documents(pages: &Vec<(PageUrl, String)>) -> (docs: Vec<WebDoc>)
    ensures
        docs_of(docs@) == documents_of_pages(pages@, pages.len() as int),
{
    let mut docs: Vec<WebDoc> = Vec::new();
    let mut i: usize = 0;
    while i < pages.len()
        invariant
            i <= pages.len(),
            docs_of(docs@) == documents_of_pages(pages@, i as int),
        decreases pages.len() - i,
    {
        let url = pages[i].0.clone();
        if let Ok(mut found) = extract_text(url, pages[i].1.as_str()) {
            let ghost before = docs@;
            let ghost added = found@;
            docs.append(&mut found);
            proof {
                assert(docs@ == before + added);
                assert(docs_of(docs@) =~= docs_of(before) + docs_of(added));
            }
        }
        i += 1;
    }
    docs
}

/// Words as they come out of a text: none is empty and none holds a blank.
pub open spec fn proper_words(ws: Seq<Seq<char>>) -> bool {
    forall|i: int|
        0 <= i < ws.len() ==> (#[trigger] ws[i]).len() > 0 && forall|j: int|
            0 <= j < ws[i].len() ==> !is_blank(#[trigger] ws[i][j])
}

/// The words of a text are proper words.
pub proof fn lemma_words_are_proper(s: Seq<char>)
    ensures
        proper_words(words(s)),
    decreases s.len(),
{
    if s.len() > 0 {
        let found = words(s.drop_last());
        lemma_words_are_proper(s.drop_last());
        lemma_words_are_filled(s.drop_last());
        assert forall|i: int| 0 <= i < words(s).len() implies (#[trigger] words(s)[i]).len() > 0
            && forall|j: int| 0 <= j < words(s)[i].len() ==> !is_blank(#[trigger] words(s)[i][j]) by {
            let before = s.drop_last();
            let extends = !is_blank(s.last()) && before.len() > 0 && !is_blank(before.last());
            if extends && i == found.len() - 1 {
                assert(words(s)[i] == found[i].push(s.last()));
                assert forall|j: int| 0 <= j < words(s)[i].len() implies !is_blank(
                    #[trigger] words(s)[i][j],
                ) by {
                    if j < found[i].len() {
                        assert(words(s)[i][j] == found[i][j]);
                    }
                }
            } else if i < found.len() {
                assert(words(s)[i] == found[i]);
            } else {
                assert(words(s)[i] == seq![s.last()]);
            }
        }
    }
}

/// A word that follows a blank, or stands at the start, is one more word
/// of the text.
proof fn lemma_words_gain_word(s: Seq<char>, w: Seq<char>)
    requires
        s.len() == 0 || is_blank(s.last()),
        w.len() > 0,
        forall|j: int| 0 <= j < w.len() ==> !is_blank(#[trigger] w[j]),
    ensures
        words(s + w) == words(s).push(w),
    decreases w.len(),
{
    let c = w.last();
    let whole = s + w;
    assert(whole.drop_last() == s + w.drop_last());
    assert(whole.last() == c);
    if w.len() == 1 {
        assert(s + w.drop_last() == s);
        assert(w == seq![c]);
    } else {
        let shorter = w.drop_last();
        assert forall|j: int| 0 <= j < shorter.len() implies !is_blank(#[trigger] shorter[j]) by {
            assert(shorter[j] == w[j]);
        }
        lemma_words_gain_word(s, shorter);
        assert((s + shorter).last() == shorter.last());
        assert(shorter.last() == w[w.len() - 2]);
        assert(words(s).push(shorter).drop_last() == words(s));
        assert(shorter.push(c) == w);
    }
}

/// The shape of joined words. The text starts and ends with a character
/// that is not blank; its only blanks are single spaces, with no two in a
/// row; and its words are the words that were joined.
pub proof fn lemma_joined_shape(ws: Seq<Seq<char>>)
    requires
        proper_words(ws),
    ensures
        words(joined(ws)) == ws,
        joined(ws).len() > 0 ==> !is_blank(joined(ws).first()) && !is_blank(joined(ws).last()),
        forall|i: int|
            0 <= i < joined(ws).len() && is_blank(#[trigger] joined(ws)[i]) ==> joined(ws)[i]
                == ' ',
        forall|i: int|
            0 <= i < joined(ws).len() - 1 ==> !(is_blank(#[trigger] joined(ws)[i]) && is_blank(
                joined(ws)[i + 1],
            )),
    decreases ws.len(),
{
    let text = joined(ws);
    if ws.len() == 0 {
    } else if ws.len() == 1 {
        let w = ws[0];
        assert(Seq::<char>::empty() + w == w);
        lemma_words_gain_word(Seq::empty(), w);
        assert(words(Seq::<char>::empty()).push(w) == ws);
        assert(text.first() == w[0]);
        assert(text.last() == w[w.len() - 1]);
    } else {
        let front = ws.drop_last();
        let w = ws.last();
        assert forall|i: int| 0 <= i < front.len() implies (#[trigger] front[i]).len() > 0
            && forall|j: int| 0 <= j < front[i].len() ==> !is_blank(#[trigger] front[i][j]) by {
            assert(front[i] == ws[i]);
        }
        lemma_joined_shape(front);
        lemma_joined_is_filled(front);
        let head = joined(front);
        let spaced = head.push(' ');
        assert(text == spaced + w);
        assert(spaced.drop_last() == head);
        assert(words(spaced) == words(head));
        lemma_words_gain_word(spaced, w);
        assert(front.push(w) == ws);
        assert(text.first() == head.first());
        assert(text.last() == w[w.len() - 1]);
        assert forall|i: int| 0 <= i < text.len() && is_blank(#[trigger] text[i]) implies text[i]
            == ' ' by {
            if i < head.len() {
                assert(text[i] == head[i]);
            } else if i > head.len() {
                assert(text[i] == w[i - head.len() - 1]);
            }
        }
        assert forall|i: int| 0 <= i < text.len() - 1 implies !(is_blank(#[trigger] text[i])
            && is_blank(text[i + 1])) by {
            if i + 1 < head.len() {
                assert(text[i] == head[i]);
                assert(text[i + 1] == head[i + 1]);
            } else if i + 1 == head.len() {
                assert(text[i] == head.last());
            } else {
                assert(text[i + 1] == w[i - head.len()]);
            }
        }
    }
}

/// The normal form of a text consists of its words, separated by single
/// spaces, with no blank at either end: it has the same words as the text,
/// its only blanks are single spaces between two words, and normalising it
/// again changes nothing.
pub proof fn lemma_normalized_shape(s: Seq<char>)
    ensures
        words(normalized(s)) == words(s),
        normalized(normalized(s)) == normalized(s),
        normalized(s).len() > 0 ==> !is_blank(normalized(s).first()) && !is_blank(
            normalized(s).last(),
        ),
        forall|i: int|
            0 <= i < normalized(s).len() && is_blank(#[trigger] normalized(s)[i]) ==> normalized(
                s,
            )[i] == ' ',
        forall|i: int|
            0 <= i < normalized(s).len() - 1 ==> !(is_blank(#[trigger] normalized(s)[i])
                && is_blank(normalized(s)[i + 1])),
{
    lemma_words_are_proper(s);
    lemma_joined_shape(words(s));
}

/// What a page yields. No kept text is empty, no two are the same, each is
/// the text of a block that carries content, and the text of every such
/// block is among them.
pub proof fn lemma_kept_texts(blocks: Seq<TextBlockView>)
    ensures
        kept_texts(blocks).no_duplicates(),
        forall|i: int| 0 <= i < kept_texts(blocks).len() ==> (#[trigger] kept_texts(blocks)[i]).len() > 0,
        forall|i: int|
            0 <= i < kept_texts(blocks).len() ==> exists|k: int|
                0 <= k < blocks.len() && is_content(blocks[k]) && block_text(blocks[k])
                    == #[trigger] kept_texts(blocks)[i],
        forall|k: int|
            0 <= k < blocks.len() && is_content(#[trigger] blocks[k]) ==> kept_texts(
                blocks,
            ).contains(block_text(blocks[k])),
    decreases blocks.len(),
{
    if blocks.len() > 0 {
        let front = blocks.drop_last();
        let before = kept_texts(front);
        let kept = kept_texts(blocks);
        let text = block_text(blocks.last());
        lemma_kept_texts(front);
        assert forall|i: int| 0 <= i < kept.len() implies exists|k: int|
            0 <= k < blocks.len() && is_content(blocks[k]) && block_text(blocks[k])
                == #[trigger] kept[i] by {
            if i < before.len() {
                assert(kept[i] == before[i]);
                let k = choose|k: int|
                    0 <= k < front.len() && is_content(front[k]) && block_text(front[k])
                        == before[i];
                assert(front[k] == blocks[k]);
            } else {
                assert(kept[i] == block_text(blocks[blocks.len() - 1]));
            }
        }
        assert forall|k: int| 0 <= k < blocks.len() && is_content(
            #[trigger] blocks[k],
        ) implies kept.contains(block_text(blocks[k])) by {
            if k < front.len() {
                assert(front[k] == blocks[k]);
                let i = choose|i: int| 0 <= i < before.len() && before[i] == block_text(front[k]);
                assert(kept[i] == before[i]);
            } else if before.contains(text) {
                let i = choose|i: int| 0 <= i < before.len() && before[i] == text;
                assert(kept[i] == before[i]);
            } else {
                assert(kept[before.len() as int] == text);
            }
        }
    }
}

/// The documents of a page all carry its address, none has an empty text,
/// and no two have the same text.
pub proof fn lemma_documents_are_distinct(url: Seq<char>, blocks: Seq<TextBlockView>)
    ensures
        forall|i: int|
            0 <= i < documents(url, blocks).len() ==> (#[trigger] documents(url, blocks)[i]).url
                == url && documents(url, blocks)[i].text.len() > 0,
        forall|i: int, j: int|
            0 <= i < j < documents(url, blocks).len() ==> (#[trigger] documents(
                url,
                blocks,
            )[i]).text != (#[trigger] documents(url, blocks)[j]).text,
{
    lemma_kept_texts(blocks);
}

} // verus!
