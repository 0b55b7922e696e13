//! Page addresses: absolute URLs in the normal form that the `url` crate
//! gives them. Two addresses are the same address when their normal forms
//! are the same text.

use vstd::prelude::*;

verus! {

/// The normal form that `url::Url::parse` gives `input`, where it accepts
/// it as an absolute URL.
pub uninterp spec fn parsed_url(input: Seq<char>) -> Option<Seq<char>>;

/// `url::Url::parse`, followed by the conversion of the URL into its
/// serialization. The result is that of the parser: the normal form where it
/// accepts the text, nothing where it does not.
#[verifier::external_body]
fn parse_absolute(input: &str) -> (href: Option<String>)
    ensures
        match href {
            Some(text) => parsed_url(input@) == Some(text@),
            None => parsed_url(input@) is None,
        },
{
    url::Url::parse(input).ok().map(String::from)
}

/// The address of a page.
#[derive(Debug, PartialEq, Eq)]
pub struct PageUrl {
    href: String,
}

impl View for PageUrl {
    type V = Seq<char>;

    closed spec fn view(&self) -> Seq<char> {
        self.href@
    }
}

impl Clone for PageUrl {
    fn clone(&self) -> (copy: Self)
        ensures
            copy == *self,
    {
        PageUrl { href: self.href.clone() }
    }
}

impl PageUrl {
    /// An address is well formed when it is the normal form of some text.
    pub open spec fn wf(&self) -> bool {
        exists|input: Seq<char>| parsed_url(input) == Some(self@)
    }

    /// Reads an absolute URL. The address is the normal form of the text;
    /// there is none where the text is no absolute URL.
    pub fn parse(input: &str) -> (url: Option<PageUrl>)
        ensures
            match url {
                Some(u) => parsed_url(input@) == Some(u@) && u.wf(),
                None => parsed_url(input@) is None,
            },
    {
        match parse_absolute(input) {
            Some(href) => Some(PageUrl { href }),
            None => None,
        }
    }

    /// The address as text.
    pub fn as_str(&self) -> (text: &str)
        ensures
            text@ == self@,
    {
        self.href.as_str()
    }

    /// Whether two addresses are the same address.
    pub fn same_as(&self, other: &PageUrl) -> (same: bool)
        ensures
            same == (self@ == other@),
    {
        self.href == other.href
    }
}

} // verus!
