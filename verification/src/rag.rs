//! The documents handed to the ranking stage, and what it answers.

use vstd::prelude::*;
use crate::address::PageUrl;
use crate::text::{append_text, decimal, decimal_text};

verus! {

/// A block of readable text together with the page it was found on.
#[derive(Clone, Debug, PartialEq, Eq)]
pub struct WebDoc {
    pub url: PageUrl,
    pub text: String,
}

/// What a document holds: the address of its page and its text.
pub struct WebDocView {
    pub url: Seq<char>,
    pub text: Seq<char>,
}

impl View for WebDoc {
    type V = WebDocView;

    open spec fn view(&self) -> WebDocView {
        WebDocView { url: self.url@, text: self.text@ }
    }
}

/// One answer of the ranking model: a document, how relevant it is to the
/// query in percent, and why.
#[derive(Clone, Debug)]
pub struct SearchResult {
    pub document_id: String,
    pub relevance: u64,
    pub reason: String,
}

impl SearchResult {
    /// The answer in one line: the document, then its relevance in
    /// percent.
    pub open spec fn line(&self) -> Seq<char> {
        self.document_id@ + ": "@ + decimal(self.relevance as nat) + "%"@
    }

    /// The answer in one line, such as `doc-7: 85%`.
    pub fn to_text(&self) -> (out: String)
        ensures
            out@ == self.line(),
    {
        let mut out = self.document_id.clone();
        append_text(&mut out, ": ");
        append_text(&mut out, decimal_text(self.relevance).as_str());
        append_text(&mut out, "%");
        out
    }
}

/// In the order of results, the document at index `a` comes before the one
/// at index `b`: it is more relevant, or as relevant and later in the input.
pub open spec fn ranks_before(keys: Seq<u64>, a: int, b: int) -> bool {
    keys[a] > keys[b] || (keys[a] == keys[b] && a > b)
}

/// The order in which results are presented: the indices of `keys` from
/// the most relevant to the least, where `keys[i]` is the relevance of the
/// result at index `i`. Among results of the same relevance the later one
/// comes first.
pub fn relevance_order(keys: &Vec<u64>) -> (order: Vec<usize>)
    ensures
        order.len() == keys.len(),
        forall|k: int| 0 <= k < order.len() ==> #[trigger] order[k] < keys.len(),
        forall|a: int, b: int|
            0 <= a < b < order.len() ==> ranks_before(
                keys@,
                #[trigger] order[a] as int,
                #[trigger] order[b] as int,
            ),
{
    let mut order: Vec<usize> = Vec::new();
    let mut i: usize = 0;
    while i < keys.len()
        invariant
            i <= keys.len(),
            order.len() == i,
            forall|k: int| 0 <= k < order.len() ==> #[trigger] order[k] < i,
            forall|a: int, b: int|
                0 <= a < b < order.len() ==> ranks_before(
                    keys@,
                    #[trigger] order[a] as int,
                    #[trigger] order[b] as int,
                ),
        decreases keys.len() - i,
    {
        let mut p: usize = 0;
        while p < order.len() && keys[order[p]] > keys[i]
            invariant
                p <= order.len(),
                order.len() == i,
                i < keys.len(),
                forall|k: int| 0 <= k < order.len() ==> #[trigger] order[k] < i,
                forall|k: int| 0 <= k < p ==> keys[#[trigger] order[k] as int] > keys[i as int],
            decreases order.len() - p,
        {
            p += 1;
        }
        order.insert(p, i);
        proof {
            assert forall|a: int, b: int| 0 <= a < b < order.len() implies ranks_before(
                keys@,
                #[trigger] order[a] as int,
                #[trigger] order[b] as int,
            ) by {}
            assert forall|k: int| 0 <= k < order.len() implies #[trigger] order[k] < i + 1 by {}
        }
        i += 1;
    }
    order
}

/// The order of results holds every index once.
pub proof fn lemma_order_is_permutation(keys: Seq<u64>, order: Seq<usize>)
    requires
        forall|a: int, b: int|
            0 <= a < b < order.len() ==> ranks_before(
                keys,
                #[trigger] order[a] as int,
                #[trigger] order[b] as int,
            ),
    ensures
        order.no_duplicates(),
        forall|a: int, b: int|
            0 <= a < b < order.len() ==> keys[#[trigger] order[a] as int] >= keys[#[trigger] order[b] as int],
{
}

} // verus!
