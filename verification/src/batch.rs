//! Retrieval of a set of pages with bounded concurrency. The batch decides
//! which page is started next and keeps the account of what has come back;
//! a driver runs the operations it starts and reports each outcome.

use vstd::prelude::*;
use crate::address::PageUrl;
use crate::fetch::{FailureKind, FetchOutcome};

verus! {

/// The number of operations allowed at the same time, unless the caller
/// chooses another.
pub const DEFAULT_CONCURRENCY: usize = 32;

/// The counts of a batch, for observation only.
#[derive(Clone, Copy, Debug, PartialEq, Eq, Structural)]
pub struct BatchStats {
    /// Operations that have been started.
    pub attempted: usize,
    /// Operations that have delivered a page.
    pub succeeded: usize,
    /// Operations that have ended in a failure of any kind.
    pub failed: usize,
    /// Among the failed, those that ran out of time.
    pub timed_out: usize,
}

/// A batch of page retrievals.
#[derive(Debug)]
pub struct FetchBatch {
    /// The pages to retrieve, in the order in which they are started.
    pub urls: Vec<PageUrl>,
    /// The number of operations allowed at the same time.
    pub width: usize,
    /// The number of pages started so far: those before this index.
    pub started: usize,
    /// The indices of the pages whose operation is under way.
    pub active: Vec<usize>,
    /// The indices of the pages whose operation has ended, in the order in
    /// which they ended.
    pub finished: Vec<usize>,
    /// The outcomes, in the order in which they came in, each with the
    /// address of its page.
    pub results: Vec<(PageUrl, FetchOutcome)>,
}

/// How many of the first `n` results deliver a page.
pub open spec fn successes_among(results: Seq<(PageUrl, FetchOutcome)>, n: int) -> nat
    decreases n,
{
    if n <= 0 {
        0
    } else if results[n - 1].1 is Success {
        successes_among(results, n - 1) + 1
    } else {
        successes_among(results, n - 1)
    }
}

/// Whether an outcome reports that the operation ran out of time.
pub open spec fn is_timeout(outcome: FetchOutcome) -> bool {
    outcome matches FetchOutcome::Failure(kind, _) && kind == FailureKind::OperationTimeout
}

/// How many of the first `n` results report that the operation ran out of
/// time.
pub open spec fn timeouts_among(results: Seq<(PageUrl, FetchOutcome)>, n: int) -> nat
    decreases n,
{
    if n <= 0 {
        0
    } else if is_timeout(results[n - 1].1) {
        timeouts_among(results, n - 1) + 1
    } else {
        timeouts_among(results, n - 1)
    }
}

/// The pages that were delivered, with their addresses, in the order of
/// the first `n` results.
pub open spec fn pages_among(results: Seq<(PageUrl, FetchOutcome)>, n: int) -> Seq<
    (PageUrl, String),
>
    decreases n,
{
    if n <= 0 {
        Seq::empty()
    } else {
        match results[n - 1].1 {
            FetchOutcome::Success(html) => pages_among(results, n - 1).push(
                (results[n - 1].0, html),
            ),
            FetchOutcome::Failure(_, _) => pages_among(results, n - 1),
        }
    }
}

impl FetchBatch {
    /// The invariant of a batch. No more operations are under way than the
    /// width allows. Every page started is either under way or finished, and
    /// none is both or counted twice. Each result belongs to the page that
    /// finished at its place.
    pub open spec fn wf(&self) -> bool {
        &&& self.width > 0
        &&& self.started <= self.urls.len()
        &&& self.active.len() <= self.width
        &&& self.active.len() + self.finished.len() == self.started
        &&& self.results.len() == self.finished.len()
        &&& self.active@.no_duplicates()
        &&& self.finished@.no_duplicates()
        &&& forall|k: int| 0 <= k < self.active.len() ==> #[trigger] self.active[k] < self.started
        &&& forall|k: int|
            0 <= k < self.finished.len() ==> #[trigger] self.finished[k] < self.started
        &&& forall|k: int|
            0 <= k < self.active.len() ==> !self.finished@.contains(#[trigger] self.active[k])
        &&& forall|i: usize|
            i < self.started ==> #[trigger] self.active@.contains(i) || self.finished@.contains(i)
        &&& forall|k: int|
            0 <= k < self.results.len() ==> (#[trigger] self.results[k]).0
                == self.urls[self.finished[k] as int]
    }

    /// Every page has been started and none is under way.
    pub open spec fn done(&self) -> bool {
        self.started == self.urls.len() && self.active.len() == 0
    }

    /// A batch over `urls`, with nothing started, that allows `width`
    /// operations at the same time.
    pub fn new(urls: Vec<PageUrl>, width: usize) -> (batch: FetchBatch)
        requires
            width > 0,
        ensures
            batch.wf(),
            batch.urls == urls,
            batch.width == width,
            batch.started == 0,
            batch.active@.len() == 0,
            batch.finished@.len() == 0,
            batch.results@.len() == 0,
    {
        FetchBatch {
            urls,
            width,
            started: 0,
            active: Vec::new(),
            finished: Vec::new(),
            results: Vec::new(),
        }
    }

    /// The number of operations under way.
    pub fn in_flight(&self) -> (n: usize)
        ensures
            n == self.active.len(),
    {
        self.active.len()
    }

    /// Whether every page has been started and none is under way.
    pub fn is_done(&self) -> (done: bool)
        ensures
            done == self.done(),
    {
        self.started == self.urls.len() && self.active.len() == 0
    }

    /// Starts the next page, if there is one and a place is free: the page
    /// that comes next in the order of `urls`. Its index is returned and
    /// counts as under way from now on. Nothing changes where no place is
    /// free or no page is left.
    pub fn start_next(&mut self) -> (next: Option<usize>)
        requires
            old(self).wf(),
        ensures
            final(self).wf(),
            final(self).urls == old(self).urls,
            final(self).width == old(self).width,
            final(self).finished == old(self).finished,
            final(self).results == old(self).results,
            old(self).active.len() < old(self).width && old(self).started < old(self).urls.len()
                ==> {
                &&& next == Some(old(self).started)
                &&& final(self).started == old(self).started + 1
                &&& final(self).active@ == old(self).active@.push(old(self).started)
            },
            !(old(self).active.len() < old(self).width && old(self).started < old(
                self,
            ).urls.len()) ==> {
                &&& next is None
                &&& final(self).started == old(self).started
                &&& final(self).active == old(self).active
            },
    {
        if self.active.len() < self.width && self.started < self.urls.len() {
            let index = self.started;
            self.active.push(index);
            self.started = index + 1;
            proof {
                let before = old(self).active@;
                assert forall|i: usize| i < self.started implies #[trigger] self.active@.contains(
                    i,
                ) || self.finished@.contains(i) by {
                    if i == index {
                        assert(self.active@[before.len() as int] == index);
                    } else if before.contains(i) {
                        let k = choose|k: int| 0 <= k < before.len() && before[k] == i;
                        assert(self.active@[k] == i);
                    }
                }
            }
            Some(index)
        } else {
            None
        }
    }

    /// The place of `index` among the operations under way.
    fn place_of(&self, index: usize) -> (place: Option<usize>)
        ensures
            match place {
                Some(p) => p < self.active.len() && self.active[p as int] == index,
                None => !self.active@.contains(index),
            },
    {
        let mut p: usize = 0;
        while p < self.active.len()
            invariant
                p <= self.active.len(),
                forall|k: int| 0 <= k < p ==> self.active[k] != index,
            decreases self.active.len() - p,
        {
            if self.active[p] == index {
                return Some(p);
            }
            p += 1;
        }
        None
    }

    /// Records the outcome of the operation for the page at `index`. The
    /// outcome is accepted when that operation is under way: the page then
    /// counts as finished, its place is free, and the outcome is the last
    /// of the results. An outcome for any other index changes nothing.
    pub fn complete(&mut self, index: usize, outcome: FetchOutcome) -> (accepted: bool)
        requires
            old(self).wf(),
        ensures
            final(self).wf(),
            accepted == old(self).active@.contains(index),
            final(self).urls == old(self).urls,
            final(self).width == old(self).width,
            final(self).started == old(self).started,
            accepted ==> {
                &&& final(self).active@ == old(self).active@.remove(
                    old(self).active@.index_of(index),
                )
                &&& final(self).finished@ == old(self).finished@.push(index)
                &&& final(self).results@ == old(self).results@.push(
                    (old(self).urls[index as int], outcome),
                )
            },
            !accepted ==> {
                &&& final(self).active == old(self).active
                &&& final(self).finished == old(self).finished
                &&& final(self).results == old(self).results
            },
    {
        match self.place_of(index) {
            None => false,
            Some(p) => {
                let ghost before = self.active@;
                let ghost ended = self.finished@;
                self.active.remove(p);
                self.finished.push(index);
                let url = self.urls[index].clone();
                self.results.push((url, outcome));
                proof {
                    let after = self.active@;
                    assert forall|k: int| 0 <= k < after.len() implies #[trigger] after[k]
                        == before[if k < p {
                        k
                    } else {
                        k + 1
                    }] by {}
                    assert(!after.contains(index)) by {
                        if after.contains(index) {
                            let k = choose|k: int| 0 <= k < after.len() && after[k] == index;
                            assert(before[if k < p {
                                k
                            } else {
                                k + 1
                            }] == index);
                        }
                    }
                    assert forall|k: int| 0 <= k < after.len() implies !self.finished@.contains(
                        #[trigger] after[k],
                    ) by {}
                    assert forall|i: usize| i < self.started implies #[trigger] after.contains(i)
                        || self.finished@.contains(i) by {
                        if i == index {
                            assert(self.finished@[ended.len() as int] == index);
                        } else if before.contains(i) {
                            let k = choose|k: int| 0 <= k < before.len() && before[k] == i;
                            if k < p {
                                assert(after[k] == i);
                            } else {
                                assert(after[k - 1] == i);
                            }
                        } else {
                            let k = choose|k: int| 0 <= k < ended.len() && ended[k] == i;
                            assert(self.finished@[k] == i);
                        }
                    }
                }
                true
            },
        }
    }

    /// The counts of the batch as it stands.
    pub fn stats(&self) -> (stats: BatchStats)
        requires
            self.wf(),
        ensures
            stats.attempted == self.started,
            stats.succeeded == successes_among(self.results@, self.results.len() as int),
            stats.timed_out == timeouts_among(self.results@, self.results.len() as int),
            stats.succeeded + stats.failed == self.results.len(),
    {
        let mut succeeded: usize = 0;
        let mut timed_out: usize = 0;
        let mut k: usize = 0;
        while k < self.results.len()
            invariant
                k <= self.results.len(),
                succeeded == successes_among(self.results@, k as int),
                timed_out == timeouts_among(self.results@, k as int),
                succeeded + timed_out <= k,
            decreases self.results.len() - k,
        {
            match &self.results[k].1 {
                FetchOutcome::Success(_) => {
                    succeeded += 1;
                },
                FetchOutcome::Failure(kind, _) => {
                    if *kind == FailureKind::OperationTimeout {
                        timed_out += 1;
                    }
                },
            }
            k += 1;
        }
        BatchStats {
            attempted: self.started,
            succeeded,
            failed: self.results.len() - succeeded,
            timed_out,
        }
    }

    /// The results of the batch, in the order in which they came in.
    pub fn into_outcomes(self) -> (results: Vec<(PageUrl, FetchOutcome)>)
        ensures
            results == self.results,
    {
        self.results
    }
}

/// The pages that were delivered, with their addresses, in the order of
/// the results. Failures are left out.
pub fn successful_pages(results: Vec<(PageUrl, FetchOutcome)>) -> (pages: Vec<(PageUrl, String)>)
    ensures
        pages@ == pages_among(results@, results.len() as int),
{
    let ghost all = results@;
    let mut results = results;
    let mut reversed: Vec<(PageUrl, String)> = Vec::new();
    while results.len() > 0
        invariant
            results.len() <= all.len(),
            results@ == all.take(results.len() as int),
            pages_among(all, all.len() as int) == pages_among(all, results.len() as int)
                + reversed@.reverse(),
        decreases results.len(),
    {
        let ghost n = results.len() as int;
        let ghost tail = reversed@.reverse();
        let last = results.pop();
        if let Some((url, outcome)) = last {
            if let FetchOutcome::Success(html) = outcome {
                reversed.push((url, html));
                proof {
                    assert(pages_among(all, n - 1).push((url, html)) + tail == pages_among(
                        all,
                        n - 1,
                    ) + (seq![(url, html)] + tail));
                }
            }
        }
    }
    let mut pages: Vec<(PageUrl, String)> = Vec::new();
    while reversed.len() > 0
        invariant
            pages_among(all, all.len() as int) == pages@ + reversed@.reverse(),
        decreases reversed.len(),
    {
        let last = reversed.pop();
        if let Some(page) = last {
            pages.push(page);
            proof {
                assert(pages@ + reversed@.reverse() == pages@.drop_last() + (seq![page]
                    + reversed@.reverse()));
            }
        }
    }
    pages
}

/// At no moment are more operations under way than the width of the batch
/// allows, and as long as a place is free and a page is left, the next page
/// can be started.
pub proof fn lemma_bounded_concurrency(batch: FetchBatch)
    requires
        batch.wf(),
    ensures
        batch.active.len() <= batch.width,
        batch.active.len() <= batch.started,
        batch.started <= batch.urls.len(),
{
}

/// When a batch is done there is exactly one result for each page: as many
/// results as pages, every page among the finished, none of them twice, and
/// each result under the address of its page.
pub proof fn lemma_one_outcome_per_page(batch: FetchBatch)
    requires
        batch.wf(),
        batch.done(),
    ensures
        batch.results.len() == batch.urls.len(),
        batch.finished@.no_duplicates(),
        forall|i: usize| i < batch.urls.len() ==> batch.finished@.contains(i),
        forall|k: int|
            0 <= k < batch.results.len() ==> (#[trigger] batch.results[k]).0
                == batch.urls[batch.finished[k] as int],
{
    assert forall|i: usize| i < batch.urls.len() implies batch.finished@.contains(i) by {
        assert(batch.active@.contains(i) || batch.finished@.contains(i));
    }
}

} // verus!
