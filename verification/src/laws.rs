//! The laws of the crawl: what holds of every state that the transitions
//! reach, and why.

use vstd::prelude::*;
use crate::links::{document_hrefs, lemma_document_hrefs_non_empty, non_empty};
use crate::records::{
    is_success_code, FetchOutcomeView, FetchRecordView, FetchStatusView, VisitRecordView,
};
use crate::seqs::{fresh, lemma_filter_split, lemma_fresh_members};
use crate::state::{fetch_urls, resolved_all, successful_rows, visit_urls, CrawlState};
use crate::url::{in_site, Membership};

verus! {

impl CrawlState {
    /// A crawl starts in a valid state.
    pub proof fn lemma_init_valid(
        start: Seq<char>,
        base: Seq<char>,
        budget: nat,
        batch_size: nat,
        timeout_secs: nat,
    )
        ensures
            CrawlState::init(start, base, budget, batch_size, timeout_secs).valid(),
    {
        reveal(Seq::filter);
        let state = CrawlState::init(start, base, budget, batch_size, timeout_secs);
        assert(visit_urls(state.visits) =~= fetch_urls(successful_rows(state.fetched)));
        assert forall|url: Seq<char>| #[trigger] state.visited().contains(url) implies state.may_fetch(
            url,
        ) by {
            assert(!state.fetched_urls().contains(url));
            assert(!state.pending.contains(url));
        }
    }

    /// Starting a batch keeps the state valid.
    pub proof fn lemma_dispatched_valid(self)
        requires
            self.valid(),
        ensures
            self.dispatched().valid(),
    {
        if !(self.is_waiting() || self.is_finished()) {
            let next = self.dispatched();
            let count = self.batch_len() as int;
            let batch = self.frontier.take(count);
            lemma_fresh_members(batch, self.visited());
            assert forall|url: Seq<char>| next.pending.contains(url) implies self.may_fetch(url)
                && !self.visited().contains(url) by {
                let i = choose|i: int| 0 <= i < batch.len() && batch[i] == url;
                assert(self.frontier[i] == url);
            }
            assert forall|i: int, j: int|
                0 <= i < next.fetched_urls().len() && 0 <= j < next.pending.len() implies next.fetched_urls()[i]
                != next.pending[j] by {
                assert(next.pending.contains(next.pending[j]));
                assert(self.fetched_urls().contains(self.fetched_urls()[i]));
            }
            assert forall|url: Seq<char>| #[trigger] next.visited().contains(url) implies next.may_fetch(
                url,
            ) by {
                if self.fetched_urls().contains(url) {
                    assert(self.visited().contains(url));
                }
            }
        }
    }

    /// Closing an attempt moves its URL from the batch in flight to the fetch
    /// log and leaves the visited set as it was.
    pub proof fn lemma_closed_keeps_visited(self, url: Seq<char>, status: FetchStatusView)
        requires
            self.valid(),
            self.pending.contains(url),
        ensures
            self.closed(url, status).visited() == self.visited(),
            self.closed(url, status).total_attempts() == self.total_attempts(),
            self.closed(url, status).pending.len() + 1 == self.pending.len(),
            self.closed(url, status).fetched_urls() == self.fetched_urls().push(url),
            self.closed(url, status).fetched_urls().no_duplicates(),
            self.closed(url, status).pending.no_duplicates(),
            self.closed(url, status).fetched_urls().disjoint(self.closed(url, status).pending),
    {
        let next = self.closed(url, status);
        self.pending.index_of_first_ensures(url);
        let at = self.pending.index_of_first(url).unwrap();
        assert(next.pending == self.pending.remove(at));
        self.pending.remove_ensures(at);
        assert(next.fetched_urls() =~= self.fetched_urls().push(url));
        assert forall|i: int| 0 <= i < next.pending.len() implies next.pending[i] != url
            && self.pending.contains(#[trigger] next.pending[i]) by {
            if i < at {
                assert(next.pending[i] == self.pending[i]);
            } else {
                assert(next.pending[i] == self.pending[i + 1]);
            }
        }
        assert forall|i: int, j: int|
            0 <= i < next.pending.len() && 0 <= j < next.pending.len() && i != j implies next.pending[i]
            != next.pending[j] by {
            let from_i = if i < at {
                i
            } else {
                i + 1
            };
            let from_j = if j < at {
                j
            } else {
                j + 1
            };
            assert(next.pending[i] == self.pending[from_i]);
            assert(next.pending[j] == self.pending[from_j]);
        }
        assert(!self.fetched_urls().contains(url)) by {
            if self.fetched_urls().contains(url) {
                let i = choose|i: int|
                    0 <= i < self.fetched_urls().len() && self.fetched_urls()[i] == url;
                assert(self.fetched_urls()[i] != self.pending[at]);
            }
        }
        assert forall|i: int, j: int|
            0 <= i < next.fetched_urls().len() && 0 <= j < next.fetched_urls().len() && i
                != j implies next.fetched_urls()[i] != next.fetched_urls()[j] by {
            if i < self.fetched_urls().len() {
                assert(self.fetched_urls().contains(self.fetched_urls()[i]));
            }
            if j < self.fetched_urls().len() {
                assert(self.fetched_urls().contains(self.fetched_urls()[j]));
            }
        }
        assert forall|i: int, j: int|
            0 <= i < next.fetched_urls().len() && 0 <= j < next.pending.len() implies next.fetched_urls()[i]
            != next.pending[j] by {
            assert(self.pending.contains(next.pending[j]));
            let k = choose|k: int| 0 <= k < self.pending.len() && self.pending[k] == next.pending[j];
            if i < self.fetched_urls().len() {
                assert(self.fetched_urls()[i] != self.pending[k]);
            }
        }
        assert forall|other: Seq<char>| next.visited().contains(other) == self.visited().contains(
            other,
        ) by {
            if next.fetched_urls().contains(other) {
                let i = choose|i: int|
                    0 <= i < next.fetched_urls().len() && next.fetched_urls()[i] == other;
                if i < self.fetched_urls().len() {
                    assert(self.fetched_urls()[i] == other);
                }
            }
            if self.fetched_urls().contains(other) {
                let i = choose|i: int|
                    0 <= i < self.fetched_urls().len() && self.fetched_urls()[i] == other;
                assert(next.fetched_urls()[i] == other);
            }
            if self.pending.contains(other) && other != url {
                let k = choose|k: int| 0 <= k < self.pending.len() && self.pending[k] == other;
                if k < at {
                    assert(next.pending[k] == other);
                } else {
                    assert(next.pending[k - 1] == other);
                }
            }
            if other == url {
                assert(next.fetched_urls()[self.fetched_urls().len() as int] == url);
            }
        }
        assert(next.visited() =~= self.visited());
    }

    /// A transport failure keeps the state valid.
    pub proof fn lemma_failed_valid(self, url: Seq<char>, message: Seq<char>)
        requires
            self.valid(),
            self.pending.contains(url),
        ensures
            self.failed(url, message).valid(),
    {
        let status = FetchStatusView::TransportError(message);
        self.lemma_closed_keeps_visited(url, status);
        self.fetched.lemma_filter_push(
            FetchRecordView { url, status },
            |row: FetchRecordView| row.status.is_success(),
        );
        assert(successful_rows(self.failed(url, message).fetched) == successful_rows(self.fetched));
    }

    /// Taking in the links of a page keeps the state valid.
    pub proof fn lemma_with_links_valid(self, links: Seq<Seq<char>>)
        requires
            self.valid(),
        ensures
            self.with_links(links).valid(),
    {
        let next = self.with_links(links);
        let found = fresh(links, self.discovered());
        lemma_fresh_members(links, self.discovered());
        assert(next.discovered_urls() =~= self.discovered_urls() + found);
        assert forall|i: int, j: int|
            0 <= i < next.discovered_urls().len() && 0 <= j < next.discovered_urls().len() && i
                != j implies next.discovered_urls()[i] != next.discovered_urls()[j] by {
            let old_len = self.discovered_urls().len();
            if i < old_len && j >= old_len {
                assert(found.contains(found[j - old_len]));
                assert(self.discovered_urls().contains(self.discovered_urls()[i]));
            }
            if j < old_len && i >= old_len {
                assert(found.contains(found[i - old_len]));
                assert(self.discovered_urls().contains(self.discovered_urls()[j]));
            }
        }
        if self.admits_links() {
            let wanted = |url: Seq<char>| in_site(url, self.base) && !self.visited().contains(url);
            assert forall|i: int| 0 <= i < links.filter(wanted).len() implies wanted(
                #[trigger] links.filter(wanted)[i],
            ) by {
                links.lemma_filter_pred(wanted, i);
            }
        }
        assert(next.visited() == self.visited());
    }

    /// A response keeps the state valid.
    pub proof fn lemma_responded_valid(
        self,
        url: Seq<char>,
        status: u16,
        content_type: Option<Seq<char>>,
        size: nat,
        hrefs: Seq<Seq<char>>,
    )
        requires
            self.valid(),
            self.pending.contains(url),
        ensures
            self.responded(url, status, content_type, size, hrefs).valid(),
    {
        let code = FetchStatusView::Code(status);
        let closed = self.closed(url, code);
        self.lemma_closed_keeps_visited(url, code);
        self.fetched.lemma_filter_push(
            FetchRecordView { url, status: code },
            |row: FetchRecordView| row.status.is_success(),
        );
        if !code.is_success() {
            assert(successful_rows(closed.fetched) == successful_rows(self.fetched));
        } else {
            let row = VisitRecordView {
                url,
                size,
                outlinks: non_empty(hrefs).len(),
                content_type: crate::state::content_type_text(content_type),
            };
            let visited = CrawlState { visits: closed.visits.push(row), ..closed };
            assert(visit_urls(visited.visits) =~= visit_urls(self.visits).push(url));
            assert(fetch_urls(successful_rows(visited.fetched)) =~= fetch_urls(
                successful_rows(self.fetched),
            ).push(url));
            assert(visited.visited() == closed.visited());
            assert(visited.valid());
            visited.lemma_with_links_valid(resolved_all(non_empty(hrefs), self.base));
        }
    }

    /// Recording any outcome of a fetch in flight keeps the state valid.
    pub proof fn lemma_recorded_valid(self, url: Seq<char>, outcome: FetchOutcomeView)
        requires
            self.valid(),
            self.pending.contains(url),
        ensures
            self.recorded(url, outcome).valid(),
    {
        match outcome {
            FetchOutcomeView::TransportError { message } => {
                self.lemma_failed_valid(url, message);
            },
            FetchOutcomeView::Response { status, content_type, body } => {
                self.lemma_responded_valid(
                    url,
                    status,
                    content_type,
                    crate::state::byte_len(body),
                    crate::links::document_hrefs(body),
                );
            },
        }
    }

    /// The attempts never exceed the page budget.
    pub proof fn law_attempts_within_budget(self)
        requires
            self.valid(),
        ensures
            self.stats().total_attempts <= self.budget,
    {
    }

    /// No URL is fetched twice: the URLs of all attempts, ended or in
    /// flight, are distinct, and the visited set holds one entry for each.
    pub proof fn law_fetched_once(self)
        requires
            self.valid(),
        ensures
            (self.fetched_urls() + self.pending).no_duplicates(),
            self.visited() == (self.fetched_urls() + self.pending).to_set(),
            self.visited().len() == self.total_attempts(),
    {
        let all = self.fetched_urls() + self.pending;
        vstd::seq_lib::lemma_no_dup_in_concat(self.fetched_urls(), self.pending);
        vstd::seq_lib::seq_to_set_distributes_over_add(self.fetched_urls(), self.pending);
        all.unique_seq_to_set();
    }

    /// Every URL of the discovery report appears in it exactly once, however
    /// often it was seen, and the discovered set holds one entry for each
    /// row.
    pub proof fn law_discovered_once(self)
        requires
            self.valid(),
        ensures
            self.discovered_urls().no_duplicates(),
            self.discovered().len() == self.discoveries.len(),
            self.stats().unique_urls.len() == self.discoveries.len(),
    {
        self.discovered_urls().unique_seq_to_set();
    }

    /// Every attempt that has ended counts as a success or as a failure,
    /// never as both: with no fetch in flight, successes and failures add up
    /// to the attempts.
    pub proof fn law_attempts_accounted(self)
        ensures
            self.stats().successes + self.stats().failures == self.fetched.len(),
            self.stats().successes + self.stats().failures + self.pending.len()
                == self.stats().total_attempts,
            !self.is_waiting() ==> self.stats().successes + self.stats().failures
                == self.stats().total_attempts,
    {
        lemma_filter_split(
            self.fetched,
            |row: FetchRecordView| row.status.is_success(),
            |row: FetchRecordView| !row.status.is_success(),
        );
    }

    /// A batch holds only URLs that were not visited before, each once, and
    /// no more of them than the batch size and the rest of the budget allow.
    pub proof fn law_batch_is_new(self)
        requires
            self.valid(),
            !self.is_waiting(),
        ensures
            self.dispatched().pending.no_duplicates(),
            forall|i: int|
                0 <= i < self.dispatched().pending.len() ==> !self.visited().contains(
                    #[trigger] self.dispatched().pending[i],
                ),
            self.dispatched().pending.len() <= self.batch_limit(),
            self.dispatched().pending.len() <= self.batch_size,
            self.dispatched().total_attempts() == self.total_attempts()
                + self.dispatched().pending.len(),
    {
        if !self.is_finished() {
            let batch = self.frontier.take(self.batch_len() as int);
            lemma_fresh_members(batch, self.visited());
            assert forall|i: int| 0 <= i < self.dispatched().pending.len() implies !self.visited().contains(
                #[trigger] self.dispatched().pending[i],
            ) by {
                assert(fresh(batch, self.visited()).contains(self.dispatched().pending[i]));
            }
        }
    }

    /// A crawl whose budget is spent is over as soon as no fetch is in
    /// flight, whatever waits in the frontier; so is one whose frontier is
    /// empty, whatever is left of the budget. A crawl that is over stays as
    /// it is.
    pub proof fn law_crawl_ends(self)
        requires
            !self.is_waiting(),
        ensures
            self.total_attempts() >= self.budget ==> self.is_finished(),
            self.frontier.len() == 0 ==> self.is_finished(),
            self.is_finished() ==> self.dispatched() == self,
    {
    }

    /// The visit row of a page counts every link extracted from it: none of
    /// them is empty, so none is dropped.
    pub proof fn law_outlinks_counted(
        self,
        url: Seq<char>,
        status: u16,
        content_type: Option<Seq<char>>,
        body: Seq<char>,
    )
        requires
            is_success_code(status),
        ensures
            self.recorded(
                url,
                FetchOutcomeView::Response { status, content_type, body },
            ).visits.last().outlinks == document_hrefs(body).len(),
    {
        lemma_document_hrefs_non_empty(body);
    }

    /// A URL outside the site is recorded in the discovery report but never
    /// waits in the frontier, unless the crawl was started from it.
    pub proof fn law_outside_never_enqueued(self, i: int, j: int)
        requires
            self.valid(),
            0 <= i < self.discoveries.len(),
            0 <= j < self.frontier.len(),
            self.discoveries[i].membership == Membership::OutOfSite,
            self.discoveries[i].url != self.start,
        ensures
            self.frontier[j] != self.discoveries[i].url,
    {
    }

    /// The visit report has one row for each success, and the statistics
    /// count one page size for each row.
    pub proof fn law_one_visit_per_success(self)
        requires
            self.valid(),
        ensures
            self.visits.len() == self.stats().successes,
            self.stats().file_sizes.len() == self.stats().successes,
    {
        assert(visit_urls(self.visits).len() == fetch_urls(successful_rows(self.fetched)).len());
    }
}

} // verus!
