//! The crawl as a state machine over plain values.
//!
//! A state holds the configuration, the frontier, the batch in flight and the
//! three report logs. Everything else (the visited and discovered sets, every
//! counter) is a function of these. The transitions are `dispatched`, which
//! starts a batch, and `failed` and `responded`, which close one attempt of
//! it. The laws of the crawl are proved of every state that the transitions
//! reach from `init`.

use vstd::prelude::*;
use crate::frontier::drained_count;
use crate::links::{document_hrefs, non_empty};
use crate::records::{
    discovery_header_text, fetch_header_text, is_success_code, visit_header_text,
    DiscoveryRecordView, FetchOutcomeView, FetchRecordView, FetchStatusView, VisitRecordView,
};
use crate::seqs::{fresh, lemma_fresh_members, lemma_fresh_push, lemma_sum_push, sum};
use crate::stats::StatsView;
use crate::url::{in_site, membership_of, resolved};

verus! {

/// The size of a text in bytes, as UTF-8.
pub open spec fn byte_len(text: Seq<char>) -> nat {
    vstd::utf8::encode_utf8(text).len()
}

/// The content type on record for a response: its header, or `unknown` where
/// it has none.
pub open spec fn content_type_text(header: Option<Seq<char>>) -> Seq<char> {
    match header {
        Some(text) => text,
        None => "unknown"@,
    }
}

/// The absolute URLs that `hrefs` stand for on a site rooted at `base`.
pub open spec fn resolved_all(hrefs: Seq<Seq<char>>, base: Seq<char>) -> Seq<Seq<char>> {
    hrefs.map_values(|href: Seq<char>| resolved(href, base))
}

/// The discovery row of `url`.
pub open spec fn discovery_of(url: Seq<char>, base: Seq<char>) -> DiscoveryRecordView {
    DiscoveryRecordView { url, membership: membership_of(url, base) }
}

/// The discovery rows of `urls`, in order.
pub open spec fn discovery_rows(urls: Seq<Seq<char>>, base: Seq<char>) -> Seq<DiscoveryRecordView> {
    urls.map_values(|url: Seq<char>| discovery_of(url, base))
}

/// The links worth fetching: those inside the site that have not been
/// visited. A link that occurs twice is kept twice.
pub open spec fn wanted_links(
    links: Seq<Seq<char>>,
    base: Seq<char>,
    visited: Set<Seq<char>>,
) -> Seq<Seq<char>> {
    links.filter(|url: Seq<char>| in_site(url, base) && !visited.contains(url))
}

/// The members of `urls` inside the site.
pub open spec fn urls_within(urls: Set<Seq<char>>, base: Seq<char>) -> Set<Seq<char>> {
    urls.filter(|url: Seq<char>| in_site(url, base))
}

/// The members of `urls` outside the site.
pub open spec fn urls_outside(urls: Set<Seq<char>>, base: Seq<char>) -> Set<Seq<char>> {
    urls.filter(|url: Seq<char>| !in_site(url, base))
}

/// The URLs of fetch rows, in order.
pub open spec fn fetch_urls(rows: Seq<FetchRecordView>) -> Seq<Seq<char>> {
    rows.map_values(|row: FetchRecordView| row.url)
}

/// The rows of attempts that ended with a 2xx response.
pub open spec fn successful_rows(rows: Seq<FetchRecordView>) -> Seq<FetchRecordView> {
    rows.filter(|row: FetchRecordView| row.status.is_success())
}

/// The rows of attempts that ended otherwise.
pub open spec fn unsuccessful_rows(rows: Seq<FetchRecordView>) -> Seq<FetchRecordView> {
    rows.filter(|row: FetchRecordView| !row.status.is_success())
}

/// The rows of attempts that ended with the status `code`.
pub open spec fn status_rows(rows: Seq<FetchRecordView>, code: u16) -> Seq<FetchRecordView> {
    rows.filter(|row: FetchRecordView| row.status == FetchStatusView::Code(code))
}

/// How often each status came back. A status that never came back has no
/// entry.
pub open spec fn status_histogram(rows: Seq<FetchRecordView>) -> Map<u16, nat> {
    Map::new(
        |code: u16| status_rows(rows, code).len() > 0,
        |code: u16| status_rows(rows, code).len(),
    )
}

/// The URLs of visit rows, in order.
pub open spec fn visit_urls(rows: Seq<VisitRecordView>) -> Seq<Seq<char>> {
    rows.map_values(|row: VisitRecordView| row.url)
}

/// The page sizes of visit rows, in order.
pub open spec fn page_sizes(rows: Seq<VisitRecordView>) -> Seq<nat> {
    rows.map_values(|row: VisitRecordView| row.size)
}

/// The content types of visit rows, in order.
pub open spec fn page_types(rows: Seq<VisitRecordView>) -> Seq<Seq<char>> {
    rows.map_values(|row: VisitRecordView| row.content_type)
}

/// The outlink counts of visit rows, in order.
pub open spec fn page_outlinks(rows: Seq<VisitRecordView>) -> Seq<nat> {
    rows.map_values(|row: VisitRecordView| row.outlinks)
}

/// The URLs of discovery rows, in order.
pub open spec fn discovery_urls(rows: Seq<DiscoveryRecordView>) -> Seq<Seq<char>> {
    rows.map_values(|row: DiscoveryRecordView| row.url)
}

/// The state of a crawl.
pub struct CrawlState {
    /// The URL the crawl starts from.
    pub start: Seq<char>,
    /// The prefix that resolves relative links and marks the site.
    pub base: Seq<char>,
    /// The most fetches the crawl may begin.
    pub budget: nat,
    /// The most fetches in flight at once.
    pub batch_size: nat,
    /// The time, in seconds, that each request is allowed.
    pub timeout_secs: nat,
    /// The URLs that wait to be fetched, oldest first.
    pub frontier: Seq<Seq<char>>,
    /// The URLs whose fetch has begun and whose outcome is owed.
    pub pending: Seq<Seq<char>>,
    /// The fetch report: one row for each attempt that has ended.
    pub fetched: Seq<FetchRecordView>,
    /// The visit report: one row for each page downloaded.
    pub visits: Seq<VisitRecordView>,
    /// The discovery report: one row for each URL seen as an outlink.
    pub discoveries: Seq<DiscoveryRecordView>,
    /// Wall-clock time of the crawl, once recorded.
    pub elapsed_nanos: nat,
}

impl CrawlState {
    /// The state before anything is fetched: only the start URL waits.
    pub open spec fn init(
        start: Seq<char>,
        base: Seq<char>,
        budget: nat,
        batch_size: nat,
        timeout_secs: nat,
    ) -> CrawlState {
        CrawlState {
            start,
            base,
            budget,
            batch_size,
            timeout_secs,
            frontier: seq![start],
            pending: Seq::empty(),
            fetched: Seq::empty(),
            visits: Seq::empty(),
            discoveries: Seq::empty(),
            elapsed_nanos: 0,
        }
    }

    /// The URLs of the attempts that have ended, in order.
    pub open spec fn fetched_urls(self) -> Seq<Seq<char>> {
        fetch_urls(self.fetched)
    }

    /// The URLs of the discovery report, in order.
    pub open spec fn discovered_urls(self) -> Seq<Seq<char>> {
        discovery_urls(self.discoveries)
    }

    /// The number of fetches begun.
    pub open spec fn total_attempts(self) -> nat {
        self.fetched.len() + self.pending.len()
    }

    /// The visited set: every URL whose fetch has begun.
    pub open spec fn visited(self) -> Set<Seq<char>> {
        self.fetched_urls().to_set().union(self.pending.to_set())
    }

    /// The discovered set: every URL seen as an outlink.
    pub open spec fn discovered(self) -> Set<Seq<char>> {
        self.discovered_urls().to_set()
    }

    /// The statistics of the crawl so far.
    pub open spec fn stats(self) -> StatsView {
        StatsView {
            total_attempts: self.total_attempts(),
            successes: successful_rows(self.fetched).len(),
            failures: unsuccessful_rows(self.fetched).len(),
            status_codes: status_histogram(self.fetched),
            file_sizes: page_sizes(self.visits),
            content_types: fresh(page_types(self.visits), Set::empty()),
            total_outlinks: sum(page_outlinks(self.visits)),
            unique_urls: self.discovered(),
            urls_within: urls_within(self.discovered(), self.base),
            urls_outside: urls_outside(self.discovered(), self.base),
            elapsed_nanos: self.elapsed_nanos,
        }
    }

    /// Whether `url` may ever be fetched: it is the start URL or lies inside
    /// the site.
    pub open spec fn may_fetch(self, url: Seq<char>) -> bool {
        url == self.start || in_site(url, self.base)
    }

    /// Whether the outcomes of a batch are still owed.
    pub open spec fn is_waiting(self) -> bool {
        self.pending.len() > 0
    }

    /// The most URLs the next batch may hold: the batch size, or what is left
    /// of the budget if that is less.
    pub open spec fn batch_limit(self) -> nat {
        if self.total_attempts() >= self.budget {
            0
        } else if self.batch_size < self.budget - self.total_attempts() {
            self.batch_size
        } else {
            (self.budget - self.total_attempts()) as nat
        }
    }

    /// How many URLs the next batch takes off the frontier.
    pub open spec fn batch_len(self) -> nat {
        drained_count(self.frontier.len(), self.batch_limit())
    }

    /// Whether the crawl is over: no batch is in flight, and the budget is
    /// spent or the frontier yields nothing.
    pub open spec fn is_finished(self) -> bool {
        !self.is_waiting() && self.batch_len() == 0
    }

    /// The state after the next batch has been started. The oldest entries
    /// leave the frontier; those not yet visited enter the visited set and
    /// are in flight, each once.
    pub open spec fn dispatched(self) -> CrawlState {
        if self.is_waiting() || self.is_finished() {
            self
        } else {
            CrawlState {
                frontier: self.frontier.skip(self.batch_len() as int),
                pending: fresh(self.frontier.take(self.batch_len() as int), self.visited()),
                ..self
            }
        }
    }

    /// The state after the attempt on `url` has ended with `status`.
    pub open spec fn closed(self, url: Seq<char>, status: FetchStatusView) -> CrawlState {
        CrawlState {
            pending: self.pending.remove_value(url),
            fetched: self.fetched.push(FetchRecordView { url, status }),
            ..self
        }
    }

    /// Whether links are still admitted to the frontier: the attempts are
    /// under the budget.
    pub open spec fn admits_links(self) -> bool {
        self.total_attempts() < self.budget
    }

    /// The links that a page adds to the frontier.
    pub open spec fn admitted(self, links: Seq<Seq<char>>) -> Seq<Seq<char>> {
        if self.admits_links() {
            wanted_links(links, self.base, self.visited())
        } else {
            Seq::empty()
        }
    }

    /// The state after the links of a page have been taken in. Each link not
    /// discovered before gets one discovery row. Each link inside the site
    /// that has not been visited joins the frontier, as often as it occurs,
    /// while the attempts are under the budget.
    pub open spec fn with_links(self, links: Seq<Seq<char>>) -> CrawlState {
        CrawlState {
            discoveries: self.discoveries + discovery_rows(
                fresh(links, self.discovered()),
                self.base,
            ),
            frontier: self.frontier + self.admitted(links),
            ..self
        }
    }

    /// The state after the fetch of `url` has failed in transport.
    pub open spec fn failed(self, url: Seq<char>, message: Seq<char>) -> CrawlState {
        self.closed(url, FetchStatusView::TransportError(message))
    }

    /// The state after `url` has been answered with `status`. A success adds
    /// a visit row and takes in the page's links, which are the members of
    /// `hrefs` that are not empty; any other status only closes the attempt.
    pub open spec fn responded(
        self,
        url: Seq<char>,
        status: u16,
        content_type: Option<Seq<char>>,
        size: nat,
        hrefs: Seq<Seq<char>>,
    ) -> CrawlState {
        let closed = self.closed(url, FetchStatusView::Code(status));
        if is_success_code(status) {
            (CrawlState {
                visits: closed.visits.push(
                    VisitRecordView {
                        url,
                        size,
                        outlinks: non_empty(hrefs).len(),
                        content_type: content_type_text(content_type),
                    },
                ),
                ..closed
            }).with_links(resolved_all(non_empty(hrefs), self.base))
        } else {
            closed
        }
    }

    /// The state after the transport's outcome for `url` has been recorded.
    pub open spec fn recorded(self, url: Seq<char>, outcome: FetchOutcomeView) -> CrawlState {
        match outcome {
            FetchOutcomeView::TransportError { message } => self.failed(url, message),
            FetchOutcomeView::Response { status, content_type, body } => self.responded(
                url,
                status,
                content_type,
                byte_len(body),
                document_hrefs(body),
            ),
        }
    }

    /// The fetch report as a table: the header, then one row for each
    /// attempt that has ended.
    pub open spec fn fetch_table(self) -> Seq<Seq<Seq<char>>> {
        seq![fetch_header_text()] + self.fetched.map_values(|row: FetchRecordView| row.fields())
    }

    /// The visit report as a table: the header, then one row for each page
    /// downloaded.
    pub open spec fn visit_table(self) -> Seq<Seq<Seq<char>>> {
        seq![visit_header_text()] + self.visits.map_values(|row: VisitRecordView| row.fields())
    }

    /// The discovery report as a table: the header, then one row for each
    /// URL discovered.
    pub open spec fn discovery_table(self) -> Seq<Seq<Seq<char>>> {
        seq![discovery_header_text()] + self.discoveries.map_values(
            |row: DiscoveryRecordView| row.fields(),
        )
    }

    /// What holds of every state of a crawl.
    pub open spec fn valid(self) -> bool {
        &&& self.total_attempts() <= self.budget
        &&& self.pending.len() <= self.batch_size
        &&& self.fetched_urls().no_duplicates()
        &&& self.pending.no_duplicates()
        &&& self.fetched_urls().disjoint(self.pending)
        &&& self.discovered_urls().no_duplicates()
        &&& forall|i: int|
            0 <= i < self.discoveries.len() ==> (#[trigger] self.discoveries[i]).membership
                == membership_of(self.discoveries[i].url, self.base)
        &&& forall|i: int| 0 <= i < self.frontier.len() ==> self.may_fetch(#[trigger] self.frontier[i])
        &&& forall|url: Seq<char>| #[trigger] self.visited().contains(url) ==> self.may_fetch(url)
        &&& visit_urls(self.visits) == fetch_urls(successful_rows(self.fetched))
    }
}

/// How one more fetch row changes the histogram of statuses.
pub proof fn lemma_status_histogram_push(rows: Seq<FetchRecordView>, row: FetchRecordView)
    ensures
        status_histogram(rows.push(row)) == match row.status {
            FetchStatusView::Code(code) => status_histogram(rows).insert(
                code,
                status_rows(rows, code).len() + 1,
            ),
            FetchStatusView::TransportError(_) => status_histogram(rows),
        },
{
    assert forall|code: u16|
        status_rows(rows.push(row), code).len() == status_rows(rows, code).len() + if row.status
            == FetchStatusView::Code(code) {
            1nat
        } else {
            0nat
        } by {
        rows.lemma_filter_push(
            row,
            |row: FetchRecordView| row.status == FetchStatusView::Code(code),
        );
    }
    match row.status {
        FetchStatusView::Code(code) => {
            assert(status_histogram(rows.push(row)) =~= status_histogram(rows).insert(
                code,
                status_rows(rows, code).len() + 1,
            ));
        },
        FetchStatusView::TransportError(_) => {
            assert(status_histogram(rows.push(row)) =~= status_histogram(rows));
        },
    }
}

/// How one more fetch row changes the counts of successes and failures.
pub proof fn lemma_outcome_counts_push(rows: Seq<FetchRecordView>, row: FetchRecordView)
    ensures
        successful_rows(rows.push(row)) == if row.status.is_success() {
            successful_rows(rows).push(row)
        } else {
            successful_rows(rows)
        },
        unsuccessful_rows(rows.push(row)) == if row.status.is_success() {
            unsuccessful_rows(rows)
        } else {
            unsuccessful_rows(rows).push(row)
        },
        successful_rows(rows).len() <= rows.len(),
        unsuccessful_rows(rows).len() <= rows.len(),
        forall|code: u16| #[trigger] status_rows(rows, code).len() <= rows.len(),
{
    rows.lemma_filter_push(row, |row: FetchRecordView| row.status.is_success());
    rows.lemma_filter_push(row, |row: FetchRecordView| !row.status.is_success());
    rows.lemma_filter_len(|row: FetchRecordView| row.status.is_success());
    rows.lemma_filter_len(|row: FetchRecordView| !row.status.is_success());
    assert forall|code: u16| #[trigger] status_rows(rows, code).len() <= rows.len() by {
        rows.lemma_filter_len(|row: FetchRecordView| row.status == FetchStatusView::Code(code));
    }
}

/// How one more visit row changes the statistics of pages.
pub proof fn lemma_page_stats_push(rows: Seq<VisitRecordView>, row: VisitRecordView)
    ensures
        page_sizes(rows.push(row)) == page_sizes(rows).push(row.size),
        sum(page_outlinks(rows.push(row))) == sum(page_outlinks(rows)) + row.outlinks,
        fresh(page_types(rows.push(row)), Set::empty()) == if fresh(
            page_types(rows),
            Set::empty(),
        ).contains(row.content_type) {
            fresh(page_types(rows), Set::empty())
        } else {
            fresh(page_types(rows), Set::empty()).push(row.content_type)
        },
{
    assert(page_sizes(rows.push(row)) =~= page_sizes(rows).push(row.size));
    assert(page_outlinks(rows.push(row)) =~= page_outlinks(rows).push(row.outlinks));
    lemma_sum_push(page_outlinks(rows), row.outlinks);
    assert(page_types(rows.push(row)) =~= page_types(rows).push(row.content_type));
    lemma_fresh_push(page_types(rows), row.content_type, Set::empty());
    lemma_fresh_members(page_types(rows), Set::empty());
}

/// The discovery rows of new links extend the discovered set by the links.
pub proof fn lemma_discovered_grows(
    rows: Seq<DiscoveryRecordView>,
    links: Seq<Seq<char>>,
    base: Seq<char>,
)
    ensures
        discovery_urls(
            rows + discovery_rows(fresh(links, discovery_urls(rows).to_set()), base),
        ).to_set() == discovery_urls(rows).to_set().union(links.to_set()),
{
    let seen = discovery_urls(rows).to_set();
    let found = fresh(links, seen);
    let next = discovery_urls(rows + discovery_rows(found, base));
    assert(next =~= discovery_urls(rows) + found);
    vstd::seq_lib::seq_to_set_distributes_over_add(discovery_urls(rows), found);
    crate::seqs::lemma_fresh_covers(links, seen);
}

} // verus!
