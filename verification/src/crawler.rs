//! The crawler: the state of a crawl in executable form.
//!
//! The crawler decides and records; it does not fetch. A driver calls
//! `next_batch`, fetches the URLs it is handed, in any order and on as many
//! threads as it likes, and reports each outcome with `record_outcome`. When
//! `next_batch` says that the crawl is finished, the logs and the statistics
//! are complete.
//!
//! Two choices are fixed here. Admission to the frontier is checked against
//! the attempts begun so far, so the frontier may hold more entries than the
//! budget will ever let through; the budget itself is never exceeded. Crawl
//! depth is not tracked.

use std::collections::HashMap;
use vstd::prelude::*;
use crate::frontier::Frontier;
use crate::links::{drop_empty, extract_hrefs};
use crate::records::{
    discovery_header, discovery_header_text, fetch_header, fetch_header_text, is_success,
    visit_header, visit_header_text, DiscoveryRecord, FetchOutcome, FetchRecord, FetchRecordView,
    FetchStatus, FetchStatusView, VisitRecord,
};
use crate::registry::UrlRegistry;
use crate::report::{encoded_rows, join_outcome, render_table, row_views, ReportError};
use crate::seqs::{
    fresh, lemma_fresh_covers, lemma_fresh_members, lemma_fresh_push, lemma_sum_bound,
    lemma_views_push, views,
};
use crate::state::{
    discovery_of, discovery_rows, fetch_urls, lemma_discovered_grows, lemma_outcome_counts_push,
    lemma_page_stats_push, lemma_status_histogram_push, page_outlinks, resolved_all,
    status_rows, successful_rows, urls_outside, urls_within, visit_urls, wanted_links, CrawlState,
};
use crate::stats::{CrawlStats, StatsView};
use crate::url::{classify, in_site, Membership};

verus! {

/// The page budget of a crawl that names none.
pub const DEFAULT_PAGE_BUDGET: usize = 20000;

/// The batch size of a crawl that names none.
pub const DEFAULT_BATCH_SIZE: usize = 10;

/// The time, in seconds, that a driver should allow each request.
pub const DEFAULT_TIMEOUT_SECS: u64 = 10;

/// What a crawl is set up with.
#[derive(Clone, Debug, PartialEq, Eq)]
pub struct CrawlConfig {
    /// The URL to fetch first.
    pub start_url: String,
    /// The prefix that resolves relative links and marks the site.
    pub base_domain: String,
    /// The most fetches the crawl may begin.
    pub page_budget: usize,
    /// The most fetches in flight at once.
    pub batch_size: usize,
    /// The time, in seconds, that the driver allows each request. The
    /// crawler carries it and does not read it.
    pub timeout_secs: u64,
}

impl CrawlConfig {
    /// A configuration with the default budget, batch size and timeout.
    pub fn new(start_url: String, base_domain: String) -> (config: CrawlConfig)
        ensures
            config.start_url == start_url,
            config.base_domain == base_domain,
            config.page_budget == DEFAULT_PAGE_BUDGET,
            config.batch_size == DEFAULT_BATCH_SIZE,
            config.timeout_secs == DEFAULT_TIMEOUT_SECS,
    {
        CrawlConfig {
            start_url,
            base_domain,
            page_budget: DEFAULT_PAGE_BUDGET,
            batch_size: DEFAULT_BATCH_SIZE,
            timeout_secs: DEFAULT_TIMEOUT_SECS,
        }
    }

    /// The state in which a crawl with this configuration starts.
    pub open spec fn initial_state(&self) -> CrawlState {
        CrawlState::init(
            self.start_url@,
            self.base_domain@,
            self.page_budget as nat,
            self.batch_size as nat,
            self.timeout_secs as nat,
        )
    }
}

/// What the driver is to do next.
#[derive(Clone, Debug, PartialEq, Eq)]
pub enum Dispatch {
    /// Fetch these URLs and report the outcome of each. The list may be
    /// empty, when every entry taken off the frontier had been visited
    /// before; the crawl is not over then.
    Fetch(Vec<String>),
    /// Outcomes of the batch in flight are still owed; nothing was started.
    Waiting,
    /// The crawl is over: the budget is spent or the frontier is exhausted.
    Finished,
}

/// Why an outcome was not recorded.
#[derive(Clone, Copy, Debug, PartialEq, Eq, Structural)]
pub enum CrawlError {
    /// No fetch of that URL is in flight.
    NotInFlight,
}

/// A crawl in progress.
pub struct Crawler {
    config: CrawlConfig,
    frontier: Frontier,
    visited: UrlRegistry,
    pending: Vec<String>,
    fetch_log: Vec<FetchRecord>,
    visit_log: Vec<VisitRecord>,
    discovery_log: Vec<DiscoveryRecord>,
    stats: CrawlStats,
}

impl View for Crawler {
    type V = CrawlState;

    closed spec fn view(&self) -> CrawlState {
        CrawlState {
            start: self.config.start_url@,
            base: self.config.base_domain@,
            budget: self.config.page_budget as nat,
            batch_size: self.config.batch_size as nat,
            timeout_secs: self.config.timeout_secs as nat,
            frontier: self.frontier@,
            pending: views(self.pending@),
            fetched: views(self.fetch_log@),
            visits: views(self.visit_log@),
            discoveries: views(self.discovery_log@),
            elapsed_nanos: self.stats.elapsed_nanos as nat,
        }
    }
}

/// The first position of `needle` among `items`.
fn find(items: &Vec<String>, needle: &str) -> (at: Option<usize>)
    ensures
        match at {
            Some(i) => i < items@.len() && views(items@).index_of_first(needle@) == Some(i as int),
            None => !views(items@).contains(needle@),
        },
{
    let key = needle.to_owned();
    let mut i: usize = 0;
    while i < items.len()
        invariant
            i <= items.len(),
            key@ == needle@,
            forall|j: int| 0 <= j < i ==> views(items@)[j] != needle@,
        decreases items.len() - i,
    {
        if items[i] == key {
            proof {
                views(items@).index_of_first_ensures(needle@);
                assert(views(items@)[i as int] == needle@);
            }
            return Some(i);
        }
        i += 1;
    }
    None
}

/// Counts one more response with the status `code`.
fn bump_status(codes: &mut HashMap<u16, usize>, code: u16)
    requires
        old(codes)@.contains_key(code) ==> old(codes)@[code] < usize::MAX,
    ensures
        final(codes)@ == old(codes)@.insert(
            code,
            if old(codes)@.contains_key(code) {
                (old(codes)@[code] + 1) as usize
            } else {
                1
            },
        ),
{
    broadcast use vstd::std_specs::hash::group_hash_axioms;

    let count: usize = match codes.get(&code) {
        Some(count) => *count,
        None => 0,
    };
    codes.insert(code, count + 1);
}

/// Adds `text` to the content types unless it is among them.
fn note_type(types: &mut Vec<String>, text: &str)
    ensures
        views(final(types)@) == if views(old(types)@).contains(text@) {
            views(old(types)@)
        } else {
            views(old(types)@).push(text@)
        },
{
    match find(types, text) {
        Some(_) => {
            proof {
                views(types@).index_of_first_ensures(text@);
            }
        },
        None => {
            let owned = text.to_owned();
            proof {
                lemma_views_push(types@, owned);
            }
            types.push(owned);
        },
    }
}

/// Takes in the links of a page. Each link is resolved and classified. One
/// that was not discovered before is entered in the registries and gets a
/// discovery row. One inside the site that has not been visited joins the
/// frontier, if links are admitted at all.
fn take_in_links(
    hrefs: &Vec<String>,
    base: &str,
    admits: bool,
    visited: &UrlRegistry,
    frontier: &mut Frontier,
    discovery_log: &mut Vec<DiscoveryRecord>,
    unique: &mut UrlRegistry,
    within: &mut UrlRegistry,
    outside: &mut UrlRegistry,
)
    requires
        old(within)@ == urls_within(old(unique)@, base@),
        old(outside)@ == urls_outside(old(unique)@, base@),
    ensures
        final(unique)@ == old(unique)@.union(resolved_all(views(hrefs@), base@).to_set()),
        final(within)@ == urls_within(final(unique)@, base@),
        final(outside)@ == urls_outside(final(unique)@, base@),
        views(final(discovery_log)@) == views(old(discovery_log)@) + discovery_rows(
            fresh(resolved_all(views(hrefs@), base@), old(unique)@),
            base@,
        ),
        final(frontier)@ == old(frontier)@ + if admits {
            wanted_links(resolved_all(views(hrefs@), base@), base@, visited@)
        } else {
            Seq::empty()
        },
{
    let ghost links = resolved_all(views(hrefs@), base@);
    let ghost seen = unique@;
    let ghost rows = views(discovery_log@);
    let ghost waiting = frontier@;
    let mut i: usize = 0;
    proof {
        reveal(Seq::filter);
        assert(links.take(0) =~= Seq::<Seq<char>>::empty());
        assert(seen.union(links.take(0).to_set()) =~= seen);
        assert(rows + discovery_rows(fresh(links.take(0), seen), base@) =~= rows);
        assert(waiting + wanted_links(links.take(0), base@, visited@) =~= waiting);
        assert(waiting + Seq::<Seq<char>>::empty() =~= waiting);
    }
    while i < hrefs.len()
        invariant
            i <= hrefs.len(),
            links == resolved_all(views(hrefs@), base@),
            unique@ == seen.union(links.take(i as int).to_set()),
            within@ == urls_within(unique@, base@),
            outside@ == urls_outside(unique@, base@),
            views(discovery_log@) == rows + discovery_rows(fresh(links.take(i as int), seen), base@),
            frontier@ == waiting + if admits {
                wanted_links(links.take(i as int), base@, visited@)
            } else {
                Seq::empty()
            },
        decreases hrefs.len() - i,
    {
        let link = classify(hrefs[i].as_str(), base);
        let ghost url = link.url@;
        let ghost earlier = links.take(i as int);
        let ghost found = fresh(earlier, seen);
        let ghost known = unique@;
        proof {
            assert(links[i as int] == url);
            assert(links.take(i + 1) =~= earlier.push(url));
            lemma_fresh_push(earlier, url, seen);
            earlier.lemma_push_to_set_commute(url);
            assert(seen.union(earlier.push(url).to_set()) =~= known.insert(url));
            assert(known.contains(url) == (seen.contains(url) || earlier.contains(url)));
            earlier.lemma_filter_push(
                url,
                |url: Seq<char>| in_site(url, base@) && !visited@.contains(url),
            );
            assert(discovery_rows(found.push(url), base@) =~= discovery_rows(found, base@).push(
                discovery_of(url, base@),
            ));
        }
        if unique.insert_if_absent(link.url.as_str()) {
            match link.membership {
                Membership::InSite => {
                    within.insert_if_absent(link.url.as_str());
                },
                Membership::OutOfSite => {
                    outside.insert_if_absent(link.url.as_str());
                },
            }
            let row = DiscoveryRecord { url: link.url.clone(), membership: link.membership };
            proof {
                lemma_views_push(discovery_log@, row);
                assert(row@ == discovery_of(url, base@));
            }
            discovery_log.push(row);
            assert(views(discovery_log@) =~= rows + discovery_rows(found.push(url), base@));
        }
        assert(within@ =~= urls_within(unique@, base@));
        assert(outside@ =~= urls_outside(unique@, base@));
        let wanted = match link.membership {
            Membership::InSite => !visited.contains(link.url.as_str()),
            Membership::OutOfSite => false,
        };
        if admits && wanted {
            frontier.enqueue(link.url);
            assert(frontier@ =~= waiting + wanted_links(earlier.push(url), base@, visited@));
        }
        i += 1;
    }
    assert(links.take(i as int) =~= links);
}

impl Crawler {
    /// Whether the crawler is well formed: its state is valid, and the
    /// visited set and the statistics it keeps agree with its logs.
    pub closed spec fn wf(&self) -> bool {
        &&& self@.valid()
        &&& self.visited@ == self@.visited()
        &&& self.stats@ == self@.stats()
    }

    /// A well-formed crawler is in a valid state.
    pub proof fn lemma_wf_valid(&self)
        requires
            self.wf(),
        ensures
            self@.valid(),
    {
    }

    /// Sets up a crawl: the start URL waits in the frontier, nothing has
    /// been fetched.
    pub fn new(config: CrawlConfig) -> (crawler: Crawler)
        ensures
            crawler.wf(),
            crawler@ == config.initial_state(),
    {
        let mut frontier = Frontier::new();
        frontier.enqueue(config.start_url.clone());
        let crawler = Crawler {
            config,
            frontier,
            visited: UrlRegistry::new(),
            pending: Vec::new(),
            fetch_log: Vec::new(),
            visit_log: Vec::new(),
            discovery_log: Vec::new(),
            stats: CrawlStats::new(),
        };
        proof {
            reveal(Seq::filter);
            let state = config.initial_state();
            assert(crawler@.frontier =~= state.frontier);
            assert(crawler@.pending =~= state.pending);
            assert(crawler@.fetched =~= state.fetched);
            assert(crawler@.visits =~= state.visits);
            assert(crawler@.discoveries =~= state.discoveries);
            CrawlState::lemma_init_valid(
                state.start,
                state.base,
                state.budget,
                state.batch_size,
                state.timeout_secs,
            );
            assert(state.visited() =~= Set::<Seq<char>>::empty());
            assert(state.stats().status_codes =~= Map::<u16, nat>::empty());
            assert(state.stats().file_sizes =~= Seq::<nat>::empty());
            assert(crate::state::page_types(state.visits) =~= Seq::<Seq<char>>::empty());
            assert(crate::state::page_outlinks(state.visits) =~= Seq::<nat>::empty());
            assert(state.discovered() =~= Set::<Seq<char>>::empty());
            assert(state.stats().urls_within =~= Set::<Seq<char>>::empty());
            assert(state.stats().urls_outside =~= Set::<Seq<char>>::empty());
        }
        crawler
    }

    /// The configuration of the crawl.
    pub fn config(&self) -> (config: &CrawlConfig)
        ensures
            config.start_url@ == self@.start,
            config.base_domain@ == self@.base,
            config.page_budget == self@.budget,
            config.batch_size == self@.batch_size,
            config.timeout_secs == self@.timeout_secs,
    {
        &self.config
    }

    /// The statistics of the crawl so far.
    pub fn stats(&self) -> (stats: &CrawlStats)
        requires
            self.wf(),
        ensures
            stats@ == self@.stats(),
    {
        &self.stats
    }

    /// The rows of the fetch report so far.
    pub fn fetch_log(&self) -> (rows: &Vec<FetchRecord>)
        ensures
            views(rows@) == self@.fetched,
    {
        &self.fetch_log
    }

    /// The rows of the visit report so far.
    pub fn visit_log(&self) -> (rows: &Vec<VisitRecord>)
        ensures
            views(rows@) == self@.visits,
    {
        &self.visit_log
    }

    /// The rows of the discovery report so far.
    pub fn discovery_log(&self) -> (rows: &Vec<DiscoveryRecord>)
        ensures
            views(rows@) == self@.discoveries,
    {
        &self.discovery_log
    }

    /// The URLs whose fetch has begun and whose outcome is owed.
    pub fn pending(&self) -> (urls: &Vec<String>)
        ensures
            views(urls@) == self@.pending,
    {
        &self.pending
    }

    /// How many URLs wait in the frontier.
    pub fn frontier_len(&self) -> (n: usize)
        ensures
            n == self@.frontier.len(),
    {
        self.frontier.len()
    }

    /// Whether a fetch of `url` has begun.
    pub fn is_visited(&self, url: &str) -> (yes: bool)
        requires
            self.wf(),
        ensures
            yes == self@.visited().contains(url@),
    {
        self.visited.contains(url)
    }

    /// Whether `url` has been seen as an outlink.
    pub fn is_discovered(&self, url: &str) -> (yes: bool)
        requires
            self.wf(),
        ensures
            yes == self@.discovered().contains(url@),
    {
        self.stats.unique_urls.contains(url)
    }

    /// Whether the crawl is over: no batch is in flight, and the budget is
    /// spent or the frontier is empty.
    pub fn is_finished(&self) -> (over: bool)
        requires
            self.wf(),
        ensures
            over == self@.is_finished(),
    {
        self.pending.len() == 0 && (self.batch_limit() == 0 || self.frontier.is_empty())
    }

    /// The most URLs the next batch may hold.
    fn batch_limit(&self) -> (limit: usize)
        requires
            self.wf(),
        ensures
            limit == self@.batch_limit(),
    {
        let total: usize = self.stats.total_attempts;
        let budget: usize = self.config.page_budget;
        if total >= budget {
            0
        } else if self.config.batch_size < budget - total {
            self.config.batch_size
        } else {
            budget - total
        }
    }

    /// Starts the next batch. The oldest entries leave the frontier, as many
    /// as the batch size and the rest of the budget allow. Each of them that
    /// has not been visited is entered in the visited set, counted as an
    /// attempt and handed out for fetching; the others are dropped.
    ///
    /// While outcomes of the last batch are owed, nothing is started. When
    /// the budget is spent or the frontier yields nothing, the crawl is
    /// finished, and stays so.
    pub fn next_batch(&mut self) -> (step: Dispatch)
        requires
            old(self).wf(),
        ensures
            final(self).wf(),
            final(self)@ == old(self)@.dispatched(),
            match step {
                Dispatch::Waiting => old(self)@.is_waiting(),
                Dispatch::Finished => old(self)@.is_finished(),
                Dispatch::Fetch(urls) => {
                    &&& !old(self)@.is_waiting()
                    &&& !old(self)@.is_finished()
                    &&& views(urls@) == final(self)@.pending
                },
            },
    {
        if self.pending.len() > 0 {
            return Dispatch::Waiting;
        }
        let limit: usize = self.batch_limit();
        if limit == 0 || self.frontier.is_empty() {
            return Dispatch::Finished;
        }
        let ghost before = self@;
        let ghost seen = self.visited@;
        let batch = self.frontier.drain_up_to(limit);
        let ghost drained = views(batch@);
        let mut urls: Vec<String> = Vec::new();
        let mut i: usize = 0;
        proof {
            assert(drained.take(0) =~= Seq::<Seq<char>>::empty());
            assert(views(self.pending@) =~= fresh(drained.take(0), seen));
            assert(views(urls@) =~= views(self.pending@));
            assert(seen.union(drained.take(0).to_set()) =~= seen);
            lemma_fresh_members(drained, seen);
        }
        while i < batch.len()
            invariant
                i <= batch.len(),
                drained == views(batch@),
                drained == before.frontier.take(before.batch_len() as int),
                self@.frontier == before.frontier.skip(before.batch_len() as int),
                drained.len() <= limit,
                before.total_attempts() + limit <= self.config.page_budget,
                self.visited@ == seen.union(drained.take(i as int).to_set()),
                views(self.pending@) == fresh(drained.take(i as int), seen),
                views(urls@) == views(self.pending@),
                self.stats.total_attempts == before.total_attempts() + self.pending@.len(),
                self.pending@.len() <= i,
                self@ == (CrawlState {
                    frontier: self@.frontier,
                    pending: self@.pending,
                    ..before
                }),
                self.stats@ == (StatsView {
                    total_attempts: self.stats@.total_attempts,
                    ..before.stats()
                }),
            decreases batch.len() - i,
        {
            let url = &batch[i];
            proof {
                assert(drained.take(i + 1) =~= drained.take(i as int).push(url@));
                lemma_fresh_push(drained.take(i as int), url@, seen);
                drained.take(i as int).lemma_push_to_set_commute(url@);
                lemma_fresh_members(drained.take(i as int), seen);
                lemma_views_push(self.pending@, *url);
                lemma_views_push(urls@, *url);
            }
            if self.visited.insert_if_absent(url.as_str()) {
                self.stats.total_attempts = self.stats.total_attempts + 1;
                self.pending.push(url.clone());
                urls.push(url.clone());
            }
            assert(self.visited@ =~= seen.union(drained.take(i + 1).to_set()));
            i += 1;
        }
        proof {
            assert(drained.take(i as int) =~= drained);
            let after = before.dispatched();
            assert(self@.frontier == after.frontier);
            assert(self@ == after);
            before.lemma_dispatched_valid();
            lemma_fresh_covers(drained, seen);
            assert(before.pending =~= Seq::<Seq<char>>::empty());
            assert(before.pending.to_set() =~= Set::<Seq<char>>::empty());
            assert(self.visited@ =~= after.visited());
            assert(self.stats@ == after.stats());
        }
        Dispatch::Fetch(urls)
    }

    /// Records that the fetch of `url` failed in transport: the attempt is
    /// closed with an error row and counted as a failure. Nothing else
    /// changes. The failure is not retried and does not end the crawl.
    ///
    /// An outcome for a URL whose fetch is not in flight is refused, and
    /// nothing changes.
    pub fn record_failure(&mut self, url: &str, message: &str) -> (result: Result<(), CrawlError>)
        requires
            old(self).wf(),
        ensures
            final(self).wf(),
            match result {
                Ok(()) => old(self)@.pending.contains(url@) && final(self)@ == old(self)@.failed(
                    url@,
                    message@,
                ),
                Err(error) => {
                    &&& error == CrawlError::NotInFlight
                    &&& !old(self)@.pending.contains(url@)
                    &&& final(self)@ == old(self)@
                },
            },
    {
        let at: usize = match find(&self.pending, url) {
            Some(at) => at,
            None => {
                return Err(CrawlError::NotInFlight);
            },
        };
        let ghost before = self@;
        let ghost status = FetchStatusView::TransportError(message@);
        let ghost closed = before.closed(url@, status);
        proof {
            before.pending.index_of_first_ensures(url@);
            before.lemma_closed_keeps_visited(url@, status);
            before.lemma_failed_valid(url@, message@);
            lemma_outcome_counts_push(before.fetched, FetchRecordView { url: url@, status });
            lemma_status_histogram_push(before.fetched, FetchRecordView { url: url@, status });
            assert(views(self.pending@.remove(at as int)) =~= before.pending.remove(at as int));
        }
        let owned = self.pending.remove(at);
        let row = FetchRecord { url: owned, status: FetchStatus::TransportError(message.to_owned()) };
        proof {
            lemma_views_push(self.fetch_log@, row);
        }
        self.fetch_log.push(row);
        self.stats.failures = self.stats.failures + 1;
        assert(self@ == closed);
        Ok(())
    }

    /// Records that `url` was answered with `status`, by a page of `size`
    /// bytes that holds the links `hrefs`. An empty member of `hrefs` is no
    /// link and is dropped.
    ///
    /// The attempt is closed with a status row and the status is counted,
    /// whatever it is. Any status but 2xx counts as a failure and ends the
    /// step: `content_type`, `size` and `hrefs` are not read. A 2xx counts
    /// as a success: the content type (`unknown` where the response named
    /// none) and the size enter the statistics, the page gets one visit
    /// row, and its links are taken in. Each link is resolved against the
    /// base domain; one not discovered before gets a discovery row; one
    /// inside the site that has not been visited joins the frontier while
    /// the attempts are under the budget.
    ///
    /// An outcome for a URL whose fetch is not in flight is refused, and
    /// nothing changes.
    pub fn record_response(
        &mut self,
        url: &str,
        status: u16,
        content_type: &Option<String>,
        size: usize,
        hrefs: &Vec<String>,
    ) -> (result: Result<(), CrawlError>)
        requires
            old(self).wf(),
        ensures
            final(self).wf(),
            match result {
                Ok(()) => old(self)@.pending.contains(url@) && final(self)@ == old(self)@.responded(
                    url@,
                    status,
                    content_type.deep_view(),
                    size as nat,
                    views(hrefs@),
                ),
                Err(error) => {
                    &&& error == CrawlError::NotInFlight
                    &&& !old(self)@.pending.contains(url@)
                    &&& final(self)@ == old(self)@
                },
            },
    {
        let at: usize = match find(&self.pending, url) {
            Some(at) => at,
            None => {
                return Err(CrawlError::NotInFlight);
            },
        };
        let ghost before = self@;
        let ghost code = FetchStatusView::Code(status);
        let ghost closed = before.closed(url@, code);
        let ghost after = before.responded(
            url@,
            status,
            content_type.deep_view(),
            size as nat,
            views(hrefs@),
        );
        proof {
            before.pending.index_of_first_ensures(url@);
            before.lemma_closed_keeps_visited(url@, code);
            before.lemma_responded_valid(
                url@,
                status,
                content_type.deep_view(),
                size as nat,
                views(hrefs@),
            );
            lemma_outcome_counts_push(before.fetched, FetchRecordView { url: url@, status: code });
            lemma_status_histogram_push(before.fetched, FetchRecordView { url: url@, status: code });
            assert(views(self.pending@.remove(at as int)) =~= before.pending.remove(at as int));
        }
        let ghost counted = self.stats.status_codes@;
        proof {
            assert forall|code: u16| counted.contains_key(code) implies (#[trigger] counted[code])
                == status_rows(before.fetched, code).len() by {
                assert(self.stats@.status_codes.contains_key(code));
                assert(self.stats@.status_codes[code] == counted[code] as nat);
            }
            assert(counted.contains_key(status) == (status_rows(before.fetched, status).len() > 0)) by {
                assert(self.stats@.status_codes.contains_key(status) == counted.contains_key(status));
            }
            assert(status_rows(before.fetched, status).len() <= before.fetched.len());
        }
        let owned = self.pending.remove(at);
        let row = FetchRecord { url: owned.clone(), status: FetchStatus::Code(status) };
        proof {
            lemma_views_push(self.fetch_log@, row);
        }
        self.fetch_log.push(row);
        bump_status(&mut self.stats.status_codes, status);
        proof {
            let now = self.stats.status_codes@;
            assert forall|code: u16| self.stats@.status_codes.contains_key(code)
                == closed.stats().status_codes.contains_key(code) by {
                assert(self.stats@.status_codes.contains_key(code) == now.contains_key(code));
                assert(before.stats().status_codes.contains_key(code) == counted.contains_key(code));
            }
            assert forall|code: u16| self.stats@.status_codes.contains_key(code) implies self.stats@.status_codes[code]
                == closed.stats().status_codes[code] by {
                assert(self.stats@.status_codes[code] == now[code] as nat);
                if code != status {
                    assert(counted.contains_key(code));
                }
            }
            assert(self.stats@.status_codes =~= closed.stats().status_codes);
        }
        if !is_success(status) {
            self.stats.failures = self.stats.failures + 1;
            assert(self@ == closed);
            return Ok(());
        }
        self.stats.successes = self.stats.successes + 1;
        let kind = match content_type {
            Some(text) => text.clone(),
            None => "unknown".to_owned(),
        };
        let links = drop_empty(hrefs);
        let page = VisitRecord { url: owned, size, outlinks: links.len(), content_type: kind.clone() };
        let ghost visited_state = CrawlState { visits: closed.visits.push(page@), ..closed };
        proof {
            lemma_views_push(self.visit_log@, page);
            lemma_page_stats_push(before.visits, page@);
            assert(page@.content_type == crate::state::content_type_text(content_type.deep_view()));
            assert forall|i: int| 0 <= i < page_outlinks(before.visits).len() implies page_outlinks(
                before.visits,
            )[i] <= usize::MAX by {
                assert(before.visits[i] == self.visit_log@[i]@);
            }
            lemma_sum_bound(page_outlinks(before.visits), usize::MAX as nat);
            assert(before.visits.len() == successful_rows(before.fetched).len()) by {
                assert(visit_urls(before.visits).len() == fetch_urls(
                    successful_rows(before.fetched),
                ).len());
            }
            assert(before.visits.len() * usize::MAX + usize::MAX <= u128::MAX) by (nonlinear_arith)
                requires
                    before.visits.len() < usize::MAX,
                    usize::MAX <= u64::MAX,
            ;
            assert(self.stats.file_sizes@.push(size).map_values(|size: usize| size as nat)
                =~= self.stats.file_sizes@.map_values(|size: usize| size as nat).push(size as nat));
        }
        note_type(&mut self.stats.content_types, kind.as_str());
        self.stats.file_sizes.push(size);
        self.stats.total_outlinks = self.stats.total_outlinks + links.len() as u128;
        self.visit_log.push(page);
        assert(self@ == visited_state);
        let admits = self.stats.total_attempts < self.config.page_budget;
        proof {
            lemma_discovered_grows(
                before.discoveries,
                resolved_all(views(links@), before.base),
                before.base,
            );
        }
        take_in_links(
            &links,
            self.config.base_domain.as_str(),
            admits,
            &self.visited,
            &mut self.frontier,
            &mut self.discovery_log,
            &mut self.stats.unique_urls,
            &mut self.stats.urls_within,
            &mut self.stats.urls_outside,
        );
        assert(self@ == after);
        Ok(())
    }

    /// Records what the transport returned for `url`. A transport error is
    /// recorded as by `record_failure`. A response is recorded as by
    /// `record_response`, with the size of its body in bytes and the links
    /// extracted from it; the body of a response that is no success is not
    /// read.
    pub fn record_outcome(&mut self, url: &str, outcome: &FetchOutcome) -> (result: Result<
        (),
        CrawlError,
    >)
        requires
            old(self).wf(),
        ensures
            final(self).wf(),
            match result {
                Ok(()) => old(self)@.pending.contains(url@) && final(self)@ == old(self)@.recorded(
                    url@,
                    outcome@,
                ),
                Err(error) => {
                    &&& error == CrawlError::NotInFlight
                    &&& !old(self)@.pending.contains(url@)
                    &&& final(self)@ == old(self)@
                },
            },
    {
        match outcome {
            FetchOutcome::TransportError { message } => self.record_failure(url, message.as_str()),
            FetchOutcome::Response { status, content_type, body } => {
                if is_success(*status) {
                    let hrefs = extract_hrefs(body.as_str());
                    let size: usize = body.as_str().as_bytes().len();
                    self.record_response(url, *status, content_type, size, &hrefs)
                } else {
                    let none: Vec<String> = Vec::new();
                    self.record_response(url, *status, content_type, 0, &none)
                }
            },
        }
    }

    /// The fetch report as CSV: the header, then each attempt that has
    /// ended with its status, in the order in which the outcomes were
    /// recorded.
    pub fn fetch_report(&self) -> (out: Result<Vec<u8>, ReportError>)
        ensures
            join_outcome(encoded_rows(self@.fetch_table()), out),
    {
        let mut rows: Vec<Vec<String>> = Vec::new();
        rows.push(fetch_header());
        let mut i: usize = 0;
        while i < self.fetch_log.len()
            invariant
                i <= self.fetch_log.len(),
                rows@.len() == i + 1,
                views(rows@[0]@) == fetch_header_text(),
                forall|k: int|
                    1 <= k <= i ==> views((#[trigger] rows@[k])@) == self.fetch_log@[k - 1]@.fields(),
            decreases self.fetch_log.len() - i,
        {
            rows.push(self.fetch_log[i].fields());
            i += 1;
        }
        proof {
            let table = self@.fetch_table();
            assert(table.len() == rows@.len());
            assert forall|k: int| 0 <= k < table.len() implies row_views(rows@)[k] == table[k] by {
                if k > 0 {
                    assert(views(rows@[k]@) == self.fetch_log@[k - 1]@.fields());
                }
            }
            assert(row_views(rows@) =~= table);
        }
        render_table(&rows)
    }

    /// The visit report as CSV: the header, then each page downloaded with
    /// its size, outlink count and content type.
    pub fn visit_report(&self) -> (out: Result<Vec<u8>, ReportError>)
        ensures
            join_outcome(encoded_rows(self@.visit_table()), out),
    {
        let mut rows: Vec<Vec<String>> = Vec::new();
        rows.push(visit_header());
        let mut i: usize = 0;
        while i < self.visit_log.len()
            invariant
                i <= self.visit_log.len(),
                rows@.len() == i + 1,
                views(rows@[0]@) == visit_header_text(),
                forall|k: int|
                    1 <= k <= i ==> views((#[trigger] rows@[k])@) == self.visit_log@[k - 1]@.fields(),
            decreases self.visit_log.len() - i,
        {
            rows.push(self.visit_log[i].fields());
            i += 1;
        }
        proof {
            let table = self@.visit_table();
            assert(table.len() == rows@.len());
            assert forall|k: int| 0 <= k < table.len() implies row_views(rows@)[k] == table[k] by {
                if k > 0 {
                    assert(views(rows@[k]@) == self.visit_log@[k - 1]@.fields());
                }
            }
            assert(row_views(rows@) =~= table);
        }
        render_table(&rows)
    }

    /// The discovery report as CSV: the header, then each URL discovered
    /// with its verdict, in the order of discovery.
    pub fn discovery_report(&self) -> (out: Result<Vec<u8>, ReportError>)
        ensures
            join_outcome(encoded_rows(self@.discovery_table()), out),
    {
        let mut rows: Vec<Vec<String>> = Vec::new();
        rows.push(discovery_header());
        let mut i: usize = 0;
        while i < self.discovery_log.len()
            invariant
                i <= self.discovery_log.len(),
                rows@.len() == i + 1,
                views(rows@[0]@) == discovery_header_text(),
                forall|k: int|
                    1 <= k <= i ==> views((#[trigger] rows@[k])@) == self.discovery_log@[k - 1]@.fields(),
            decreases self.discovery_log.len() - i,
        {
            rows.push(self.discovery_log[i].fields());
            i += 1;
        }
        proof {
            let table = self@.discovery_table();
            assert(table.len() == rows@.len());
            assert forall|k: int| 0 <= k < table.len() implies row_views(rows@)[k] == table[k] by {
                if k > 0 {
                    assert(views(rows@[k]@) == self.discovery_log@[k - 1]@.fields());
                }
            }
            assert(row_views(rows@) =~= table);
        }
        render_table(&rows)
    }

    /// Records the wall-clock time that the crawl took.
    pub fn finish(&mut self, elapsed_nanos: u128)
        requires
            old(self).wf(),
        ensures
            final(self).wf(),
            final(self)@ == (CrawlState { elapsed_nanos: elapsed_nanos as nat, ..old(self)@ }),
    {
        self.stats.elapsed_nanos = elapsed_nanos;
    }
}

} // verus!
