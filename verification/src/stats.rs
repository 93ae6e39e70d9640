//! The statistics of a crawl, and the histogram of page sizes.

use std::collections::HashMap;
use vstd::prelude::*;
use crate::registry::UrlRegistry;
use crate::seqs::views;

verus! {

/// The first size, in bytes, of the second bucket: 1 KiB.
pub const EDGE_1K: usize = 1024;

/// The first size of the third bucket: 10 KiB.
pub const EDGE_10K: usize = 10240;

/// The first size of the fourth bucket: 100 KiB.
pub const EDGE_100K: usize = 102400;

/// The first size of the last bucket: 1 MiB.
pub const EDGE_1M: usize = 1048576;

/// The counters of a crawl. The crawler alone writes them; a driver reads
/// them when the crawl is over.
pub struct CrawlStats {
    /// Fetches begun.
    pub total_attempts: usize,
    /// Fetches that ended with a 2xx response.
    pub successes: usize,
    /// Fetches that ended otherwise.
    pub failures: usize,
    /// How often each HTTP status came back.
    pub status_codes: HashMap<u16, usize>,
    /// The size in bytes of each page downloaded, in order.
    pub file_sizes: Vec<usize>,
    /// The content types of the pages downloaded, each once, in the order of
    /// first appearance.
    pub content_types: Vec<String>,
    /// The links extracted from all pages, repeats included.
    pub total_outlinks: u128,
    /// Every URL discovered.
    pub unique_urls: UrlRegistry,
    /// The URLs discovered inside the site.
    pub urls_within: UrlRegistry,
    /// The URLs discovered outside the site.
    pub urls_outside: UrlRegistry,
    /// Wall-clock time of the crawl in nanoseconds, once it has been recorded.
    pub elapsed_nanos: u128,
}

/// The counters of a crawl, over plain values.
pub struct StatsView {
    pub total_attempts: nat,
    pub successes: nat,
    pub failures: nat,
    pub status_codes: Map<u16, nat>,
    pub file_sizes: Seq<nat>,
    pub content_types: Seq<Seq<char>>,
    pub total_outlinks: nat,
    pub unique_urls: Set<Seq<char>>,
    pub urls_within: Set<Seq<char>>,
    pub urls_outside: Set<Seq<char>>,
    pub elapsed_nanos: nat,
}

impl View for CrawlStats {
    type V = StatsView;

    open spec fn view(&self) -> StatsView {
        StatsView {
            total_attempts: self.total_attempts as nat,
            successes: self.successes as nat,
            failures: self.failures as nat,
            status_codes: Map::new(
                |code: u16| self.status_codes@.contains_key(code),
                |code: u16| self.status_codes@[code] as nat,
            ),
            file_sizes: self.file_sizes@.map_values(|size: usize| size as nat),
            content_types: views(self.content_types@),
            total_outlinks: self.total_outlinks as nat,
            unique_urls: self.unique_urls@,
            urls_within: self.urls_within@,
            urls_outside: self.urls_outside@,
            elapsed_nanos: self.elapsed_nanos as nat,
        }
    }
}

/// The bucket of a page size: 0 below 1 KiB, 1 below 10 KiB, 2 below
/// 100 KiB, 3 below 1 MiB, 4 from 1 MiB on.
pub open spec fn bucket_of(size: nat) -> nat {
    if size < 1024 {
        0
    } else if size < 10240 {
        1
    } else if size < 102400 {
        2
    } else if size < 1048576 {
        3
    } else {
        4
    }
}

/// The sizes that fall into `bucket`.
pub open spec fn sizes_in_bucket(sizes: Seq<nat>, bucket: nat) -> Seq<nat> {
    sizes.filter(|size: nat| bucket_of(size) == bucket)
}

/// How many of `sizes` fall into `bucket`.
pub open spec fn bucket_count(sizes: Seq<nat>, bucket: nat) -> nat {
    sizes_in_bucket(sizes, bucket).len()
}

/// How many pages fell into each size bucket.
#[derive(Clone, Copy, Debug, PartialEq, Eq, Structural)]
pub struct SizeHistogram {
    /// Smaller than 1 KiB.
    pub below_1k: usize,
    /// From 1 KiB, smaller than 10 KiB.
    pub below_10k: usize,
    /// From 10 KiB, smaller than 100 KiB.
    pub below_100k: usize,
    /// From 100 KiB, smaller than 1 MiB.
    pub below_1m: usize,
    /// 1 MiB and larger.
    pub from_1m: usize,
}

impl SizeHistogram {
    /// Whether the histogram counts exactly `sizes`.
    pub open spec fn counts(self, sizes: Seq<nat>) -> bool {
        &&& self.below_1k == bucket_count(sizes, 0)
        &&& self.below_10k == bucket_count(sizes, 1)
        &&& self.below_100k == bucket_count(sizes, 2)
        &&& self.below_1m == bucket_count(sizes, 3)
        &&& self.from_1m == bucket_count(sizes, 4)
    }
}

/// One more size raises the count of its own bucket by one and leaves the
/// others.
pub proof fn lemma_bucket_count_push(sizes: Seq<nat>, size: nat, bucket: nat)
    ensures
        bucket_count(sizes.push(size), bucket) == bucket_count(sizes, bucket) + if bucket_of(size)
            == bucket {
            1nat
        } else {
            0nat
        },
{
    sizes.lemma_filter_push(size, |size: nat| bucket_of(size) == bucket);
}

/// Every size falls into exactly one of the five buckets.
pub proof fn lemma_buckets_partition(sizes: Seq<nat>)
    ensures
        bucket_count(sizes, 0) + bucket_count(sizes, 1) + bucket_count(sizes, 2) + bucket_count(
            sizes,
            3,
        ) + bucket_count(sizes, 4) == sizes.len(),
    decreases sizes.len(),
{
    if sizes.len() == 0 {
        reveal(Seq::filter);
    } else {
        let earlier = sizes.drop_last();
        let last = sizes.last();
        assert(earlier.push(last) =~= sizes);
        lemma_buckets_partition(earlier);
        lemma_bucket_count_push(earlier, last, 0);
        lemma_bucket_count_push(earlier, last, 1);
        lemma_bucket_count_push(earlier, last, 2);
        lemma_bucket_count_push(earlier, last, 3);
        lemma_bucket_count_push(earlier, last, 4);
    }
}

impl CrawlStats {
    /// The statistics of a crawl that has not begun.
    pub fn new() -> (stats: CrawlStats)
        ensures
            stats@ == (StatsView {
                total_attempts: 0,
                successes: 0,
                failures: 0,
                status_codes: Map::empty(),
                file_sizes: Seq::empty(),
                content_types: Seq::empty(),
                total_outlinks: 0,
                unique_urls: Set::empty(),
                urls_within: Set::empty(),
                urls_outside: Set::empty(),
                elapsed_nanos: 0,
            }),
    {
        let stats = CrawlStats {
            total_attempts: 0,
            successes: 0,
            failures: 0,
            status_codes: HashMap::new(),
            file_sizes: Vec::new(),
            content_types: Vec::new(),
            total_outlinks: 0,
            unique_urls: UrlRegistry::new(),
            urls_within: UrlRegistry::new(),
            urls_outside: UrlRegistry::new(),
            elapsed_nanos: 0,
        };
        assert(stats@.status_codes =~= Map::empty());
        assert(stats@.file_sizes =~= Seq::empty());
        assert(stats@.content_types =~= Seq::empty());
        stats
    }

    /// How often `code` came back.
    pub fn status_count(&self, code: u16) -> (count: usize)
        ensures
            count == if self@.status_codes.contains_key(code) {
                self@.status_codes[code]
            } else {
                0
            },
    {
        broadcast use vstd::std_specs::hash::group_hash_axioms;

        match self.status_codes.get(&code) {
            Some(count) => *count,
            None => 0,
        }
    }

    /// Sorts the page sizes into the five buckets.
    pub fn size_histogram(&self) -> (histogram: SizeHistogram)
        ensures
            histogram.counts(self@.file_sizes),
    {
        let ghost sizes = self@.file_sizes;
        let mut histogram = SizeHistogram {
            below_1k: 0,
            below_10k: 0,
            below_100k: 0,
            below_1m: 0,
            from_1m: 0,
        };
        let mut i: usize = 0;
        proof {
            reveal(Seq::filter);
            assert(sizes.take(0) =~= Seq::<nat>::empty());
        }
        while i < self.file_sizes.len()
            invariant
                i <= self.file_sizes.len(),
                sizes == self@.file_sizes,
                histogram.counts(sizes.take(i as int)),
            decreases self.file_sizes.len() - i,
        {
            let size: usize = self.file_sizes[i];
            proof {
                let seen = sizes.take(i as int);
                assert(sizes.take(i + 1) =~= seen.push(size as nat));
                lemma_bucket_count_push(seen, size as nat, 0);
                lemma_bucket_count_push(seen, size as nat, 1);
                lemma_bucket_count_push(seen, size as nat, 2);
                lemma_bucket_count_push(seen, size as nat, 3);
                lemma_bucket_count_push(seen, size as nat, 4);
                lemma_buckets_partition(seen);
            }
            if size < EDGE_1K {
                histogram.below_1k += 1;
            } else if size < EDGE_10K {
                histogram.below_10k += 1;
            } else if size < EDGE_100K {
                histogram.below_100k += 1;
            } else if size < EDGE_1M {
                histogram.below_1m += 1;
            } else {
                histogram.from_1m += 1;
            }
            i += 1;
        }
        assert(sizes.take(i as int) =~= sizes);
        histogram
    }
}

} // verus!
