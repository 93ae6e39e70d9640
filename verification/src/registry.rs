//! Registries of URLs: the sets by which the crawl remembers what it has
//! dispatched and what it has discovered.

use vstd::prelude::*;
use vstd::hash_set::StringHashSet;

verus! {

/// A set of URLs that only grows. Membership is tested and recorded in one
/// step, so a URL enters at most once.
pub struct UrlRegistry {
    urls: StringHashSet,
}

impl View for UrlRegistry {
    type V = Set<Seq<char>>;

    closed spec fn view(&self) -> Set<Seq<char>> {
        self.urls@
    }
}

impl UrlRegistry {
    /// An empty registry.
    pub fn new() -> (registry: UrlRegistry)
        ensures
            registry@ == Set::<Seq<char>>::empty(),
    {
        UrlRegistry { urls: StringHashSet::new() }
    }

    /// Whether `url` has been recorded.
    pub fn contains(&self, url: &str) -> (present: bool)
        ensures
            present == self@.contains(url@),
    {
        self.urls.contains(url)
    }

    /// Records `url` unless it is already there, and says whether it was new.
    pub fn insert_if_absent(&mut self, url: &str) -> (inserted: bool)
        ensures
            inserted == !old(self)@.contains(url@),
            final(self)@ == old(self)@.insert(url@),
    {
        self.urls.insert(url.to_owned())
    }

    /// How many URLs have been recorded.
    pub fn len(&self) -> (n: usize)
        ensures
            n == self@.len(),
    {
        self.urls.len()
    }
}

} // verus!
