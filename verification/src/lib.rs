//! A bounded breadth-first crawl engine for a single site.
//!
//! The engine owns the frontier, the registries of visited and discovered
//! URLs, the three report logs and the statistics. It never touches the
//! network: a driver asks it which URLs to fetch next, fetches them, and
//! hands back what the transport returned.

pub mod crawler;
pub mod frontier;
pub mod laws;
pub mod links;
pub mod records;
pub mod registry;
pub mod report;
pub mod seqs;
pub mod state;
pub mod stats;
pub mod text;
pub mod url;
