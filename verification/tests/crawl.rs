use site_crawler::crawler::{
    CrawlConfig, CrawlError, Crawler, Dispatch, DEFAULT_BATCH_SIZE, DEFAULT_PAGE_BUDGET,
    DEFAULT_TIMEOUT_SECS,
};
use site_crawler::records::{DiscoveryRecord, FetchOutcome, FetchRecord, FetchStatus, VisitRecord};
use site_crawler::url::Membership;

const SITE: &str = "https://example.com";

fn crawler_with(budget: usize, batch: usize) -> Crawler {
    let mut config = CrawlConfig::new(SITE.to_string(), SITE.to_string());
    config.page_budget = budget;
    config.batch_size = batch;
    Crawler::new(config)
}

fn page(hrefs: &[&str]) -> String {
    let mut body = String::from("<html><body>");
    for href in hrefs {
        body.push_str(&format!("<a href=\"{}\">link</a>", href));
    }
    body.push_str("</body></html>");
    body
}

fn ok_page(hrefs: &[&str]) -> FetchOutcome {
    FetchOutcome::Response {
        status: 200,
        content_type: Some("text/html".to_string()),
        body: page(hrefs),
    }
}

fn status_only(status: u16) -> FetchOutcome {
    FetchOutcome::Response { status, content_type: None, body: String::new() }
}

fn batch_of(step: Dispatch) -> Vec<String> {
    match step {
        Dispatch::Fetch(urls) => urls,
        other => panic!("expected a batch, got {:?}", other),
    }
}

fn urls(items: &[&str]) -> Vec<String> {
    items.iter().map(|s| s.to_string()).collect()
}

#[test]
fn default_configuration() {
    let config = CrawlConfig::new("https://example.com/start".to_string(), SITE.to_string());
    assert_eq!(config.start_url, "https://example.com/start");
    assert_eq!(config.base_domain, SITE);
    assert_eq!(config.page_budget, 20000);
    assert_eq!(config.batch_size, 10);
    assert_eq!(config.timeout_secs, 10);
    assert_eq!(DEFAULT_PAGE_BUDGET, 20000);
    assert_eq!(DEFAULT_BATCH_SIZE, 10);
    assert_eq!(DEFAULT_TIMEOUT_SECS, 10);
}

#[test]
fn new_crawl_holds_only_the_start_url() {
    let crawler = crawler_with(5, 2);
    assert_eq!(crawler.frontier_len(), 1);
    assert!(crawler.pending().is_empty());
    assert!(crawler.fetch_log().is_empty());
    assert!(crawler.visit_log().is_empty());
    assert!(crawler.discovery_log().is_empty());
    assert!(!crawler.is_finished());
    assert!(!crawler.is_visited(SITE));
    assert_eq!(crawler.stats().total_attempts, 0);
    assert_eq!(crawler.config().page_budget, 5);
    assert_eq!(crawler.config().batch_size, 2);
}

#[test]
fn start_page_with_three_links() {
    let mut crawler = crawler_with(20000, 10);
    assert_eq!(crawler.next_batch(), Dispatch::Fetch(urls(&[SITE])));
    let body = page(&["/a", "https://example.com/b", "https://other.com/c"]);
    let outcome = FetchOutcome::Response {
        status: 200,
        content_type: Some("text/html".to_string()),
        body: body.clone(),
    };
    assert_eq!(crawler.record_outcome(SITE, &outcome), Ok(()));

    assert_eq!(
        crawler.fetch_log(),
        &vec![FetchRecord { url: SITE.to_string(), status: FetchStatus::Code(200) }]
    );
    assert_eq!(
        crawler.visit_log(),
        &vec![VisitRecord {
            url: SITE.to_string(),
            size: body.len(),
            outlinks: 3,
            content_type: "text/html".to_string(),
        }]
    );
    assert_eq!(
        crawler.discovery_log(),
        &vec![
            DiscoveryRecord { url: "https://example.com/a".to_string(), membership: Membership::InSite },
            DiscoveryRecord { url: "https://example.com/b".to_string(), membership: Membership::InSite },
            DiscoveryRecord { url: "https://other.com/c".to_string(), membership: Membership::OutOfSite },
        ]
    );
    assert_eq!(crawler.frontier_len(), 2);
    assert_eq!(
        crawler.next_batch(),
        Dispatch::Fetch(urls(&["https://example.com/a", "https://example.com/b"]))
    );
    assert_eq!(crawler.frontier_len(), 0);
}

#[test]
fn start_page_reports_as_csv() {
    let mut crawler = crawler_with(20000, 10);
    crawler.next_batch();
    let body = page(&["/a", "https://example.com/b", "https://other.com/c"]);
    let size = body.len();
    let outcome = FetchOutcome::Response { status: 200, content_type: None, body };
    assert_eq!(crawler.record_outcome(SITE, &outcome), Ok(()));
    assert_eq!(
        String::from_utf8(crawler.fetch_report().unwrap()).unwrap(),
        "URL,Status\nhttps://example.com,200\n"
    );
    assert_eq!(
        String::from_utf8(crawler.visit_report().unwrap()).unwrap(),
        format!("URL,SizeBytes,OutlinkCount,ContentType\nhttps://example.com,{},3,unknown\n", size)
    );
    assert_eq!(
        String::from_utf8(crawler.discovery_report().unwrap()).unwrap(),
        "URL,Membership\nhttps://example.com/a,OK\nhttps://example.com/b,OK\nhttps://other.com/c,N_OK\n"
    );
}

#[test]
fn reports_of_a_new_crawl_hold_only_headers() {
    let crawler = crawler_with(3, 3);
    assert_eq!(crawler.fetch_report(), Ok(b"URL,Status\n".to_vec()));
    assert_eq!(crawler.visit_report(), Ok(b"URL,SizeBytes,OutlinkCount,ContentType\n".to_vec()));
    assert_eq!(crawler.discovery_report(), Ok(b"URL,Membership\n".to_vec()));
}

#[test]
fn timed_out_fetch_is_a_failure_row() {
    let mut crawler = crawler_with(20000, 10);
    crawler.next_batch();
    let outcome = FetchOutcome::TransportError { message: "operation timed out".to_string() };
    assert_eq!(crawler.record_outcome(SITE, &outcome), Ok(()));
    assert_eq!(
        crawler.fetch_log(),
        &vec![FetchRecord {
            url: SITE.to_string(),
            status: FetchStatus::TransportError("operation timed out".to_string()),
        }]
    );
    assert_eq!(crawler.fetch_log()[0].fields()[1], "Error: operation timed out");
    assert_eq!(
        crawler.fetch_report(),
        Ok(b"URL,Status\nhttps://example.com,Error: operation timed out\n".to_vec())
    );
    assert_eq!(crawler.stats().failures, 1);
    assert_eq!(crawler.stats().successes, 0);
    assert_eq!(crawler.stats().total_attempts, 1);
    assert!(crawler.stats().status_codes.is_empty());
    assert!(crawler.visit_log().is_empty());
    assert!(crawler.discovery_log().is_empty());
    assert_eq!(crawler.frontier_len(), 0);
}

#[test]
fn failure_does_not_end_the_crawl() {
    let mut crawler = crawler_with(10, 10);
    crawler.next_batch();
    crawler.record_outcome(SITE, &ok_page(&["/a", "/b"])).unwrap();
    let batch = batch_of(crawler.next_batch());
    assert_eq!(batch, urls(&["https://example.com/a", "https://example.com/b"]));
    crawler.record_failure("https://example.com/a", "connection refused").unwrap();
    crawler.record_outcome("https://example.com/b", &ok_page(&["/c"])).unwrap();
    assert_eq!(crawler.stats().failures, 1);
    assert_eq!(crawler.stats().successes, 2);
    assert_eq!(batch_of(crawler.next_batch()), urls(&["https://example.com/c"]));
}

#[test]
fn budget_of_one_ends_after_one_attempt() {
    let mut crawler = crawler_with(1, 10);
    assert_eq!(crawler.next_batch(), Dispatch::Fetch(urls(&[SITE])));
    crawler.record_outcome(SITE, &ok_page(&["/a", "/b"])).unwrap();
    assert_eq!(crawler.next_batch(), Dispatch::Finished);
    assert!(crawler.is_finished());
    assert_eq!(crawler.stats().total_attempts, 1);
    assert_eq!(crawler.fetch_log().len(), 1);
    assert_eq!(crawler.next_batch(), Dispatch::Finished);
    assert_eq!(crawler.stats().total_attempts, 1);
}

#[test]
fn spent_budget_ends_the_crawl_with_a_waiting_frontier() {
    let mut config = CrawlConfig::new("https://example.com/0".to_string(), SITE.to_string());
    config.page_budget = 2;
    config.batch_size = 1;
    let mut crawler = Crawler::new(config);
    crawler.next_batch();
    crawler.record_outcome("https://example.com/0", &ok_page(&["/a", "/b", "/c"])).unwrap();
    assert_eq!(crawler.frontier_len(), 3);
    assert_eq!(batch_of(crawler.next_batch()), urls(&["https://example.com/a"]));
    crawler.record_outcome("https://example.com/a", &ok_page(&["/d"])).unwrap();
    assert_eq!(crawler.frontier_len(), 2);
    assert_eq!(crawler.next_batch(), Dispatch::Finished);
    assert_eq!(crawler.frontier_len(), 2);
    assert_eq!(crawler.stats().total_attempts, 2);
}

#[test]
fn budget_of_zero_fetches_nothing() {
    let mut crawler = crawler_with(0, 10);
    assert!(crawler.is_finished());
    assert_eq!(crawler.next_batch(), Dispatch::Finished);
    assert_eq!(crawler.stats().total_attempts, 0);
    assert_eq!(crawler.frontier_len(), 1);
}

#[test]
fn batch_size_of_zero_fetches_nothing() {
    let mut crawler = crawler_with(10, 0);
    assert!(crawler.is_finished());
    assert_eq!(crawler.next_batch(), Dispatch::Finished);
    assert_eq!(crawler.frontier_len(), 1);
}

#[test]
fn empty_frontier_ends_the_crawl() {
    let mut crawler = crawler_with(20000, 10);
    crawler.next_batch();
    crawler.record_outcome(SITE, &ok_page(&["https://other.com/only-outside"])).unwrap();
    assert_eq!(crawler.frontier_len(), 0);
    assert_eq!(crawler.next_batch(), Dispatch::Finished);
    assert!(crawler.is_finished());
    assert_eq!(crawler.stats().total_attempts, 1);
    assert_eq!(crawler.stats().successes, 1);
    assert!(crawler.fetch_report().is_ok());
    assert!(crawler.visit_report().is_ok());
    assert!(crawler.discovery_report().is_ok());
}

#[test]
fn nothing_is_started_while_outcomes_are_owed() {
    let mut crawler = crawler_with(20000, 10);
    crawler.next_batch();
    assert_eq!(crawler.pending(), &urls(&[SITE]));
    assert_eq!(crawler.next_batch(), Dispatch::Waiting);
    assert!(!crawler.is_finished());
    assert_eq!(crawler.stats().total_attempts, 1);
    assert_eq!(crawler.pending(), &urls(&[SITE]));
    crawler.record_outcome(SITE, &status_only(500)).unwrap();
    assert!(crawler.pending().is_empty());
    assert_eq!(crawler.next_batch(), Dispatch::Finished);
}

#[test]
fn outcome_for_a_url_not_in_flight_is_refused() {
    let mut crawler = crawler_with(20000, 10);
    assert_eq!(crawler.record_outcome(SITE, &status_only(200)), Err(CrawlError::NotInFlight));
    crawler.next_batch();
    assert_eq!(
        crawler.record_outcome("https://example.com/other", &status_only(200)),
        Err(CrawlError::NotInFlight)
    );
    assert_eq!(crawler.record_failure("https://example.com/other", "x"), Err(CrawlError::NotInFlight));
    assert_eq!(
        crawler.record_response("https://example.com/other", 200, &None, 0, &Vec::new()),
        Err(CrawlError::NotInFlight)
    );
    assert!(crawler.fetch_log().is_empty());
    assert_eq!(crawler.stats().successes, 0);
    assert_eq!(crawler.stats().failures, 0);
    crawler.record_outcome(SITE, &status_only(200)).unwrap();
    assert_eq!(crawler.record_outcome(SITE, &status_only(200)), Err(CrawlError::NotInFlight));
    assert_eq!(crawler.fetch_log().len(), 1);
    assert_eq!(crawler.stats().successes, 1);
}

#[test]
fn non_success_status_is_a_failure_without_visit() {
    let mut crawler = crawler_with(20000, 10);
    crawler.next_batch();
    let outcome = FetchOutcome::Response {
        status: 404,
        content_type: Some("text/html".to_string()),
        body: page(&["/a", "/b"]),
    };
    crawler.record_outcome(SITE, &outcome).unwrap();
    assert_eq!(
        crawler.fetch_log(),
        &vec![FetchRecord { url: SITE.to_string(), status: FetchStatus::Code(404) }]
    );
    assert_eq!(crawler.stats().failures, 1);
    assert_eq!(crawler.stats().successes, 0);
    assert_eq!(crawler.stats().status_count(404), 1);
    assert_eq!(crawler.stats().status_count(200), 0);
    assert!(crawler.visit_log().is_empty());
    assert!(crawler.discovery_log().is_empty());
    assert!(crawler.stats().content_types.is_empty());
    assert!(crawler.stats().file_sizes.is_empty());
    assert_eq!(crawler.stats().total_outlinks, 0);
    assert_eq!(crawler.frontier_len(), 0);
}

#[test]
fn redirect_and_informational_statuses_are_failures() {
    for status in [100u16, 199, 300, 301, 500, 999] {
        let mut crawler = crawler_with(20000, 10);
        crawler.next_batch();
        crawler.record_outcome(SITE, &status_only(status)).unwrap();
        assert_eq!(crawler.stats().failures, 1, "status {}", status);
        assert_eq!(crawler.stats().status_count(status), 1);
        assert!(crawler.visit_log().is_empty());
    }
    for status in [200u16, 201, 204, 299] {
        let mut crawler = crawler_with(20000, 10);
        crawler.next_batch();
        crawler.record_outcome(SITE, &status_only(status)).unwrap();
        assert_eq!(crawler.stats().successes, 1, "status {}", status);
        assert_eq!(crawler.visit_log().len(), 1);
    }
}

#[test]
fn missing_content_type_is_unknown() {
    let mut crawler = crawler_with(20000, 10);
    crawler.next_batch();
    crawler.record_outcome(SITE, &status_only(200)).unwrap();
    assert_eq!(crawler.visit_log()[0].content_type, "unknown");
    assert_eq!(crawler.stats().content_types, urls(&["unknown"]));
}

#[test]
fn body_that_is_no_html_is_a_success_without_links() {
    let mut crawler = crawler_with(20000, 10);
    crawler.next_batch();
    let outcome = FetchOutcome::Response {
        status: 200,
        content_type: Some("application/octet-stream".to_string()),
        body: "\u{0}\u{1}<<not html>>".to_string(),
    };
    crawler.record_outcome(SITE, &outcome).unwrap();
    assert_eq!(crawler.stats().successes, 1);
    assert_eq!(crawler.stats().failures, 0);
    assert_eq!(crawler.visit_log().len(), 1);
    assert_eq!(crawler.visit_log()[0].outlinks, 0);
    assert_eq!(crawler.visit_log()[0].size, 14);
    assert!(crawler.discovery_log().is_empty());
}

#[test]
fn page_size_is_counted_in_bytes() {
    let mut crawler = crawler_with(20000, 10);
    crawler.next_batch();
    let outcome = FetchOutcome::Response { status: 200, content_type: None, body: "äöü€".to_string() };
    crawler.record_outcome(SITE, &outcome).unwrap();
    assert_eq!(crawler.visit_log()[0].size, 9);
    assert_eq!(crawler.stats().file_sizes, vec![9]);
}

#[test]
fn repeated_link_is_discovered_once_and_enqueued_each_time() {
    let mut crawler = crawler_with(20000, 10);
    crawler.next_batch();
    crawler.record_outcome(SITE, &ok_page(&["/a", "/a", "https://example.com/a", "https://other.com/x", "https://other.com/x"])).unwrap();
    assert_eq!(crawler.visit_log()[0].outlinks, 5);
    assert_eq!(crawler.stats().total_outlinks, 5);
    assert_eq!(
        crawler.discovery_log(),
        &vec![
            DiscoveryRecord { url: "https://example.com/a".to_string(), membership: Membership::InSite },
            DiscoveryRecord { url: "https://other.com/x".to_string(), membership: Membership::OutOfSite },
        ]
    );
    assert_eq!(crawler.frontier_len(), 3);
    assert_eq!(batch_of(crawler.next_batch()), urls(&["https://example.com/a"]));
    assert_eq!(crawler.frontier_len(), 0);
    assert_eq!(crawler.stats().total_attempts, 2);
}

#[test]
fn link_seen_on_two_pages_gets_one_discovery_row() {
    let mut crawler = crawler_with(20000, 10);
    crawler.next_batch();
    crawler.record_outcome(SITE, &ok_page(&["/a", "/b", "https://other.com/c"])).unwrap();
    crawler.next_batch();
    crawler.record_outcome("https://example.com/a", &ok_page(&["/b", "https://other.com/c", "/d"])).unwrap();
    crawler.record_outcome("https://example.com/b", &ok_page(&["/a", "/d", SITE])).unwrap();
    let discovered: Vec<&str> = crawler.discovery_log().iter().map(|row| row.url.as_str()).collect();
    assert_eq!(
        discovered,
        vec![
            "https://example.com/a",
            "https://example.com/b",
            "https://other.com/c",
            "https://example.com/d",
            "https://example.com",
        ]
    );
    assert_eq!(crawler.stats().unique_urls.len(), 5);
    assert_eq!(crawler.stats().urls_within.len(), 4);
    assert_eq!(crawler.stats().urls_outside.len(), 1);
    assert!(crawler.is_discovered("https://other.com/c"));
    assert!(!crawler.is_discovered("https://other.com/never"));
}

#[test]
fn visited_link_is_discovered_but_not_enqueued() {
    let mut crawler = crawler_with(20000, 10);
    crawler.next_batch();
    crawler.record_outcome(SITE, &ok_page(&[SITE, "/a"])).unwrap();
    assert_eq!(crawler.discovery_log().len(), 2);
    assert_eq!(crawler.frontier_len(), 1);
    assert_eq!(batch_of(crawler.next_batch()), urls(&["https://example.com/a"]));
}

#[test]
fn link_to_a_page_in_flight_is_not_enqueued() {
    let mut crawler = crawler_with(20000, 10);
    crawler.next_batch();
    crawler.record_outcome(SITE, &ok_page(&["/a", "/b"])).unwrap();
    crawler.next_batch();
    crawler.record_outcome("https://example.com/a", &ok_page(&["/b", "/c"])).unwrap();
    assert_eq!(crawler.frontier_len(), 1);
    crawler.record_outcome("https://example.com/b", &ok_page(&["/a"])).unwrap();
    assert_eq!(crawler.frontier_len(), 1);
    assert_eq!(batch_of(crawler.next_batch()), urls(&["https://example.com/c"]));
}

#[test]
fn outside_link_is_never_enqueued() {
    let mut crawler = crawler_with(20000, 10);
    crawler.next_batch();
    crawler.record_outcome(SITE, &ok_page(&["https://other.com/1", "http://example.com/2", "https://example.org"])).unwrap();
    assert_eq!(crawler.discovery_log().len(), 3);
    assert!(crawler.discovery_log().iter().all(|row| row.membership == Membership::OutOfSite));
    assert_eq!(crawler.frontier_len(), 0);
    assert_eq!(crawler.next_batch(), Dispatch::Finished);
}

#[test]
fn url_is_never_fetched_twice() {
    let mut crawler = crawler_with(20000, 10);
    let mut fetched: Vec<String> = Vec::new();
    loop {
        let batch = match crawler.next_batch() {
            Dispatch::Fetch(batch) => batch,
            Dispatch::Finished => break,
            Dispatch::Waiting => panic!("no outcome is owed"),
        };
        for url in batch {
            assert!(!fetched.contains(&url), "{} handed out twice", url);
            assert!(crawler.is_visited(&url));
            crawler.record_outcome(&url, &ok_page(&["/a", "/b", "/a", SITE, "/c", "/b"])).unwrap();
            fetched.push(url);
        }
    }
    assert_eq!(
        fetched,
        urls(&[SITE, "https://example.com/a", "https://example.com/b", "https://example.com/c"])
    );
    assert_eq!(crawler.stats().total_attempts, 4);
    assert_eq!(crawler.fetch_log().len(), 4);
}

#[test]
fn batch_holds_at_most_the_batch_size() {
    let mut crawler = crawler_with(20000, 10);
    crawler.next_batch();
    let hrefs: Vec<String> = (0..25).map(|i| format!("/p{}", i)).collect();
    let refs: Vec<&str> = hrefs.iter().map(|s| s.as_str()).collect();
    crawler.record_outcome(SITE, &ok_page(&refs)).unwrap();
    assert_eq!(crawler.frontier_len(), 25);
    let first = batch_of(crawler.next_batch());
    assert_eq!(first.len(), 10);
    assert_eq!(first[0], "https://example.com/p0");
    assert_eq!(first[9], "https://example.com/p9");
    assert_eq!(crawler.frontier_len(), 15);
    for url in &first {
        crawler.record_outcome(url, &status_only(200)).unwrap();
    }
    let second = batch_of(crawler.next_batch());
    assert_eq!(second.len(), 10);
    assert_eq!(second[0], "https://example.com/p10");
    for url in &second {
        crawler.record_outcome(url, &status_only(200)).unwrap();
    }
    let third = batch_of(crawler.next_batch());
    assert_eq!(third.len(), 5);
    assert_eq!(third[4], "https://example.com/p24");
}

#[test]
fn batch_is_cut_to_what_is_left_of_the_budget() {
    let mut crawler = crawler_with(4, 10);
    crawler.next_batch();
    crawler.record_outcome(SITE, &ok_page(&["/a", "/b", "/c", "/d", "/e"])).unwrap();
    let batch = batch_of(crawler.next_batch());
    assert_eq!(batch, urls(&["https://example.com/a", "https://example.com/b", "https://example.com/c"]));
    assert_eq!(crawler.stats().total_attempts, 4);
    assert_eq!(crawler.frontier_len(), 2);
    for url in &batch {
        crawler.record_outcome(url, &ok_page(&["/f"])).unwrap();
    }
    assert_eq!(crawler.next_batch(), Dispatch::Finished);
    assert_eq!(crawler.stats().total_attempts, 4);
}

#[test]
fn links_are_not_enqueued_once_the_budget_is_spent() {
    let mut crawler = crawler_with(1, 10);
    crawler.next_batch();
    crawler.record_outcome(SITE, &ok_page(&["/a", "https://other.com/b"])).unwrap();
    assert_eq!(crawler.frontier_len(), 0);
    assert_eq!(crawler.discovery_log().len(), 2);
    assert_eq!(crawler.visit_log()[0].outlinks, 2);
}

#[test]
fn batch_of_entries_all_visited_is_empty_and_the_crawl_goes_on() {
    let mut crawler = crawler_with(20000, 2);
    crawler.next_batch();
    crawler.record_outcome(SITE, &ok_page(&["/a", "/a", "/a", "/b"])).unwrap();
    assert_eq!(batch_of(crawler.next_batch()), urls(&["https://example.com/a"]));
    crawler.record_outcome("https://example.com/a", &status_only(200)).unwrap();
    assert_eq!(batch_of(crawler.next_batch()), urls(&["https://example.com/b"]));
    crawler.record_outcome("https://example.com/b", &ok_page(&["/c"])).unwrap();
    assert_eq!(batch_of(crawler.next_batch()), urls(&["https://example.com/c"]));
}

#[test]
fn entries_visited_before_yield_an_empty_batch() {
    let mut crawler = crawler_with(20000, 1);
    crawler.next_batch();
    crawler.record_outcome(SITE, &ok_page(&["/a", "/a", "/b"])).unwrap();
    assert_eq!(batch_of(crawler.next_batch()), urls(&["https://example.com/a"]));
    crawler.record_outcome("https://example.com/a", &status_only(200)).unwrap();
    assert_eq!(crawler.next_batch(), Dispatch::Fetch(Vec::new()));
    assert!(!crawler.is_finished());
    assert_eq!(crawler.stats().total_attempts, 2);
    assert_eq!(batch_of(crawler.next_batch()), urls(&["https://example.com/b"]));
}

#[test]
fn start_url_outside_the_site_is_still_fetched() {
    let config = CrawlConfig::new("https://start.org/".to_string(), SITE.to_string());
    let mut crawler = Crawler::new(config);
    assert_eq!(batch_of(crawler.next_batch()), urls(&["https://start.org/"]));
    crawler.record_outcome("https://start.org/", &ok_page(&["/a", "https://start.org/b"])).unwrap();
    assert_eq!(batch_of(crawler.next_batch()), urls(&["https://example.com/a"]));
}

#[test]
fn outcomes_may_arrive_in_any_order() {
    let mut crawler = crawler_with(20000, 10);
    crawler.next_batch();
    crawler.record_outcome(SITE, &ok_page(&["/a", "/b", "/c"])).unwrap();
    let batch = batch_of(crawler.next_batch());
    assert_eq!(batch.len(), 3);
    crawler.record_outcome("https://example.com/c", &status_only(200)).unwrap();
    assert_eq!(crawler.pending(), &urls(&["https://example.com/a", "https://example.com/b"]));
    crawler.record_outcome("https://example.com/a", &status_only(503)).unwrap();
    crawler.record_failure("https://example.com/b", "reset").unwrap();
    let order: Vec<&str> = crawler.fetch_log().iter().map(|row| row.url.as_str()).collect();
    assert_eq!(
        order,
        vec![SITE, "https://example.com/c", "https://example.com/a", "https://example.com/b"]
    );
}

#[test]
fn record_response_drops_empty_hrefs() {
    let mut crawler = crawler_with(20000, 10);
    crawler.next_batch();
    let hrefs = urls(&["/a", "", "https://other.com/c", ""]);
    crawler.record_response(SITE, 200, &Some("text/plain".to_string()), 77, &hrefs).unwrap();
    assert_eq!(
        crawler.visit_log(),
        &vec![VisitRecord {
            url: SITE.to_string(),
            size: 77,
            outlinks: 2,
            content_type: "text/plain".to_string(),
        }]
    );
    assert_eq!(crawler.stats().total_outlinks, 2);
    let discovered: Vec<&str> = crawler.discovery_log().iter().map(|row| row.url.as_str()).collect();
    assert_eq!(discovered, vec!["https://example.com/a", "https://other.com/c"]);
    assert!(!crawler.is_discovered(SITE));
    assert_eq!(crawler.frontier_len(), 1);
}

#[test]
fn link_with_another_scheme_is_reported_outside_and_not_enqueued() {
    let mut crawler = crawler_with(20000, 10);
    crawler.next_batch();
    crawler
        .record_outcome(SITE, &ok_page(&["mailto:x", "ftp://other.com/c", "http-status.html"]))
        .unwrap();
    assert_eq!(
        crawler.discovery_log(),
        &vec![
            DiscoveryRecord { url: "mailto:x".to_string(), membership: Membership::OutOfSite },
            DiscoveryRecord { url: "ftp://other.com/c".to_string(), membership: Membership::OutOfSite },
            DiscoveryRecord {
                url: "https://example.comhttp-status.html".to_string(),
                membership: Membership::InSite,
            },
        ]
    );
    assert_eq!(crawler.frontier_len(), 1);
    assert_eq!(
        crawler.next_batch(),
        Dispatch::Fetch(urls(&["https://example.comhttp-status.html"]))
    );
    assert_eq!(
        String::from_utf8(crawler.discovery_report().unwrap()).unwrap(),
        "URL,Membership\nmailto:x,N_OK\nftp://other.com/c,N_OK\nhttps://example.comhttp-status.html,OK\n"
    );
}

#[test]
fn configuration_is_carried_unchanged() {
    let mut config = CrawlConfig::new("https://example.com/start".to_string(), SITE.to_string());
    config.page_budget = 7;
    config.batch_size = 3;
    config.timeout_secs = 42;
    let crawler = Crawler::new(config.clone());
    assert_eq!(crawler.config(), &config);
    assert_eq!(crawler.config().timeout_secs, 42);
}

#[test]
fn finish_records_the_elapsed_time() {
    let mut crawler = crawler_with(20000, 10);
    assert_eq!(crawler.stats().elapsed_nanos, 0);
    crawler.next_batch();
    crawler.record_outcome(SITE, &status_only(200)).unwrap();
    crawler.finish(1_500_000_000);
    assert_eq!(crawler.stats().elapsed_nanos, 1_500_000_000);
    assert_eq!(crawler.stats().successes, 1);
    assert_eq!(crawler.fetch_log().len(), 1);
}
