use std::cell::RefCell;
use sockeye::crawler::Crawler;
use sockeye::proxy::ProbeResponse;
use sockeye::proxy::ProxyManager;
use sockeye::proxy::ProxyProbe;
use sockeye::proxy::ProxyTest;
use sockeye::proxy::SupportedProtocols;
use sockeye::rank::sort_by_rtt;
use sockeye::runner::admit_window;
use sockeye::runner::num_windows;
use sockeye::runner::should_stop;
use sockeye::runner::window_bounds;
use sockeye::CrawlError;
use sockeye::ProxyAddress;

fn addr(d: u8, port: u16) -> ProxyAddress {
    ProxyAddress::new(10, 0, 0, d, port)
}

fn test_record(d: u8, port: u16, protocol: SupportedProtocols, rtt: u64) -> ProxyTest {
    ProxyTest {
        proxy: addr(d, port),
        protocol,
        status: 200,
        text: "93.184.216.34".to_string(),
        time: 1_700_000_000,
        rtt,
    }
}

/// A crawler over canned pages: `search` hands out one link per page, and
/// `scrape_proxies` replays the canned extraction result of that page,
/// counting how many pages were ever scraped.
struct CannedCrawler {
    pages: Vec<Result<Vec<ProxyAddress>, CrawlError>>,
    scraped: RefCell<usize>,
}

impl CannedCrawler {
    fn new(pages: Vec<Result<Vec<ProxyAddress>, CrawlError>>) -> CannedCrawler {
        CannedCrawler { pages, scraped: RefCell::new(0) }
    }
}

impl Crawler for CannedCrawler {
    fn search(&self, _text: &str) -> Result<Vec<String>, CrawlError> {
        Ok((0..self.pages.len()).map(|k| format!("https://example.org/p{}", k)).collect())
    }

    fn scrape_proxies(&self, url: &str) -> Result<Vec<ProxyAddress>, CrawlError> {
        *self.scraped.borrow_mut() += 1;
        let k: usize = url.rsplit('p').next().unwrap().parse().unwrap();
        self.pages[k].clone()
    }
}

struct FailingSearch;

impl Crawler for FailingSearch {
    fn search(&self, _text: &str) -> Result<Vec<String>, CrawlError> {
        Err(CrawlError { message: "search provider unreachable".to_string() })
    }

    fn scrape_proxies(&self, _url: &str) -> Result<Vec<ProxyAddress>, CrawlError> {
        Ok(Vec::new())
    }
}

#[test]
fn windowing_counts_and_bounds() {
    // 45 items at width 20: exactly ceil(45/20) = 3 windows, the last short.
    assert_eq!(num_windows(45, 20), 3);
    assert_eq!(num_windows(40, 20), 2);
    assert_eq!(num_windows(0, 20), 0);
    assert_eq!(num_windows(1, 20), 1);
    assert_eq!(window_bounds(0, 20, 45), (0, 20));
    assert_eq!(window_bounds(20, 20, 45), (20, 40));
    assert_eq!(window_bounds(40, 20, 45), (40, 45));
}

#[test]
fn admit_window_enforces_soft_limit() {
    // Budget not exceeded: the window starts, clamped to the remainder.
    assert_eq!(admit_window(40, 45, 20, 10, 10), Some((40, 45)));
    // Budget exceeded: no window starts, even though items remain.
    assert_eq!(admit_window(40, 45, 20, 11, 10), None);
    // No items remain.
    assert_eq!(admit_window(45, 45, 20, 0, 10), None);
    assert!(!should_stop(10, 10));
    assert!(should_stop(11, 10));
}

#[test]
fn crawl_deduplicates_across_pages() {
    let repeated = vec![addr(1, 80), addr(2, 80), addr(1, 80)];
    let crawler = CannedCrawler::new(vec![
        Ok(repeated.clone()),
        Ok(vec![addr(2, 80), addr(3, 80)]),
        Ok(repeated),
    ]);
    let got = crawler.crawl("free proxy list", 100).unwrap();
    assert_eq!(got, vec![addr(1, 80), addr(2, 80), addr(3, 80)]);
}

#[test]
fn crawl_isolates_per_page_failures() {
    let crawler = CannedCrawler::new(vec![
        Ok(vec![addr(1, 80)]),
        Err(CrawlError { message: "connection refused".to_string() }),
        Ok(vec![addr(2, 80)]),
        Err(CrawlError { message: "timeout".to_string() }),
        Ok(vec![addr(3, 80)]),
    ]);
    let got = crawler.crawl("free proxy list", 100).unwrap();
    assert_eq!(got, vec![addr(1, 80), addr(2, 80), addr(3, 80)]);
}

#[test]
fn crawl_stops_after_window_that_crosses_limit() {
    // 50 pages, each contributing one distinct pair. With width 20 and a
    // target of 10, the first window already exceeds the target, so no
    // second window starts: exactly 20 pages are scraped.
    let pages: Vec<Result<Vec<ProxyAddress>, CrawlError>> =
        (0..50).map(|k| Ok(vec![addr(k as u8, 1000 + k as u16)])).collect();
    let crawler = CannedCrawler::new(pages);
    let got = crawler.crawl("free proxy list", 10).unwrap();
    assert_eq!(*crawler.scraped.borrow(), 20);
    assert_eq!(got.len(), 20);
}

#[test]
fn crawl_propagates_search_failure() {
    let err = FailingSearch.crawl("free proxy list", 10).unwrap_err();
    assert_eq!(err.message, "search provider unreachable");
}

#[test]
fn ranking_sorts_ascending_by_rtt() {
    let records = vec![
        test_record(1, 80, SupportedProtocols::Http, 900),
        test_record(2, 80, SupportedProtocols::Socks5, 120),
        test_record(3, 80, SupportedProtocols::Http, 445),
        test_record(4, 80, SupportedProtocols::Http, 30),
        test_record(5, 80, SupportedProtocols::Socks5, 610),
    ];
    let sorted = sort_by_rtt(records.clone());
    let rtts: Vec<u64> = sorted.iter().map(|t| t.rtt).collect();
    assert_eq!(rtts, vec![30, 120, 445, 610, 900]);
    assert_eq!(sorted.len(), records.len());
    for r in &records {
        assert!(sorted.contains(r));
    }
}

/// A probe harness where every SOCKS5 exchange fails and every HTTP
/// exchange succeeds.
struct HttpOnlyProbe;

impl ProxyProbe for HttpOnlyProbe {
    fn fetch_through(&self, scheme: &str, _url: &str) -> Result<ProbeResponse, CrawlError> {
        if scheme.starts_with("socks5://") {
            Err(CrawlError { message: "connection refused".to_string() })
        } else {
            Ok(ProbeResponse {
                status: 200,
                body: "93.184.216.34".to_string(),
                elapsed_ms: 250,
                completed_at_ms: 1_700_000_123,
            })
        }
    }
}

struct DeadProbe;

impl ProxyProbe for DeadProbe {
    fn fetch_through(&self, _scheme: &str, _url: &str) -> Result<ProbeResponse, CrawlError> {
        Err(CrawlError { message: "timeout".to_string() })
    }
}

#[test]
fn dual_protocol_probes_are_independent() {
    let candidates = vec![addr(7, 1080)];
    let results = ProxyManager::test_proxies(&HttpOnlyProbe, &candidates);
    assert_eq!(results.len(), 1);
    assert_eq!(results[0].protocol, SupportedProtocols::Http);
    assert_eq!(results[0].proxy, addr(7, 1080));
    assert_eq!(results[0].status, 200);
    assert_eq!(results[0].rtt, 250);
}

#[test]
fn all_probes_failing_yields_no_records() {
    let candidates = vec![addr(1, 80), addr(2, 81), addr(3, 82)];
    let results = ProxyManager::test_proxies(&DeadProbe, &candidates);
    assert!(results.is_empty());
}

#[test]
fn test_proxy_builds_record_from_response() {
    let r = ProxyManager::test_proxy(&HttpOnlyProbe, &SupportedProtocols::Http, &addr(9, 3128))
        .unwrap();
    assert_eq!(r.proxy, addr(9, 3128));
    assert_eq!(r.protocol, SupportedProtocols::Http);
    assert_eq!(r.text, "93.184.216.34");
    assert_eq!(r.time, 1_700_000_123);
    let e = ProxyManager::test_proxy(&HttpOnlyProbe, &SupportedProtocols::Socks5, &addr(9, 3128));
    assert!(e.is_err());
}

#[test]
fn manager_keeps_imported_records_in_order() {
    let mut mgr = ProxyManager::new();
    assert!(mgr.entries().is_empty());
    let a = test_record(1, 80, SupportedProtocols::Http, 10);
    let b = test_record(2, 80, SupportedProtocols::Socks5, 5);
    mgr.import_test(a.clone());
    mgr.import_test(b.clone());
    assert_eq!(mgr.entries().as_slice(), &[a, b]);
}
