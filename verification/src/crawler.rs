//! The discovery pipeline: one search for result links, then a batched
//! crawl of every link, scraping each page for candidate proxy pairs and
//! accumulating them — deduplicated — under an accumulation budget.

use crate::accum::CandidateAccumulator;
use crate::accum::ScrapeOutcome;
use crate::runner::admit_window;
use crate::runner::DEFAULT_CONCURRENCY;
use crate::CrawlError;
use crate::ProxyAddress;
use vstd::prelude::*;
use vstd::string::StrSliceExecFns;

verus! {

/// One page of search results: the ordered list of result links.
pub struct SearchResult {
    pub urls: Vec<String>,
}

impl SearchResult {
    /// A cursor positioned at this page. Single-page search is the
    /// supported contract, so the cursor starts at page zero and never
    /// advances.
    pub fn pages(&self) -> (r: SearchResultPages)
        ensures
            r.index == 0,
    {
        SearchResultPages { index: 0 }
    }
}

/// A cursor over result pages. Multi-page search is out of scope until a
/// real paging contract exists; the cursor only records the page index it
/// would continue from.
pub struct SearchResultPages {
    pub index: u16,
}

/// A search engine as a capability set: fetch one page of search results,
/// and scrape one page for proxy pairs. Implementations perform network
/// I/O and live outside the library.
pub trait SearchEngine {
    fn search_n(&mut self, text: &str, page: u16) -> Result<SearchResult, CrawlError>;

    fn search(&mut self, text: &str) -> Result<SearchResult, CrawlError>;

    fn scrape(&mut self, url: &str) -> Result<Vec<ProxyAddress>, CrawlError>;
}

/// A crawler: search once for result links, scrape a single page for proxy
/// pairs, and — built from those two capabilities — the discovery
/// orchestrator `crawl`. The two primitive capabilities perform network
/// I/O and are implemented outside the library; `crawl` itself is pure
/// orchestration.
pub trait Crawler {
    fn search(&self, text: &str) -> Result<Vec<String>, CrawlError>;

    fn scrape_proxies(&self, url: &str) -> Result<Vec<ProxyAddress>, CrawlError>;

    /// The discovery orchestrator. One search obtains the result links; a
    /// failure of that single call is fatal and propagates. The links are
    /// then crawled in windows of the default width; each page's extracted
    /// pairs are absorbed into one deduplicating accumulator, and a failed
    /// scrape is absorbed as zero contribution. Before each window — the
    /// first included — the accumulation budget is consulted: once the
    /// accumulator holds more than `limit` candidates, no further window
    /// starts, though the window that crossed the threshold ran to
    /// completion. The result is the accumulator's full content, holding
    /// each distinct extracted pair at most once.
    fn crawl(&self, search_term: &str, limit: usize) -> (r: Result<Vec<ProxyAddress>, CrawlError>)
        ensures
            r matches Ok(v) ==> v@.no_duplicates(),
    {
        let urls = match self.search(search_term) {
            Ok(u) => u,
            Err(e) => {
                return Err(e);
            },
        };
        let n = urls.len();
        let mut acc = CandidateAccumulator::new();
        let mut next_start: usize = 0;
        loop
            invariant
                acc.wf(),
                next_start <= n,
                n == urls@.len(),
            decreases n - next_start,
        {
            match admit_window(next_start, n, DEFAULT_CONCURRENCY, acc.len(), limit) {
                Some(win) => {
                    let (lo, hi) = win;
                    let mut j = lo;
                    while j < hi
                        invariant
                            acc.wf(),
                            lo <= j <= hi <= n,
                            n == urls@.len(),
                        decreases hi - j,
                    {
                        let outcome = match self.scrape_proxies(urls[j].as_str()) {
                            Ok(list) => ScrapeOutcome::Success(list),
                            Err(e) => ScrapeOutcome::Failure(e.message),
                        };
                        acc.absorb_scrape(&outcome);
                        j += 1;
                    }
                    next_start = hi;
                },
                None => {
                    break ;
                },
            }
        }
        Ok(acc.into_items())
    }
}

} // verus!
