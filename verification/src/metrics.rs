//! Usage counters kept per calendar day.
use vstd::prelude::*;

verus! {

/// The counters of one day, as the metrics store reports them.
#[derive(Debug, Clone, Copy, PartialEq, Eq)]
pub struct DailyMetrics {
    pub year: i64,
    pub month: i64,
    pub day: i64,
    pub total_extract_requests: i64,
    pub total_search_requests: i64,
    pub total_extract_urls_from_cache: i64,
    pub total_search_requests_from_cache: i64,
    pub failed_extract_urls: i64,
}

impl DailyMetrics {
    /// The five counters in the order of the usage table's columns: extract
    /// requests, search requests, extracts served from cache, searches served
    /// from cache, failed extracts.
    pub open spec fn columns(self) -> Seq<int> {
        seq![
            self.total_extract_requests as int,
            self.total_search_requests as int,
            self.total_extract_urls_from_cache as int,
            self.total_search_requests_from_cache as int,
            self.failed_extract_urls as int,
        ]
    }
}

} // verus!
