//! Normalisation of chart, fundamentals and key-statistics payloads of the
//! yahoo! finance service into aligned, typed time series.
//!
//! The library never touches the network: it takes documents that a
//! transport has already fetched and decoded, and its types are generic over
//! the type `F` that carries the provider's floating-point prices.

use vstd::prelude::*;

pub mod chart;
pub mod error;
pub mod extract;
pub mod financials;
pub mod json;
pub mod response;
pub mod series;
pub mod statistics;
pub mod timeseries;
pub mod tolerant;

pub use chart::{Dividend, Quote, QuoteBlock, Split, YMetaData, YQuoteBlock};
pub use error::YahooError;
pub use financials::YFinancialsResponse;
pub use json::{JsonNumber, JsonValue};
pub use response::{YChart, YResponse};
pub use statistics::YStatisticsResponse;

verus! {

/// The chart endpoint.
pub const YCHART_URL: &'static str = "https://query1.finance.yahoo.com/v8/finance/chart";

/// The ticker search endpoint.
pub const YSEARCH_URL: &'static str = "https://query2.finance.yahoo.com/v1/finance/search";

/// The quote pages that embed fundamentals and key statistics.
pub const YSCRAPE_URL: &'static str = "https://finance.yahoo.com/quote";

/// The connection parameters of the yahoo! finance service.
pub struct YahooConnector {
    url: &'static str,
    search_url: &'static str,
}

impl YahooConnector {
    pub closed spec fn spec_url(&self) -> Seq<char> {
        self.url@
    }

    pub closed spec fn spec_search_url(&self) -> Seq<char> {
        self.search_url@
    }

    /// A connector to the public endpoints.
    pub fn new() -> (r: YahooConnector)
        ensures
            r.spec_url() == YCHART_URL@,
            r.spec_search_url() == YSEARCH_URL@,
    {
        YahooConnector { url: YCHART_URL, search_url: YSEARCH_URL }
    }

    /// The chart endpoint of this connector.
    pub fn url(&self) -> (r: &'static str)
        ensures
            r@ == self.spec_url(),
    {
        self.url
    }

    /// The search endpoint of this connector.
    pub fn search_url(&self) -> (r: &'static str)
        ensures
            r@ == self.spec_search_url(),
    {
        self.search_url
    }
}

/// The reporting period of a fundamentals time series.
#[derive(Copy, Clone, Debug, PartialEq, Eq, Structural)]
pub enum FinancialsPeriod {
    Quarterly,
    Annual,
    Trailing,
}

} // verus!
