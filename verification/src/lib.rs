//! A search-to-feed gateway: keyword queries are answered with syndication
//! documents built from a search provider's results, with a bounded
//! least-recently-used cache of rendered documents in front of the provider.

use vstd::prelude::*;

pub mod error;
pub mod search;
pub mod cache;
pub mod decimal;
pub mod rss;
pub mod server;

verus! {

/// Provider credentials and service limits, fixed once loaded.
#[derive(Debug, Clone)]
pub struct Config {
    pub api_key: String,
    pub custom_engine_id: String,
    pub port: u16,
    pub cache_num: usize,
}

} // verus!
