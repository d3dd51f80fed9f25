//! The settings of the requests to the KDE Store.

use vstd::prelude::*;

verus! {

pub const DEFAULT_PAGE_SIZE: u8 = 100;

pub const DEFAULT_MAX_RETRIES: u8 = 5;

pub const DEFAULT_INITIAL_BACKOFF_MS: u32 = 500;

pub const DEFAULT_MAX_BACKOFF_MS: u32 = 30_000;

pub const DEFAULT_MAX_CONCURRENT_REQUESTS: usize = 2;

/// How long a connection may take to be made.
pub const CONNECT_TIMEOUT_SECS: u64 = 5;

/// How long a request may take in all.
pub const REQUEST_TIMEOUT_SECS: u64 = 60;

#[derive(Debug, Clone, Copy)]
pub struct ApiConfig {
    pub base_url: &'static str,
    /// How many entries the store puts on a page.
    pub page_size: u8,
    /// How often a page is asked for before the request is given up.
    pub max_retries: u8,
    pub initial_backoff_ms: u32,
    pub max_backoff_ms: u32,
    pub max_concurrent_requests: usize,
}

impl ApiConfig {
    pub fn new() -> (c: ApiConfig)
        ensures
            c.base_url@ == "https://api.kde-look.org/ocs/v1"@,
            c.page_size == 100,
            c.max_retries == 5,
            c.initial_backoff_ms == 500,
            c.max_backoff_ms == 30_000,
            c.max_concurrent_requests == 2,
    {
        ApiConfig {
            base_url: "https://api.kde-look.org/ocs/v1",
            page_size: DEFAULT_PAGE_SIZE,
            max_retries: DEFAULT_MAX_RETRIES,
            initial_backoff_ms: DEFAULT_INITIAL_BACKOFF_MS,
            max_backoff_ms: DEFAULT_MAX_BACKOFF_MS,
            max_concurrent_requests: DEFAULT_MAX_CONCURRENT_REQUESTS,
        }
    }
}

impl Default for ApiConfig {
    fn default() -> (c: ApiConfig)
        ensures
            c.base_url@ == "https://api.kde-look.org/ocs/v1"@,
            c.page_size == 100,
            c.max_retries == 5,
            c.initial_backoff_ms == 500,
            c.max_backoff_ms == 30_000,
            c.max_concurrent_requests == 2,
    {
        ApiConfig::new()
    }
}

} // verus!
