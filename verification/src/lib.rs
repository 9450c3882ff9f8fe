pub mod accum;
pub mod crawler;
pub mod ddg;
pub mod digits;
pub mod extract;
pub mod proxy;
pub mod rank;
pub mod runner;
pub mod ua;

pub use crate::crawler::Crawler;
pub use crate::ua::random_user_agent;

use vstd::prelude::*;

verus! {

/// A fatal error of a pipeline run, carrying a human-readable reason. Only
/// the failure of the single initial search call is fatal; every per-item
/// failure is absorbed inside the pipelines and never surfaces as one of
/// these.
#[derive(Clone, Debug, PartialEq, Eq)]
pub struct CrawlError {
    pub message: String,
}

/// An IPv4 address and port pair naming one candidate proxy endpoint.
/// Equality is by value on all five fields, so a collection of these
/// can be deduplicated by value.
#[derive(Clone, Copy, Debug, PartialEq, Eq, Structural)]
pub struct ProxyAddress {
    pub a: u8,
    pub b: u8,
    pub c: u8,
    pub d: u8,
    pub port: u16,
}

impl ProxyAddress {
    pub fn new(a: u8, b: u8, c: u8, d: u8, port: u16) -> (r: ProxyAddress)
        ensures
            r == (ProxyAddress { a, b, c, d, port }),
    {
        ProxyAddress { a, b, c, d, port }
    }
}

} // verus!
