//! The stage that sends what the forwarder cannot answer itself straight
//! upstream.

use vstd::prelude::*;
use crate::protocol::query::DNSQuery;

verus! {

/// The stage that tells the queries that the forwarder answers itself from
/// those that it only passes on.
#[derive(Debug, Clone, Copy)]
pub struct LegalChecker;

impl LegalChecker {
    pub fn new() -> (stage: Self) {
        LegalChecker
    }

    /// Whether `query` goes straight upstream, past the cache and the
    /// choice of an address.
    pub fn handle(&self, query: &DNSQuery) -> (bypass: bool)
        ensures
            bypass == !query@.supported(),
    {
        !query.is_supported()
    }
}

} // verus!
