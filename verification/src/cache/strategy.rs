//! How a record that was found in the cache is served.

use vstd::prelude::*;
use crate::cache::cache_record::{elapsed, elapsed_ms, expired, CacheItem, CacheRecord, CacheRecordView, Expired};
use crate::protocol::answer::{DnsAnswer, DnsAnswerView};

verus! {

/// What is to be done for a query.
#[derive(Debug)]
pub enum CacheAction {
    /// Send this answer.
    Serve(DnsAnswer),
    /// Send this answer, and ask upstream in the background for a fresh
    /// one to keep.
    ServeAndRefresh(DnsAnswer),
    /// Ask upstream, keep what comes back if it can be kept, and send it.
    Fetch,
}

/// What a [`CacheAction`] holds.
pub enum CacheActionView {
    Serve(DnsAnswerView),
    ServeAndRefresh(DnsAnswerView),
    Fetch,
}

impl View for CacheAction {
    type V = CacheActionView;

    open spec fn view(&self) -> CacheActionView {
        match self {
            CacheAction::Serve(answer) => CacheActionView::Serve(answer@),
            CacheAction::ServeAndRefresh(answer) => CacheActionView::ServeAndRefresh(answer@),
            CacheAction::Fetch => CacheActionView::Fetch,
        }
    }
}

/// A policy for serving a record that was found in the cache.
pub trait CacheStrategy {
    /// What the policy does with `record` at `now`.
    spec fn action_for(&self, record: CacheRecordView, now: u128) -> CacheActionView;

    fn handle(&self, record: &CacheRecord, now: u128) -> (action: CacheAction)
        ensures
            action@ == self.action_for(record@, now),
    ;
}

/// The policy that never serves an expired record.
#[derive(Debug, Clone, Copy)]
pub struct ExpiredCacheStrategy;

impl CacheStrategy for ExpiredCacheStrategy {
    open spec fn action_for(&self, record: CacheRecordView, now: u128) -> CacheActionView {
        if record.expired_at(now) {
            CacheActionView::Fetch
        } else {
            CacheActionView::Serve(record.answer_form(now))
        }
    }

    fn handle(&self, record: &CacheRecord, now: u128) -> (action: CacheAction) {
        if record.is_expired(now) {
            CacheAction::Fetch
        } else {
            CacheAction::Serve(record.to_answer(now))
        }
    }
}

impl ExpiredCacheStrategy {
    pub fn from() -> (strategy: Self) {
        ExpiredCacheStrategy
    }
}

/// Whether a record is past its time to live by more than `timeout`
/// milliseconds.
pub open spec fn hard_expired(create_time: u128, ttl_ms: u128, timeout: u128, now: u128) -> bool {
    elapsed_ms(create_time, now) > ttl_ms + timeout
}

/// The policy that serves an expired record for a while longer and has it
/// refreshed meanwhile.
#[derive(Debug, Clone, Copy)]
pub struct TimeoutCacheStrategy {
    timeout: u128,
}

impl CacheStrategy for TimeoutCacheStrategy {
    open spec fn action_for(&self, record: CacheRecordView, now: u128) -> CacheActionView {
        if hard_expired(record.create_time(), record.ttl_ms(), self.grace(), now) {
            CacheActionView::Fetch
        } else if record.expired_at(now) {
            CacheActionView::ServeAndRefresh(record.answer_form(now))
        } else {
            CacheActionView::Serve(record.answer_form(now))
        }
    }

    fn handle(&self, record: &CacheRecord, now: u128) -> (action: CacheAction) {
        let passed = elapsed(record.get_create_time(), now);
        let ttl = record.get_ttl_ms();
        if passed > ttl && passed - ttl > self.timeout {
            CacheAction::Fetch
        } else if record.is_expired(now) {
            CacheAction::ServeAndRefresh(record.to_answer(now))
        } else {
            CacheAction::Serve(record.to_answer(now))
        }
    }
}

impl TimeoutCacheStrategy {
    /// For how many milliseconds past its time a record is still served.
    pub closed spec fn grace(&self) -> u128 {
        self.timeout
    }

    pub fn from(timeout: u128) -> (strategy: Self)
        ensures
            strategy.grace() == timeout,
    {
        TimeoutCacheStrategy { timeout }
    }

    pub fn get_timeout(&self) -> (timeout: u128)
        ensures
            timeout == self.grace(),
    {
        self.timeout
    }
}

} // verus!
