//! The stage that serves from the cache.

use vstd::prelude::*;
use crate::cache::strategy::{CacheAction, CacheActionView};
use crate::cache::{CachePool, CachePoolView};
use crate::protocol::answer::{Answer, DnsAnswer};
use crate::protocol::query::{DNSQuery, DNSQueryView};

verus! {

/// The stage that looks a query's name up in the cache.
#[derive(Debug, Clone, Copy)]
pub struct CacheHandler;

/// `action` with the transaction id `id` on the answer that it serves.
pub open spec fn with_query_id(action: CacheActionView, id: u16) -> CacheActionView {
    match action {
        CacheActionView::Serve(answer) => CacheActionView::Serve(answer.with_id(id)),
        CacheActionView::ServeAndRefresh(answer) => CacheActionView::ServeAndRefresh(
            answer.with_id(id),
        ),
        CacheActionView::Fetch => CacheActionView::Fetch,
    }
}

/// What the cache stage does at `now` for `query`: what the cache says of
/// the query's name, the answer served bearing the id of the query.
pub open spec fn cache_step(pool: CachePoolView, query: DNSQueryView, now: u128) -> CacheActionView {
    with_query_id(pool.action_for(query.questions[0].name, now), query.header.id)
}

impl CacheHandler {
    pub fn new() -> (stage: Self) {
        CacheHandler
    }

    /// What is to be done at `now` for `query`.
    pub fn handle(&self, pool: &CachePool, query: &DNSQuery, now: u128) -> (action: CacheAction)
        requires
            query@.questions.len() > 0,
        ensures
            action@ == cache_step(pool@, query@, now),
    {
        let id = query.get_id();
        let name = query.get_readable_domain();
        match pool.get(&name, now) {
            CacheAction::Serve(answer) => {
                let mut answer = answer;
                answer.set_id(id);
                CacheAction::Serve(answer)
            },
            CacheAction::ServeAndRefresh(answer) => {
                let mut answer = answer;
                answer.set_id(id);
                CacheAction::ServeAndRefresh(answer)
            },
            CacheAction::Fetch => CacheAction::Fetch,
        }
    }

    /// Keeps at `now` the answer that came back for `query`, where it can
    /// be kept, and hands it on bearing the id of the query.
    pub fn finish(&self, pool: &mut CachePool, query: &DNSQuery, answer: DnsAnswer, now: u128) -> (out:
        DnsAnswer)
        requires
            query@.questions.len() > 0,
            old(pool).well_formed(),
        ensures
            final(pool).well_formed(),
            out@ == answer@.with_id(query@.header.id),
            final(pool)@.strategy == old(pool)@.strategy,
            final(pool)@.file_name == old(pool)@.file_name,
            final(pool)@.limit == old(pool)@.limit,
            match answer@.cache_form(now) {
                None => final(pool)@.records == old(pool)@.records,
                Some(record) => crate::cache::limit_map::inserted(
                    old(pool)@.records,
                    query@.questions[0].name,
                    record,
                    old(pool)@.limit,
                    now,
                    final(pool)@.records,
                ),
            },
    {
        let name = query.get_readable_domain();
        pool.store(name, &answer, now);
        let mut answer = answer;
        answer.set_id(query.get_id());
        answer
    }
}

} // verus!
