//! The stage that answers queries for blocked names itself.

use vstd::prelude::*;
use std::sync::Arc;
use crate::filter::{blocks, Filter};
use crate::protocol::answer::soa::{SoaAnswer, SoaAnswerView, DEFAULT_SOA_TTL};
use crate::protocol::answer::{DnsAnswer, DnsAnswerView};
use crate::protocol::query::{DNSQuery, DNSQueryView};

verus! {

/// The stage that looks a query's name up in the list of blocked names.
pub struct DomainFilter {
    filter: Arc<Filter>,
}

/// What the filter stage answers to `query` where `blocked` are the blocked
/// names: the made-up authority answer that echoes the id and the name of
/// the query where its name is blocked, nothing where it is not or where
/// the query asks no question.
pub open spec fn filter_answer(blocked: Seq<Seq<char>>, query: DNSQueryView) -> Option<
    DnsAnswerView,
> {
    if query.questions.len() > 0 && blocks(blocked, query.questions[0].name) {
        Some(
            DnsAnswerView::Soa(
                SoaAnswerView::made_up(query.header.id, query.questions[0].name, DEFAULT_SOA_TTL),
            ),
        )
    } else {
        None
    }
}

impl DomainFilter {
    /// The names that the stage blocks.
    pub closed spec fn blocked(&self) -> Seq<Seq<char>> {
        (*self.filter)@
    }

    pub fn new(filter: Arc<Filter>) -> (stage: Self)
        ensures
            stage.blocked() == (*filter)@,
    {
        DomainFilter { filter }
    }

    /// The answer of the stage to `query`, or nothing where the query goes
    /// on to the next stage.
    pub fn handle(&self, query: &DNSQuery) -> (answer: Option<DnsAnswer>)
        ensures
            match answer {
                Some(found) => filter_answer(self.blocked(), query@) == Some(found@),
                None => filter_answer(self.blocked(), query@) is None,
            },
    {
        if query.question_count() == 0 {
            return None;
        }
        let domain = query.get_readable_domain();
        if self.filter.contain(&domain) {
            return Some(DnsAnswer::Soa(SoaAnswer::default_soa(query.get_id(), domain)));
        }
        None
    }
}

} // verus!
