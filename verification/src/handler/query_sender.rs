//! The last stage: the query goes upstream.

use vstd::prelude::*;
use crate::handler::server_group::query_executor::reply_view;
use crate::handler::server_group::{reply_views, ServerGroup, ServerSender};
use crate::protocol::answer::DnsAnswer;
use crate::protocol::query::DNSQuery;

verus! {

/// The stage that hands a query to the dispatcher.
#[derive(Debug, Clone, Copy)]
pub struct QuerySender;

impl QuerySender {
    pub fn new() -> (stage: Self) {
        QuerySender
    }

    /// The answer of the stage to `query`: what the dispatcher `group`
    /// makes of the `replies` that came back from the servers it named,
    /// given in the order in which they came in.
    pub fn handle(
        &self,
        group: &ServerGroup,
        query: &DNSQuery,
        replies: Vec<Option<DnsAnswer>>,
    ) -> (answer: Option<DnsAnswer>)
        requires
            group.ready(),
        ensures
            reply_view(answer) == group.concluded(query@, reply_views(replies@)),
    {
        group.send_query(query, replies)
    }
}

} // verus!
