//! The strategy that asks all servers at once and takes the answer that
//! comes first.

use vstd::prelude::*;
use crate::cache::limit_map::names_of;
use crate::handler::server_group::query_executor::name_of_query;
use crate::handler::server_group::{first_reply, take_first_reply, ServerSender};
use crate::protocol::answer::failure::FailureAnswer;
use crate::protocol::answer::{DnsAnswer, DnsAnswerView};
use crate::protocol::query::{DNSQuery, DNSQueryView};

verus! {

/// The servers that are raced.
#[derive(Debug)]
pub struct PreferServerSender {
    servers: Vec<String>,
}

impl PreferServerSender {
    /// The servers, in the order of the configuration.
    pub closed spec fn servers(&self) -> Seq<Seq<char>> {
        names_of(self.servers@)
    }

    pub fn from(servers: Vec<String>) -> (sender: Self)
        ensures
            sender.servers() == names_of(servers@),
    {
        PreferServerSender { servers }
    }
}

impl ServerSender for PreferServerSender {
    open spec fn ready(&self) -> bool {
        true
    }

    open spec fn targets_view(&self) -> Seq<Seq<char>> {
        self.servers()
    }

    open spec fn concluded(&self, query: DNSQueryView, replies: Seq<Option<DnsAnswerView>>) -> Option<
        DnsAnswerView,
    > {
        match first_reply(replies) {
            Some(answer) => Some(answer),
            None => Some(
                DnsAnswerView::Failure(
                    FailureAnswer::made_for(query.header.id, name_of_query(query)),
                ),
            ),
        }
    }

    /// The race is over with the first answer.
    open spec fn settled(&self, replies: Seq<Option<DnsAnswerView>>) -> bool {
        first_reply(replies) is Some
    }

    fn enough(&self, replies: &Vec<Option<DnsAnswer>>) -> (stop: bool) {
        crate::handler::server_group::has_reply(replies)
    }

    fn targets(&self) -> (targets: Vec<String>) {
        let targets = self.servers.clone();
        assert(names_of(targets@) =~= self.servers()) by {
            assert forall|i: int| 0 <= i < targets@.len() implies targets@[i]@
                == self.servers@[i]@ by {
                assert(vstd::pervasive::cloned::<String>(self.servers@[i], targets@[i]));
            }
        }
        targets
    }

    fn send(&self, query: &DNSQuery, replies: Vec<Option<DnsAnswer>>) -> (answer: Option<DnsAnswer>) {
        match take_first_reply(replies) {
            Some(answer) => Some(answer),
            None => Some(crate::handler::server_group::failure_for(query)),
        }
    }
}

} // verus!
