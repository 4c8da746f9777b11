//! The strategy that sends every query to the server that was fastest when
//! the servers were last measured.

use vstd::prelude::*;
use crate::cache::limit_map::names_of;
use crate::handler::server_group::{first_reply, ServerSender};
use crate::protocol::answer::{DnsAnswer, DnsAnswerView};
use crate::protocol::query::{DNSQuery, DNSQueryView};

verus! {

/// The name that the servers are measured with.
pub const PROBE_DOMAIN: &'static str = "www.baidu.com";

/// The servers and which of them is the fastest.
#[derive(Debug)]
pub struct FastServerSender {
    servers: Vec<String>,
    fast_server: usize,
}

impl FastServerSender {
    /// The servers, in the order of the configuration.
    pub closed spec fn servers(&self) -> Seq<Seq<char>> {
        names_of(self.servers@)
    }

    /// The place of the fastest server among the servers.
    pub closed spec fn fastest(&self) -> int {
        self.fast_server as int
    }

    /// The fastest server is one of the servers.
    pub open spec fn well_formed(&self) -> bool {
        0 <= self.fastest() < self.servers().len()
    }

    /// Starts with the first server as the fastest; there must be a server.
    pub fn from(servers: Vec<String>) -> (sender: Option<Self>)
        ensures
            sender is Some <==> servers@.len() > 0,
            sender matches Some(s) ==> s.well_formed() && s.servers() == names_of(servers@)
                && s.fastest() == 0,
    {
        if servers.len() == 0 {
            return None;
        }
        Some(FastServerSender { servers, fast_server: 0 })
    }

    /// The query that the servers are measured with, under the id `id`.
    pub fn probe_query(&self, id: u16) -> (query: DNSQuery)
        ensures
            query@ == DNSQueryView::asking(id, PROBE_DOMAIN@),
    {
        DNSQuery::from_domain(PROBE_DOMAIN, id)
    }

    /// All servers: those that a measurement sends its query to.
    pub fn benchmark_targets(&self) -> (targets: Vec<String>)
        ensures
            names_of(targets@) == self.servers(),
    {
        let targets = self.servers.clone();
        assert(names_of(targets@) =~= self.servers()) by {
            assert forall|i: int| 0 <= i < targets@.len() implies targets@[i]@
                == self.servers@[i]@ by {
                assert(vstd::pervasive::cloned::<String>(self.servers@[i], targets@[i]));
            }
        }
        targets
    }

    /// Makes the server at `index` the fastest: the one that answered a
    /// measurement first. An index past the servers changes nothing.
    pub fn preferred_dns_server(&mut self, index: usize)
        requires
            old(self).well_formed(),
        ensures
            final(self).well_formed(),
            final(self).servers() == old(self).servers(),
            final(self).fastest() == if index < old(self).servers().len() {
                index as int
            } else {
                old(self).fastest()
            },
    {
        if index < self.servers.len() {
            self.fast_server = index;
        }
    }
}

impl ServerSender for FastServerSender {
    open spec fn ready(&self) -> bool {
        self.well_formed()
    }

    open spec fn targets_view(&self) -> Seq<Seq<char>> {
        seq![self.servers()[self.fastest()]]
    }

    open spec fn concluded(&self, query: DNSQueryView, replies: Seq<Option<DnsAnswerView>>) -> Option<
        DnsAnswerView,
    > {
        first_reply(replies)
    }

    /// One server is asked, so there is nothing to cut short.
    open spec fn settled(&self, replies: Seq<Option<DnsAnswerView>>) -> bool {
        false
    }

    fn enough(&self, replies: &Vec<Option<DnsAnswer>>) -> (stop: bool) {
        false
    }

    fn targets(&self) -> (targets: Vec<String>) {
        let mut targets: Vec<String> = Vec::new();
        targets.push(self.servers[self.fast_server].clone());
        assert(names_of(targets@) =~= self.targets_view());
        targets
    }

    fn send(&self, query: &DNSQuery, replies: Vec<Option<DnsAnswer>>) -> (answer: Option<DnsAnswer>) {
        crate::handler::server_group::take_first_reply(replies)
    }
}

} // verus!
