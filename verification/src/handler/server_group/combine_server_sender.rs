//! The strategy that asks all servers and joins the addresses that they
//! answer with.

use vstd::prelude::*;
use crate::cache::limit_map::names_of;
use crate::handler::server_group::query_executor::name_of_query;
use crate::handler::server_group::{failure_for, reply_views, ServerSender};
use crate::protocol::answer::failure::FailureAnswer;
use crate::protocol::answer::ipv4::{Ipv4Answer, Ipv4AnswerView, MAX_RECORDS};
use crate::protocol::answer::{DnsAnswer, DnsAnswerView};
use crate::protocol::query::{DNSQuery, DNSQueryView};

verus! {

/// The servers whose answers are joined.
#[derive(Debug)]
pub struct CombineServerSender {
    servers: Vec<String>,
}

/// The addresses of `replies` joined to `known`, reply by reply: a reply
/// that carries addresses for the same name adds those that are not held
/// yet; any other reply adds nothing.
pub open spec fn joined(known: Ipv4AnswerView, replies: Seq<Option<DnsAnswerView>>) -> Ipv4AnswerView
    decreases replies.len(),
{
    if replies.len() == 0 {
        known
    } else {
        let before = joined(known, replies.drop_last());
        match replies.last() {
            Some(DnsAnswerView::Ipv4(more)) => before.combined(more),
            _ => before,
        }
    }
}

impl CombineServerSender {
    /// The servers, in the order of the configuration.
    pub closed spec fn servers(&self) -> Seq<Seq<char>> {
        names_of(self.servers@)
    }

    pub fn from(servers: Vec<String>) -> (sender: Self)
        ensures
            sender.servers() == names_of(servers@),
    {
        CombineServerSender { servers }
    }
}

impl ServerSender for CombineServerSender {
    open spec fn ready(&self) -> bool {
        true
    }

    open spec fn targets_view(&self) -> Seq<Seq<char>> {
        self.servers()
    }

    open spec fn concluded(&self, query: DNSQueryView, replies: Seq<Option<DnsAnswerView>>) -> Option<
        DnsAnswerView,
    > {
        let all = joined(Ipv4AnswerView::empty(query.header.id, name_of_query(query)), replies);
        if all.resources.len() == 0 {
            Some(
                DnsAnswerView::Failure(
                    FailureAnswer::made_for(query.header.id, name_of_query(query)),
                ),
            )
        } else {
            Some(DnsAnswerView::Ipv4(all))
        }
    }

    /// Every reply adds to the answer, so all are waited for.
    open spec fn settled(&self, replies: Seq<Option<DnsAnswerView>>) -> bool {
        false
    }

    fn enough(&self, replies: &Vec<Option<DnsAnswer>>) -> (stop: bool) {
        false
    }

    fn targets(&self) -> (targets: Vec<String>) {
        let targets = self.servers.clone();
        assert(names_of(targets@) =~= self.servers()) by {
            assert forall|i: int| 0 <= i < targets@.len() implies targets@[i]@
                == self.servers@[i]@ by {
                assert(vstd::pervasive::cloned::<String>(self.servers@[i], targets@[i]));
            }
        }
        targets
    }

    fn send(&self, query: &DNSQuery, replies: Vec<Option<DnsAnswer>>) -> (answer: Option<DnsAnswer>) {
        let executor = crate::handler::server_group::query_executor::QueryExecutor::create();
        let name = executor.query_name(query);
        let mut ipv4_answer = Ipv4Answer::empty_answer(query.get_id(), name);
        let ghost start = ipv4_answer@;
        let mut replies = replies;
        let ghost all = reply_views(replies@);
        let n = replies.len();
        let mut i: usize = 0;
        assert(all.take(0) =~= Seq::<Option<DnsAnswerView>>::empty());
        while i < n
            invariant
                n == replies@.len(),
                i <= n,
                all.len() == n,
                forall|k: int| i <= k < n ==> (#[trigger] reply_views(replies@)[k]) == all[k],
                ipv4_answer@ == joined(start, all.take(i as int)),
                ipv4_answer@.resources.len() <= MAX_RECORDS,
            decreases n - i,
        {
            proof {
                let upto = all.take(i + 1);
                assert(upto.drop_last() =~= all.take(i as int));
                assert(upto.last() == all[i as int]);
                assert(reply_views(replies@)[i as int] == all[i as int]);
            }
            let mut reply: Option<DnsAnswer> = None;
            let ghost before = reply_views(replies@);
            std::mem::swap(&mut reply, &mut replies[i]);
            proof {
                assert forall|k: int| i < k < n implies (#[trigger] reply_views(replies@)[k])
                    == all[k] by {
                    assert(before[k] == all[k]);
                }
            }
            match reply {
                Some(DnsAnswer::Ipv4(more)) => {
                    ipv4_answer.combine(more);
                },
                _ => {},
            }
            i = i + 1;
        }
        assert(all.take(n as int) =~= all);
        if ipv4_answer.is_empty() {
            Some(failure_for(query))
        } else {
            Some(DnsAnswer::Ipv4(ipv4_answer))
        }
    }
}

} // verus!
