//! The upstream dispatcher: which servers a query goes to and what is made
//! of what comes back.

use vstd::prelude::*;
use crate::cache::limit_map::names_of;
use crate::protocol::answer::failure::FailureAnswer;
use crate::protocol::answer::{DnsAnswer, DnsAnswerView};
use crate::protocol::query::{DNSQuery, DNSQueryView};

pub mod combine_server_sender;
pub mod fast_server_sender;
pub mod prefer_server_sender;
pub mod query_executor;

pub use combine_server_sender::CombineServerSender;
pub use fast_server_sender::FastServerSender;
pub use prefer_server_sender::PreferServerSender;
pub use query_executor::QueryExecutor;
use query_executor::name_of_query;

verus! {

/// What each reply of `replies` holds.
pub open spec fn reply_views(replies: Seq<Option<DnsAnswer>>) -> Seq<Option<DnsAnswerView>> {
    Seq::new(replies.len(), |i: int| query_executor::reply_view(replies[i]))
}

/// The first answer among `replies`; a reply is `None` where the server
/// could not be asked or heard.
pub open spec fn first_reply(replies: Seq<Option<DnsAnswerView>>) -> Option<DnsAnswerView>
    decreases replies.len(),
{
    if replies.len() == 0 {
        None
    } else if replies[0] is Some {
        replies[0]
    } else {
        first_reply(replies.skip(1))
    }
}

/// A strategy of choosing among the upstream servers.
pub trait ServerSender {
    /// What the strategy needs to hold to be used.
    spec fn ready(&self) -> bool;

    /// The servers that a query is sent to.
    spec fn targets_view(&self) -> Seq<Seq<char>>;

    /// What is made of the `replies` to `query`, which are given in the
    /// order in which they came in; nothing where the query stays
    /// unanswered.
    spec fn concluded(&self, query: DNSQueryView, replies: Seq<Option<DnsAnswerView>>) -> Option<
        DnsAnswerView,
    >;

    /// Whether the `replies` that came in so far settle the query, so that
    /// the replies still to come are not waited for.
    spec fn settled(&self, replies: Seq<Option<DnsAnswerView>>) -> bool;

    /// The servers that a query is sent to.
    fn targets(&self) -> (targets: Vec<String>)
        requires
            self.ready(),
        ensures
            names_of(targets@) == self.targets_view(),
    ;

    /// Whether to stop waiting once `replies` have come in.
    fn enough(&self, replies: &Vec<Option<DnsAnswer>>) -> (stop: bool)
        requires
            self.ready(),
        ensures
            stop == self.settled(reply_views(replies@)),
    ;

    /// What is made of the `replies` to `query`.
    fn send(&self, query: &DNSQuery, replies: Vec<Option<DnsAnswer>>) -> (answer: Option<DnsAnswer>)
        requires
            self.ready(),
        ensures
            query_executor::reply_view(answer) == self.concluded(query@, reply_views(replies@)),
    ;
}

/// The failure answer that echoes the id and the name of `query`.
pub fn failure_for(query: &DNSQuery) -> (answer: DnsAnswer)
    ensures
        answer@ == DnsAnswerView::Failure(
            FailureAnswer::made_for(query@.header.id, name_of_query(query@)),
        ),
{
    let executor = QueryExecutor::create();
    DnsAnswer::Failure(FailureAnswer::new(query.get_id(), executor.query_name(query)))
}

/// Whether there is an answer among `replies`.
pub fn has_reply(replies: &Vec<Option<DnsAnswer>>) -> (found: bool)
    ensures
        found == first_reply(reply_views(replies@)) is Some,
{
    let ghost all = reply_views(replies@);
    let n = replies.len();
    let mut i: usize = 0;
    assert(all.skip(0) =~= all);
    while i < n
        invariant
            n == replies@.len(),
            i <= n,
            all == reply_views(replies@),
            first_reply(all) == first_reply(all.skip(i as int)),
        decreases n - i,
    {
        let ghost rest = all.skip(i as int);
        assert(rest[0] == query_executor::reply_view(replies@[i as int]));
        assert(rest.skip(1) =~= all.skip(i + 1));
        if replies[i].is_some() {
            return true;
        }
        i = i + 1;
    }
    assert(all.skip(n as int).len() == 0);
    false
}

/// Once there is an answer among the replies, the first answer stays the
/// same whatever comes in after them.
pub proof fn lemma_first_reply_stays(
    replies: Seq<Option<DnsAnswerView>>,
    later: Seq<Option<DnsAnswerView>>,
)
    requires
        first_reply(replies) is Some,
    ensures
        first_reply(replies + later) == first_reply(replies),
    decreases replies.len(),
{
    if replies.len() > 0 {
        assert((replies + later)[0] == replies[0]);
        if replies[0] is None {
            assert((replies + later).skip(1) =~= replies.skip(1) + later);
            lemma_first_reply_stays(replies.skip(1), later);
        }
    }
}

/// The first answer among `replies`.
pub fn take_first_reply(replies: Vec<Option<DnsAnswer>>) -> (answer: Option<DnsAnswer>)
    ensures
        query_executor::reply_view(answer) == first_reply(reply_views(replies@)),
{
    let ghost all = reply_views(replies@);
    let mut pending = replies;
    let n = pending.len();
    let mut i: usize = 0;
    assert(all.skip(0) =~= all);
    while i < n
        invariant
            n == pending@.len(),
            i <= n,
            all.len() == n,
            all == reply_views(replies@),
            forall|k: int| i <= k < n ==> (#[trigger] reply_views(pending@)[k]) == all[k],
            first_reply(all) == first_reply(all.skip(i as int)),
        decreases n - i,
    {
        let ghost rest = all.skip(i as int);
        assert(rest[0] == all[i as int]);
        assert(rest.skip(1) =~= all.skip(i + 1));
        assert(reply_views(pending@)[i as int] == all[i as int]);
        let mut reply: Option<DnsAnswer> = None;
        let ghost before = reply_views(pending@);
        std::mem::swap(&mut reply, &mut pending[i]);
        proof {
            assert forall|k: int| i < k < n implies (#[trigger] reply_views(pending@)[k])
                == all[k] by {
                assert(before[k] == all[k]);
            }
        }
        if reply.is_some() {
            return reply;
        }
        i = i + 1;
    }
    assert(all.skip(n as int).len() == 0);
    None
}

/// The dispatcher's strategy, as the configuration names it.
#[derive(Debug)]
pub enum ServerGroup {
    Fast(FastServerSender),
    Prefer(PreferServerSender),
    Combine(CombineServerSender),
}

impl ServerSender for ServerGroup {
    open spec fn ready(&self) -> bool {
        match self {
            ServerGroup::Fast(sender) => sender.ready(),
            ServerGroup::Prefer(sender) => sender.ready(),
            ServerGroup::Combine(sender) => sender.ready(),
        }
    }

    open spec fn targets_view(&self) -> Seq<Seq<char>> {
        match self {
            ServerGroup::Fast(sender) => sender.targets_view(),
            ServerGroup::Prefer(sender) => sender.targets_view(),
            ServerGroup::Combine(sender) => sender.targets_view(),
        }
    }

    open spec fn concluded(&self, query: DNSQueryView, replies: Seq<Option<DnsAnswerView>>) -> Option<
        DnsAnswerView,
    > {
        match self {
            ServerGroup::Fast(sender) => sender.concluded(query, replies),
            ServerGroup::Prefer(sender) => sender.concluded(query, replies),
            ServerGroup::Combine(sender) => sender.concluded(query, replies),
        }
    }

    open spec fn settled(&self, replies: Seq<Option<DnsAnswerView>>) -> bool {
        match self {
            ServerGroup::Fast(sender) => sender.settled(replies),
            ServerGroup::Prefer(sender) => sender.settled(replies),
            ServerGroup::Combine(sender) => sender.settled(replies),
        }
    }

    fn enough(&self, replies: &Vec<Option<DnsAnswer>>) -> (stop: bool) {
        match self {
            ServerGroup::Fast(sender) => sender.enough(replies),
            ServerGroup::Prefer(sender) => sender.enough(replies),
            ServerGroup::Combine(sender) => sender.enough(replies),
        }
    }

    fn targets(&self) -> (targets: Vec<String>) {
        match self {
            ServerGroup::Fast(sender) => sender.targets(),
            ServerGroup::Prefer(sender) => sender.targets(),
            ServerGroup::Combine(sender) => sender.targets(),
        }
    }

    fn send(&self, query: &DNSQuery, replies: Vec<Option<DnsAnswer>>) -> (answer: Option<DnsAnswer>) {
        match self {
            ServerGroup::Fast(sender) => sender.send(query, replies),
            ServerGroup::Prefer(sender) => sender.send(query, replies),
            ServerGroup::Combine(sender) => sender.send(query, replies),
        }
    }
}

impl ServerGroup {
    /// The dispatcher for `servers` with the strategy that `strategy`
    /// names: 0 for the fastest server, 1 for the race, 2 for the join.
    /// There is none for any other number, nor for the fastest of no
    /// servers.
    pub fn from(servers: Vec<String>, strategy: usize) -> (group: Option<Self>)
        ensures
            group is Some <==> (strategy == 0 && servers@.len() > 0) || strategy == 1 || strategy
                == 2,
            group matches Some(g) ==> g.ready() && match g {
                ServerGroup::Fast(sender) => strategy == 0 && sender.servers() == names_of(
                    servers@,
                ) && sender.fastest() == 0,
                ServerGroup::Prefer(sender) => strategy == 1 && sender.servers() == names_of(
                    servers@,
                ),
                ServerGroup::Combine(sender) => strategy == 2 && sender.servers() == names_of(
                    servers@,
                ),
            },
    {
        if strategy == 0 {
            match FastServerSender::from(servers) {
                Some(sender) => Some(ServerGroup::Fast(sender)),
                None => None,
            }
        } else if strategy == 1 {
            Some(ServerGroup::Prefer(PreferServerSender::from(servers)))
        } else if strategy == 2 {
            Some(ServerGroup::Combine(CombineServerSender::from(servers)))
        } else {
            None
        }
    }

    /// What is made of the `replies` to `query`.
    pub fn send_query(&self, query: &DNSQuery, replies: Vec<Option<DnsAnswer>>) -> (answer: Option<
        DnsAnswer,
    >)
        requires
            self.ready(),
        ensures
            query_executor::reply_view(answer) == self.concluded(query@, reply_views(replies@)),
    {
        self.send(query, replies)
    }
}

} // verus!
