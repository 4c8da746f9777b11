//! The chain of stages that a query passes, and what each step of the way
//! calls for.

use vstd::prelude::*;
use crate::cache::strategy::{CacheAction, CacheActionView};
use crate::cache::{CachePool, CachePoolView};
use crate::config::Config;
use crate::handler::cache_handler::{cache_step, CacheHandler};
use crate::handler::domain_filter::{filter_answer, DomainFilter};
use crate::handler::ip_maker::{address_views, candidates_of, chosen, IpChoiceMaker, IpFirstMaker};
use crate::handler::legal_checker::LegalChecker;
use crate::protocol::answer::soa::{SoaAnswerView, DEFAULT_SOA_TTL};
use crate::protocol::answer::{DnsAnswer, DnsAnswerView};
use crate::protocol::query::{DNSQuery, DNSQueryView};

pub mod cache_handler;
pub mod domain_filter;
pub mod ip_maker;
pub mod legal_checker;
pub mod query_sender;
pub mod server_group;

verus! {

/// A stage of the chain.
#[derive(Debug, Clone, Copy, PartialEq, Eq, Structural)]
pub enum Stage {
    DomainFilter,
    LegalChecker,
    CacheHandler,
    IpChoiceMaker,
    IpFirstMaker,
    QuerySender,
}

/// The stages that a query has still to pass, the next one first.
#[derive(Debug)]
pub struct Clain {
    pub funcs: Vec<Stage>,
}

impl Clain {
    /// A chain without stages.
    pub fn new() -> (chain: Self)
        ensures
            chain.funcs@ == Seq::<Stage>::empty(),
    {
        Clain { funcs: Vec::new() }
    }

    /// Puts `handler` behind the stages of the chain.
    pub fn add(&mut self, handler: Stage)
        ensures
            final(self).funcs@ == old(self).funcs@.push(handler),
    {
        self.funcs.push(handler);
    }

    /// Takes the next stage off the chain; nothing where the chain is at
    /// its end.
    pub fn next(&mut self) -> (stage: Option<Stage>)
        ensures
            match stage {
                Some(first) => old(self).funcs@.len() > 0 && first == old(self).funcs@[0]
                    && final(self).funcs@ == old(self).funcs@.skip(1),
                None => old(self).funcs@.len() == 0 && final(self).funcs@ == old(self).funcs@,
            },
    {
        if self.funcs.len() == 0 {
            return None;
        }
        let first = self.funcs.remove(0);
        assert(self.funcs@ =~= old(self).funcs@.skip(1));
        Some(first)
    }

    /// A chain with the same stages.
    pub fn clone(&self) -> (copy: Self)
        ensures
            copy.funcs@ == self.funcs@,
    {
        let mut vec: Vec<Stage> = Vec::new();
        let n = self.funcs.len();
        let mut i: usize = 0;
        while i < n
            invariant
                n == self.funcs@.len(),
                i <= n,
                vec@ == self.funcs@.take(i as int),
            decreases n - i,
        {
            vec.push(self.funcs[i]);
            i = i + 1;
            assert(vec@ =~= self.funcs@.take(i as int));
        }
        assert(self.funcs@.take(n as int) =~= self.funcs@);
        Clain { funcs: vec }
    }
}

/// The stages of a query, in their order: the filter, the test of what the
/// forwarder answers itself, the cache where it is on, the choice of an
/// address by probe where probes can be sent and of the first address where
/// they cannot, the dispatcher.
pub open spec fn stages_of(cache_on: bool, can_probe: bool) -> Seq<Stage> {
    seq![Stage::DomainFilter, Stage::LegalChecker] + if cache_on {
        seq![Stage::CacheHandler]
    } else {
        Seq::<Stage>::empty()
    } + seq![
        if can_probe {
            Stage::IpChoiceMaker
        } else {
            Stage::IpFirstMaker
        },
        Stage::QuerySender,
    ]
}

/// What the way of a query through the chain calls for.
#[derive(Debug)]
pub enum Step {
    /// Send this answer to the client.
    Reply(DnsAnswer),
    /// Send this answer to the client; in the background, ask upstream,
    /// let `choose` leave one address in what comes back, and keep it in
    /// the cache.
    ReplyAndRefresh { answer: DnsAnswer, choose: Option<Stage> },
    /// Ask upstream; let `choose` leave one address in what comes back,
    /// keep it in the cache where `keep` says so, and send it to the
    /// client.
    Ask { keep: bool, choose: Option<Stage> },
    /// Pass the query upstream as it is and pass back what comes, record
    /// by record, past the cache and the choice of an address.
    Forward,
}

/// What a [`Step`] holds.
pub enum StepView {
    Reply(DnsAnswerView),
    ReplyAndRefresh { answer: DnsAnswerView, choose: Option<Stage> },
    Ask { keep: bool, choose: Option<Stage> },
    Forward,
}

impl View for Step {
    type V = StepView;

    open spec fn view(&self) -> StepView {
        match self {
            Step::Reply(answer) => StepView::Reply(answer@),
            Step::ReplyAndRefresh { answer, choose } => StepView::ReplyAndRefresh {
                answer: answer@,
                choose: *choose,
            },
            Step::Ask { keep, choose } => StepView::Ask { keep: *keep, choose: *choose },
            Step::Forward => StepView::Forward,
        }
    }
}

/// What an `Option<&CachePool>` holds.
pub open spec fn pool_view(pool: Option<&CachePool>) -> Option<CachePoolView> {
    match pool {
        Some(p) => Some(p@),
        None => None,
    }
}

/// The stage that chooses an address among the stages `stages`: the first
/// of its kind; none where there is none.
pub open spec fn chooser_of(stages: Seq<Stage>) -> Option<Stage>
    decreases stages.len(),
{
    if stages.len() == 0 {
        None
    } else if stages[0] == Stage::IpChoiceMaker || stages[0] == Stage::IpFirstMaker {
        Some(stages[0])
    } else {
        chooser_of(stages.skip(1))
    }
}

/// What the stages `stages` call for at `now` for `query`, where `blocked`
/// are the blocked names and `pool` is the cache: each stage in its turn
/// answers, sends the query upstream, or lets it pass to the next. `keep`
/// and `choose` tell what the stages passed so far have asked to be done
/// with an answer from upstream.
pub open spec fn walk(
    stages: Seq<Stage>,
    blocked: Seq<Seq<char>>,
    pool: Option<CachePoolView>,
    query: DNSQueryView,
    now: u128,
    keep: bool,
    choose: Option<Stage>,
) -> StepView
    decreases stages.len(),
{
    if stages.len() == 0 {
        StepView::Ask { keep, choose }
    } else {
        let rest = stages.skip(1);
        match stages[0] {
            Stage::DomainFilter => match filter_answer(blocked, query) {
                Some(answer) => StepView::Reply(answer),
                None => walk(rest, blocked, pool, query, now, keep, choose),
            },
            Stage::LegalChecker => if !query.supported() {
                StepView::Forward
            } else {
                walk(rest, blocked, pool, query, now, keep, choose)
            },
            Stage::CacheHandler => match pool {
                Some(p) => if query.questions.len() == 0 {
                    walk(rest, blocked, pool, query, now, keep, choose)
                } else {
                    match cache_step(p, query, now) {
                        CacheActionView::Serve(answer) => StepView::Reply(answer),
                        CacheActionView::ServeAndRefresh(answer) => StepView::ReplyAndRefresh {
                            answer,
                            choose: chooser_of(rest),
                        },
                        CacheActionView::Fetch => walk(rest, blocked, pool, query, now, true, choose),
                    }
                },
                None => walk(rest, blocked, pool, query, now, keep, choose),
            },
            Stage::IpChoiceMaker => walk(rest, blocked, pool, query, now, keep, Some(stages[0])),
            Stage::IpFirstMaker => walk(rest, blocked, pool, query, now, keep, Some(stages[0])),
            Stage::QuerySender => StepView::Ask { keep, choose },
        }
    }
}

/// A query for a blocked name is answered by the first stage of the chain,
/// whatever the cache holds and without a word to upstream: with the
/// made-up authority answer that echoes the id and the name of the query.
pub proof fn lemma_blocked_name_is_answered(
    cache_on: bool,
    can_probe: bool,
    blocked: Seq<Seq<char>>,
    pool: Option<CachePoolView>,
    query: DNSQueryView,
    now: u128,
)
    requires
        query.questions.len() > 0,
        crate::filter::blocks(blocked, query.questions[0].name),
    ensures
        walk(stages_of(cache_on, can_probe), blocked, pool, query, now, false, None)
            == StepView::Reply(
            DnsAnswerView::Soa(
                SoaAnswerView::made_up(query.header.id, query.questions[0].name, DEFAULT_SOA_TTL),
            ),
        ),
{
    assert(stages_of(cache_on, can_probe)[0] == Stage::DomainFilter);
}

/// What an `Option<CacheAction>` holds.
pub open spec fn found_view(found: Option<CacheAction>) -> Option<CacheActionView> {
    match found {
        Some(action) => Some(action@),
        None => None,
    }
}

/// What a query does whose name the cache did not serve, so that it was
/// to go upstream and to be kept. `first` tells whether no other query for
/// the name was under way: such a query goes upstream. Any other query
/// waits until the one under way has landed; `found` is what the cache
/// says of its name after the wait, and the query does what that calls
/// for.
pub open spec fn flight_step(
    first: bool,
    found: Option<CacheActionView>,
    choose: Option<Stage>,
) -> StepView {
    if first {
        StepView::Ask { keep: true, choose }
    } else {
        match found {
            Some(CacheActionView::Serve(answer)) => StepView::Reply(answer),
            Some(CacheActionView::ServeAndRefresh(answer)) => StepView::ReplyAndRefresh {
                answer,
                choose,
            },
            _ => StepView::Ask { keep: true, choose },
        }
    }
}

/// The step of a query whose name the cache did not serve: `first` is
/// what the note of queries under way said when the query began, `found`
/// is what the cache says after the wait, nothing for a query that did not
/// wait.
pub fn after_flight(first: bool, found: Option<CacheAction>, choose: Option<Stage>) -> (step: Step)
    ensures
        step@ == flight_step(first, found_view(found), choose),
{
    if first {
        return Step::Ask { keep: true, choose };
    }
    match found {
        Some(CacheAction::Serve(answer)) => Step::Reply(answer),
        Some(CacheAction::ServeAndRefresh(answer)) => Step::ReplyAndRefresh { answer, choose },
        _ => Step::Ask { keep: true, choose },
    }
}

/// What is to be done with an answer from upstream before it is kept and
/// sent.
#[derive(Debug)]
pub enum Choice {
    /// Nothing more: this is the answer.
    Done(DnsAnswer),
    /// Probe these addresses and keep in the answer the one that comes
    /// back first.
    Probe(DnsAnswer, Vec<[u8; 4]>),
}

/// What a [`Choice`] holds.
pub enum ChoiceView {
    Done(DnsAnswerView),
    Probe(DnsAnswerView, Seq<Seq<u8>>),
}

impl View for Choice {
    type V = ChoiceView;

    open spec fn view(&self) -> ChoiceView {
        match self {
            Choice::Done(answer) => ChoiceView::Done(answer@),
            Choice::Probe(answer, ips) => ChoiceView::Probe(answer@, address_views(ips@)),
        }
    }
}

/// What the stage `choose` makes of `answer`: the stage that keeps the
/// first address is done at once; the stage that probes asks for probes
/// where there is more than one address; without a stage the answer stays
/// as it is.
pub open spec fn choice_of(choose: Option<Stage>, answer: DnsAnswerView) -> ChoiceView {
    match choose {
        Some(Stage::IpFirstMaker) => ChoiceView::Done(chosen(answer, 0)),
        Some(Stage::IpChoiceMaker) => if candidates_of(answer).len() > 0 {
            ChoiceView::Probe(answer, candidates_of(answer))
        } else {
            ChoiceView::Done(answer)
        },
        _ => ChoiceView::Done(answer),
    }
}

/// What of the configuration decides the way of a query.
#[derive(Debug, Clone, Copy)]
pub struct HandlerContext {
    cache_on: bool,
    can_probe: bool,
}

impl HandlerContext {
    /// Whether the cache stage is part of the chain.
    pub closed spec fn cache_on(&self) -> bool {
        self.cache_on
    }

    /// Whether the address is chosen by probe.
    pub closed spec fn can_probe(&self) -> bool {
        self.can_probe
    }

    /// The context of `config`; `pinger` tells whether probes can be sent.
    /// The address is chosen by probe only where the configuration asks
    /// for it and probes can be sent.
    pub fn from(config: &Config, pinger: bool) -> (context: Self)
        ensures
            context.cache_on() == config.cache_on,
            context.can_probe() == (config.ip_choose_strategy != 0 && pinger),
    {
        HandlerContext {
            cache_on: config.cache_on,
            can_probe: config.ip_choose_strategy != 0 && pinger,
        }
    }

    /// The chain of stages for one query.
    pub fn chain(&self) -> (chain: Clain)
        ensures
            chain.funcs@ == stages_of(self.cache_on(), self.can_probe()),
    {
        let mut query_clain = Clain::new();
        query_clain.add(Stage::DomainFilter);
        query_clain.add(Stage::LegalChecker);
        if self.cache_on {
            query_clain.add(Stage::CacheHandler);
        }
        if self.can_probe {
            query_clain.add(Stage::IpChoiceMaker);
        } else {
            query_clain.add(Stage::IpFirstMaker);
        }
        query_clain.add(Stage::QuerySender);
        assert(query_clain.funcs@ =~= stages_of(self.cache_on(), self.can_probe()));
        query_clain
    }

    /// What the chain calls for at `now` for `query`. A query for a blocked
    /// name is answered here, whatever the cache holds.
    pub fn handle_query(
        &self,
        filter: &DomainFilter,
        pool: Option<&CachePool>,
        query: &DNSQuery,
        now: u128,
    ) -> (step: Step)
        ensures
            step@ == walk(
                stages_of(self.cache_on(), self.can_probe()),
                filter.blocked(),
                pool_view(pool),
                query@,
                now,
                false,
                None,
            ),
            filter_answer(filter.blocked(), query@) matches Some(answer) ==> step@
                == StepView::Reply(answer),
    {
        let chain = self.chain();
        proof {
            assert(chain.funcs@[0] == Stage::DomainFilter);
        }
        run_chain(chain, filter, pool, query, now)
    }

    /// What is to be done with `answer`, which came from upstream, before
    /// it is kept and sent.
    pub fn after_upstream(&self, choose: Option<Stage>, answer: DnsAnswer) -> (choice: Choice)
        ensures
            choice@ == choice_of(choose, answer@),
    {
        match choose {
            Some(Stage::IpFirstMaker) => Choice::Done(IpFirstMaker.handle(answer)),
            Some(Stage::IpChoiceMaker) => {
                let ips = IpChoiceMaker::new().candidates(&answer);
                if ips.len() > 0 {
                    Choice::Probe(answer, ips)
                } else {
                    Choice::Done(answer)
                }
            },
            _ => Choice::Done(answer),
        }
    }
}

/// Walks `chain` for `query` at `now`.
pub fn run_chain(
    chain: Clain,
    filter: &DomainFilter,
    pool: Option<&CachePool>,
    query: &DNSQuery,
    now: u128,
) -> (step: Step)
    ensures
        step@ == walk(chain.funcs@, filter.blocked(), pool_view(pool), query@, now, false, None),
{
    let ghost all = chain.funcs@;
    let mut ahead = chain;
    let mut keep = false;
    let mut choose: Option<Stage> = None;
    loop
        invariant
            all == chain.funcs@,
            walk(all, filter.blocked(), pool_view(pool), query@, now, false, None) == walk(
                ahead.funcs@,
                filter.blocked(),
                pool_view(pool),
                query@,
                now,
                keep,
                choose,
            ),
        decreases ahead.funcs@.len(),
    {
        let stage = match ahead.next() {
            Some(stage) => stage,
            None => { return Step::Ask { keep, choose }; },
        };
        match stage {
            Stage::DomainFilter => {
                if let Some(answer) = filter.handle(query) {
                    return Step::Reply(answer);
                }
            },
            Stage::LegalChecker => {
                if LegalChecker::new().handle(query) {
                    return Step::Forward;
                }
            },
            Stage::CacheHandler => {
                if let Some(p) = pool {
                    if query.question_count() > 0 {
                        match CacheHandler::new().handle(p, query, now) {
                            CacheAction::Serve(answer) => {
                                return Step::Reply(answer);
                            },
                            CacheAction::ServeAndRefresh(answer) => {
                                let later = chooser(&ahead);
                                return Step::ReplyAndRefresh { answer, choose: later };
                            },
                            CacheAction::Fetch => {
                                keep = true;
                            },
                        }
                    }
                }
            },
            Stage::IpChoiceMaker => {
                choose = Some(stage);
            },
            Stage::IpFirstMaker => {
                choose = Some(stage);
            },
            Stage::QuerySender => {
                return Step::Ask { keep, choose };
            },
        }
    }
}

/// The stage of `chain` that chooses an address.
pub fn chooser(chain: &Clain) -> (stage: Option<Stage>)
    ensures
        stage == chooser_of(chain.funcs@),
{
    let n = chain.funcs.len();
    let mut i: usize = 0;
    assert(chain.funcs@.skip(0) =~= chain.funcs@);
    while i < n
        invariant
            n == chain.funcs@.len(),
            i <= n,
            chooser_of(chain.funcs@) == chooser_of(chain.funcs@.skip(i as int)),
        decreases n - i,
    {
        let ghost rest = chain.funcs@.skip(i as int);
        assert(rest[0] == chain.funcs@[i as int]);
        assert(rest.skip(1) =~= chain.funcs@.skip(i + 1));
        let stage = chain.funcs[i];
        if stage == Stage::IpChoiceMaker || stage == Stage::IpFirstMaker {
            return Some(stage);
        }
        i = i + 1;
    }
    None
}

} // verus!
