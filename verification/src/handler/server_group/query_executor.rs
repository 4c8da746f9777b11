//! One query to one upstream server: the id it travels under, the bytes
//! that are sent, and the answer that goes back to the caller.

use vstd::prelude::*;
use crate::protocol::answer::failure::FailureAnswer;
use crate::protocol::answer::{answer_of, Answer, DnsAnswer, DnsAnswerView};
use crate::protocol::header::{u16_at, Header};
use crate::protocol::message::{DNSAnswer, DNSAnswerView};
use crate::protocol::answer::failure::FLAGS_FAILURE;
use crate::cursor::Cursor;
use crate::protocol::query::{DNSQuery, DNSQueryView};
use crate::protocol::ParseError;
use crate::system::{id_after, next_id};

verus! {

/// For how many seconds an answer is waited for.
pub const REPLY_TIMEOUT_SECS: u64 = 3;

/// The name that a query is about: that of its first question, the empty
/// name where it asks none.
pub open spec fn name_of_query(query: DNSQueryView) -> Seq<char> {
    if query.questions.len() > 0 {
        query.questions[0].name
    } else {
        Seq::<char>::empty()
    }
}

/// What the caller gets for `query`: the answer that came back, bearing
/// the id of the query, or a failure answer that echoes the id and the name
/// of the query where none came back in time.
pub open spec fn delivered(query: DNSQueryView, reply: Option<DnsAnswerView>) -> DnsAnswerView {
    match reply {
        Some(answer) => answer.with_id(query.header.id),
        None => DnsAnswerView::Failure(
            FailureAnswer::made_for(query.header.id, name_of_query(query)),
        ),
    }
}

/// What the caller gets for a `query` that is only passed on: the answer
/// that came back, record by record, bearing the id of the query, or an
/// answer without records that reports a server failure where none came
/// back in time.
pub open spec fn passed_back(query: DNSQueryView, reply: Option<DNSAnswerView>) -> DNSAnswerView {
    match reply {
        Some(answer) => DNSAnswerView {
            header: Header { id: query.header.id, ..answer.header },
            ..answer
        },
        None => DNSAnswerView::to_query(query, FLAGS_FAILURE),
    }
}

/// What each datagram of `arrived` holds.
pub open spec fn datagram_views(arrived: Seq<Vec<u8>>) -> Seq<Seq<u8>> {
    Seq::new(arrived.len(), |i: int| arrived[i]@)
}

/// The answer of the first datagram of `arrived` that can be read as one;
/// none where none of them can.
pub open spec fn first_readable(arrived: Seq<Seq<u8>>) -> Option<DNSAnswerView>
    decreases arrived.len(),
{
    if arrived.len() == 0 {
        None
    } else {
        match DNSAnswerView::read(arrived[0]) {
            Ok(answer) => Some(answer),
            Err(_) => first_readable(arrived.skip(1)),
        }
    }
}

/// Once a datagram that can be read has come in, the datagrams that come
/// in after it change nothing.
pub proof fn lemma_first_readable_stays(arrived: Seq<Seq<u8>>, later: Seq<Seq<u8>>)
    requires
        first_readable(arrived) is Some,
    ensures
        first_readable(arrived + later) == first_readable(arrived),
    decreases arrived.len(),
{
    if arrived.len() > 0 {
        assert((arrived + later)[0] == arrived[0]);
        if DNSAnswerView::read(arrived[0]) is Err {
            assert((arrived + later).skip(1) =~= arrived.skip(1) + later);
            lemma_first_readable_stays(arrived.skip(1), later);
        }
    }
}

/// What an `Option<DNSAnswer>` holds.
pub open spec fn raw_reply_view(reply: Option<DNSAnswer>) -> Option<DNSAnswerView> {
    match reply {
        Some(answer) => Some(answer@),
        None => None,
    }
}

/// What an `Option<DnsAnswer>` holds.
pub open spec fn reply_view(reply: Option<DnsAnswer>) -> Option<DnsAnswerView> {
    match reply {
        Some(answer) => Some(answer@),
        None => None,
    }
}

/// The steps of sending one query to one upstream server.
#[derive(Debug, Clone, Copy)]
pub struct QueryExecutor;

impl QueryExecutor {
    pub fn create() -> (executor: Self) {
        QueryExecutor
    }

    /// Takes the next transaction id from `counter` and makes the bytes
    /// that `query` is sent as under that id.
    pub fn exec(&self, query: &DNSQuery, counter: &mut u16) -> (sent: (u16, Vec<u8>))
        ensures
            sent.0 == *old(counter),
            *final(counter) == id_after(*old(counter)),
            sent.1@ == query@.wire_with_id(sent.0),
    {
        let id = next_id(counter);
        let bytes = query.to_u8_with_id(id);
        (id, bytes)
    }

    /// The name that `query` is about.
    pub fn query_name(&self, query: &DNSQuery) -> (name: String)
        ensures
            name@ == name_of_query(query@),
    {
        if query.question_count() > 0 {
            query.get_readable_domain()
        } else {
            String::new()
        }
    }

    /// What the caller gets for `query` once the wait is over: `reply` is
    /// the answer that came back, or nothing after the time allowed.
    pub fn conclude(&self, query: &DNSQuery, reply: Option<DnsAnswer>) -> (answer: DnsAnswer)
        ensures
            answer@ == delivered(query@, reply_view(reply)),
            answer.id_of() == query@.header.id,
    {
        let client_query_id = query.get_id();
        match reply {
            Some(answer) => {
                let mut answer = answer;
                answer.set_id(client_query_id);
                answer
            },
            None => DnsAnswer::Failure(
                FailureAnswer::new(client_query_id, self.query_name(query)),
            ),
        }
    }

    /// The transaction id of a datagram that came back from upstream, by
    /// which the query that it answers is found; none where the datagram
    /// is shorter than a header.
    pub fn reply_id(&self, buf: &[u8]) -> (id: Option<u16>)
        ensures
            match id {
                Some(found) => buf@.len() >= 12 && found == u16_at(buf@, 0),
                None => buf@.len() < 12,
            },
    {
        if buf.len() < 12 {
            return None;
        }
        let mut cursor = Cursor::form(vstd::slice::slice_to_vec(buf));
        match Header::from(&mut cursor) {
            Ok(header) => Some(header.id),
            Err(_) => None,
        }
    }

    /// What the caller gets for a `query` that is only passed on, once the
    /// wait is over: `reply` is the answer that came back, or nothing
    /// after the time allowed.
    pub fn conclude_forward(&self, query: &DNSQuery, reply: Option<DNSAnswer>) -> (answer: DNSAnswer)
        ensures
            answer@ == passed_back(query@, raw_reply_view(reply)),
            answer@.header.id == query@.header.id,
    {
        match reply {
            Some(answer) => {
                let mut answer = answer;
                answer.set_id(query.get_id());
                answer
            },
            None => DNSAnswer::from_query_with_failure(query),
        }
    }

    /// The answer of the first datagram of `arrived` that can be read as
    /// one. The datagrams are those that came back for a query that is only
    /// passed on, in the order in which they came in.
    pub fn first_readable_of(&self, arrived: &Vec<Vec<u8>>) -> (found: Option<DNSAnswer>)
        ensures
            raw_reply_view(found) == first_readable(datagram_views(arrived@)),
    {
        let ghost all = datagram_views(arrived@);
        let n = arrived.len();
        let mut i: usize = 0;
        assert(all.skip(0) =~= all);
        while i < n
            invariant
                n == arrived@.len(),
                i <= n,
                all == datagram_views(arrived@),
                first_readable(all) == first_readable(all.skip(i as int)),
            decreases n - i,
        {
            let ghost rest = all.skip(i as int);
            assert(rest[0] == arrived@[i as int]@);
            assert(rest.skip(1) =~= all.skip(i + 1));
            match DNSAnswer::from(vstd::slice::slice_to_vec(arrived[i].as_slice())) {
                Ok(answer) => {
                    return Some(answer);
                },
                Err(_) => {},
            }
            i = i + 1;
        }
        assert(all.skip(n as int).len() == 0);
        None
    }

    /// Whether to stop waiting for a query that is only passed on, once
    /// the datagrams `arrived` have come in: as soon as one of them can be
    /// read.
    pub fn forward_enough(&self, arrived: &Vec<Vec<u8>>) -> (stop: bool)
        ensures
            stop == first_readable(datagram_views(arrived@)) is Some,
    {
        self.first_readable_of(arrived).is_some()
    }

    /// What the caller gets for a `query` that is only passed on, once the
    /// wait is over: `arrived` are the datagrams that came back, in the
    /// order in which they came in; the first that can be read is the
    /// answer.
    pub fn conclude_forward_first(&self, query: &DNSQuery, arrived: &Vec<Vec<u8>>) -> (answer:
        DNSAnswer)
        ensures
            answer@ == passed_back(query@, first_readable(datagram_views(arrived@))),
            answer@.header.id == query@.header.id,
    {
        let reply = self.first_readable_of(arrived);
        self.conclude_forward(query, reply)
    }

    /// Reads a datagram that came back from upstream: the id that tells
    /// which query it answers, and the answer.
    pub fn recv(&self, buf: Vec<u8>) -> (r: Result<(u16, DnsAnswer), ParseError>)
        ensures
            match r {
                Ok((id, answer)) => answer_of(buf@) == Ok::<DnsAnswerView, ParseError>(answer@)
                    && id == answer.id_of(),
                Err(e) => answer_of(buf@) == Err::<DnsAnswerView, ParseError>(e),
            },
    {
        match DnsAnswer::from(buf) {
            Ok(answer) => Ok((answer.get_id(), answer)),
            Err(e) => Err(e),
        }
    }
}

} // verus!
