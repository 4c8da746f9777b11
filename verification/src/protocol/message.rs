//! Answers as they come in, record by record: what the forwarder passes
//! back for the queries that it does not answer itself.

use vstd::prelude::*;
use vstd::slice::slice_to_vec;
use crate::bytes::{be_bytes, push_all, write_number, write_u16, write_u32};
use crate::cache::cache_record::ip_record::IpCacheRecordView;
use crate::cache::cache_record::soa_record::SoaCacheRecordView;
use crate::cache::cache_record::{CacheRecord, CacheRecordView, IpCacheRecord, SoaCacheRecord};
use crate::cursor::Cursor;
use crate::protocol::answer::failure::FLAGS_FAILURE;
use crate::protocol::answer::ipv4::MAX_RECORDS;
use crate::protocol::answer::no_such_name::FLAGS_NO_SUCH_NAME;
use crate::protocol::answer::resource::basic::{BasicData as RecordData, BasicDataView as RecordStart};
use crate::protocol::answer::resource::soa::{Soa, SoaView};
use crate::protocol::answer::soa::{DEFAULT_SOA_TTL, FLAGS_OK};
use crate::protocol::header::Header;
use crate::protocol::query::{question_views, questions_wire, DNSQuery, DNSQueryView};
use crate::protocol::question::{Question, QuestionView, CLASS_IN, TYPE_A, TYPE_CNAME, TYPE_SOA};
use crate::protocol::{
    lemma_name_at_bounds, name_at, name_wire, parse_name, wrap_name, ParseError, MAX_JUMPS,
};

verus! {

/// A resource record with its data as bytes. Names inside the data of a
/// canonical-name or start-of-authority record stand without compression.
#[derive(Debug)]
pub struct ResourceRecord {
    name: String,
    _type: u16,
    class: u16,
    ttl: u32,
    data: Vec<u8>,
}

/// What a [`ResourceRecord`] holds.
pub struct ResourceRecordView {
    pub name: Seq<char>,
    pub _type: u16,
    pub class: u16,
    pub ttl: u32,
    pub data: Seq<u8>,
}

impl View for ResourceRecord {
    type V = ResourceRecordView;

    closed spec fn view(&self) -> ResourceRecordView {
        ResourceRecordView {
            name: self.name@,
            _type: self._type,
            class: self.class,
            ttl: self.ttl,
            data: self.data@,
        }
    }
}

impl Clone for ResourceRecord {
    fn clone(&self) -> (copy: Self)
        ensures
            copy@ == self@,
    {
        ResourceRecord {
            name: self.name.clone(),
            _type: self._type,
            class: self.class,
            ttl: self.ttl,
            data: self.data.clone(),
        }
    }
}

/// The data of a record of type `_type` whose `data_len` bytes of data
/// start at `pos` of `packet`: the name without compression for a
/// canonical name; both names without compression and the bytes behind
/// them for a start of authority; the bytes as they stand for any other
/// type.
pub open spec fn data_at(packet: Seq<u8>, pos: int, _type: u16, data_len: u16) -> Result<
    Seq<u8>,
    ParseError,
> {
    let end = pos + data_len;
    if _type == TYPE_CNAME {
        match name_at(packet, pos, MAX_JUMPS as nat) {
            Err(e) => Err(e),
            Ok((name, stop)) => if stop != end {
                Err(ParseError::BadRecordData)
            } else {
                Ok(name)
            },
        }
    } else if _type == TYPE_SOA {
        match name_at(packet, pos, MAX_JUMPS as nat) {
            Err(e) => Err(e),
            Ok((server, after_server)) => match name_at(packet, after_server, MAX_JUMPS as nat) {
                Err(e) => Err(e),
                Ok((mailbox, stop)) => if stop > end {
                    Err(ParseError::BadRecordData)
                } else if end > packet.len() {
                    Err(ParseError::UnexpectedEnd)
                } else {
                    Ok(server + mailbox + packet.subrange(stop, end))
                },
            },
        }
    } else if end > packet.len() {
        Err(ParseError::UnexpectedEnd)
    } else {
        Ok(packet.subrange(pos, end))
    }
}

impl ResourceRecordView {
    /// The record that starts at `pos` of `packet`, and the offset behind
    /// it.
    pub open spec fn read_at(packet: Seq<u8>, pos: int) -> Result<
        (ResourceRecordView, int),
        ParseError,
    > {
        match RecordStart::read_at(packet, pos) {
            Err(e) => Err(e),
            Ok((start, data_pos)) => match data_at(
                packet,
                data_pos,
                start.question._type,
                start.data_len,
            ) {
                Err(e) => Err(e),
                Ok(data) => Ok(
                    (
                        ResourceRecordView {
                            name: start.question.name,
                            _type: start.question._type,
                            class: start.question.class,
                            ttl: start.ttl,
                            data,
                        },
                        data_pos + start.data_len,
                    ),
                ),
            },
        }
    }

    /// The bytes of the record: name, type, class, time to live, the length
    /// of the data in two bytes, the data.
    pub open spec fn wire(self) -> Seq<u8> {
        name_wire(self.name) + be_bytes(self._type as nat, 2) + be_bytes(self.class as nat, 2)
            + be_bytes(self.ttl as nat, 4) + be_bytes(self.data.len(), 2) + self.data
    }

    /// Whether the record holds an IPv4 address.
    pub open spec fn is_address(self) -> bool {
        self._type == TYPE_A
    }
}

impl ResourceRecord {
    /// Reads the record under the cursor.
    pub fn from(cursor: &mut Cursor) -> (r: Result<ResourceRecord, ParseError>)
        ensures
            final(cursor).bytes() == old(cursor).bytes(),
            match r {
                Ok(record) => ResourceRecordView::read_at(
                    old(cursor).bytes(),
                    old(cursor).position() as int,
                ) == Ok::<(ResourceRecordView, int), ParseError>(
                    (record@, final(cursor).position() as int),
                ),
                Err(e) => ResourceRecordView::read_at(
                    old(cursor).bytes(),
                    old(cursor).position() as int,
                ) == Err::<(ResourceRecordView, int), ParseError>(e),
            },
    {
        proof {
            cursor.lemma_len_fits();
        }
        let start = match RecordData::from(cursor) {
            Ok(start) => start,
            Err(e) => { return Err(e); },
        };
        let data_len = start.get_data_len() as usize;
        let data_pos = cursor.get_current_index();
        let _type = start.get_type();
        let data = if _type == TYPE_CNAME {
            let mut name: Vec<u8> = Vec::new();
            match parse_name(cursor, &mut name) {
                Ok(()) => {},
                Err(e) => { return Err(e); },
            }
            assert(name@.skip(0) =~= name@);
            let stop = cursor.get_current_index();
            if stop < data_pos || stop - data_pos != data_len {
                return Err(ParseError::BadRecordData);
            }
            name
        } else if _type == TYPE_SOA {
            let mut vec: Vec<u8> = Vec::new();
            match parse_name(cursor, &mut vec) {
                Ok(()) => {},
                Err(e) => { return Err(e); },
            }
            let ghost server = vec@;
            let ghost after_server = cursor.position() as int;
            assert(server.skip(0) =~= server);
            proof {
                lemma_name_at_bounds(cursor.bytes(), data_pos as int, MAX_JUMPS as nat);
                lemma_name_at_bounds(cursor.bytes(), after_server, MAX_JUMPS as nat);
            }
            match parse_name(cursor, &mut vec) {
                Ok(()) => {},
                Err(e) => { return Err(e); },
            }
            let ghost mailbox = vec@.skip(server.len() as int);
            assert(vec@ =~= server + mailbox);
            let stop = cursor.get_current_index();
            if stop < data_pos || stop - data_pos > data_len {
                return Err(ParseError::BadRecordData);
            }
            let rest = data_len - (stop - data_pos);
            if cursor.remaining() < rest {
                return Err(ParseError::UnexpectedEnd);
            }
            let remained_slice = cursor.take_slice(rest);
            push_all(&mut vec, remained_slice);
            vec
        } else {
            if cursor.remaining() < data_len {
                return Err(ParseError::UnexpectedEnd);
            }
            slice_to_vec(cursor.take_slice(data_len))
        };
        Ok(
            ResourceRecord {
                name: start.get_name().clone(),
                _type,
                class: start.get_class(),
                ttl: start.get_ttl(),
                data,
            },
        )
    }

    /// Whether the record holds an IPv4 address.
    pub fn is_a_record(&self) -> (yes: bool)
        ensures
            yes == self@.is_address(),
    {
        self._type == TYPE_A
    }

    /// The bytes of the record.
    pub fn to_v8_vec(&self) -> (out: Vec<u8>)
        ensures
            out@ == self@.wire(),
    {
        let mut result = wrap_name(&self.name);
        write_u16(&mut result, self._type);
        write_u16(&mut result, self.class);
        write_u32(&mut result, self.ttl);
        write_number(&mut result, self.data.len() as u128, 2);
        push_all(&mut result, self.data.as_slice());
        assert(result@ =~= self@.wire());
        result
    }

    pub fn get_data(&self) -> (data: &Vec<u8>)
        ensures
            data@ == self@.data,
    {
        &self.data
    }

    pub fn get_name(&self) -> (name: &String)
        ensures
            name@ == self@.name,
    {
        &self.name
    }

    pub fn get_type(&self) -> (_type: u16)
        ensures
            _type == self@._type,
    {
        self._type
    }

    pub fn get_ttl(&self) -> (ttl: u32)
        ensures
            ttl == self@.ttl,
    {
        self.ttl
    }
}

/// Whether two runs of bytes are the same.
pub fn same_bytes(left: &Vec<u8>, right: &Vec<u8>) -> (same: bool)
    ensures
        same == (left@ == right@),
{
    if left.len() != right.len() {
        return false;
    }
    let n = left.len();
    let mut i: usize = 0;
    while i < n
        invariant
            n == left@.len(),
            n == right@.len(),
            i <= n,
            forall|k: int| 0 <= k < i ==> left@[k] == right@[k],
        decreases n - i,
    {
        if left[i] != right[i] {
            return false;
        }
        i = i + 1;
    }
    assert(left@ =~= right@);
    true
}

/// What each record of `records` holds.
pub open spec fn record_views(records: Seq<ResourceRecord>) -> Seq<ResourceRecordView> {
    Seq::new(records.len(), |i: int| records[i]@)
}

/// The `count` records that start at `pos` of `packet`, behind `seen`, and
/// the offset behind the last of them.
pub open spec fn records_at(
    seen: Seq<ResourceRecordView>,
    packet: Seq<u8>,
    pos: int,
    count: nat,
) -> Result<(Seq<ResourceRecordView>, int), ParseError>
    decreases count,
{
    if count == 0 {
        Ok((seen, pos))
    } else {
        match ResourceRecordView::read_at(packet, pos) {
            Err(e) => Err(e),
            Ok((record, next)) => records_at(seen.push(record), packet, next, (count - 1) as nat),
        }
    }
}

/// The bytes of `records`, one behind the other.
pub open spec fn records_wire(records: Seq<ResourceRecordView>) -> Seq<u8>
    decreases records.len(),
{
    if records.len() == 0 {
        Seq::<u8>::empty()
    } else {
        records_wire(records.drop_last()) + records.last().wire()
    }
}

/// Reads the `count` records under the cursor.
pub fn read_records(cursor: &mut Cursor, count: u16) -> (r: Result<Vec<ResourceRecord>, ParseError>)
    ensures
        final(cursor).bytes() == old(cursor).bytes(),
        match r {
            Ok(records) => records_at(
                Seq::<ResourceRecordView>::empty(),
                old(cursor).bytes(),
                old(cursor).position() as int,
                count as nat,
            ) == Ok::<(Seq<ResourceRecordView>, int), ParseError>(
                (record_views(records@), final(cursor).position() as int),
            ),
            Err(e) => records_at(
                Seq::<ResourceRecordView>::empty(),
                old(cursor).bytes(),
                old(cursor).position() as int,
                count as nat,
            ) == Err::<(Seq<ResourceRecordView>, int), ParseError>(e),
        },
{
    let ghost packet = cursor.bytes();
    let ghost start = cursor.position() as int;
    let mut records: Vec<ResourceRecord> = Vec::new();
    let mut i: u16 = 0;
    assert(record_views(records@) =~= Seq::<ResourceRecordView>::empty());
    while i < count
        invariant
            i <= count,
            cursor.bytes() == packet,
            packet == old(cursor).bytes(),
            start == old(cursor).position(),
            records_at(Seq::<ResourceRecordView>::empty(), packet, start, count as nat)
                == records_at(
                record_views(records@),
                packet,
                cursor.position() as int,
                (count - i) as nat,
            ),
        decreases count - i,
    {
        let ghost before = record_views(records@);
        match ResourceRecord::from(cursor) {
            Ok(record) => {
                records.push(record);
                assert(record_views(records@) =~= before.push(record@));
            },
            Err(e) => { return Err(e); },
        }
        i = i + 1;
    }
    Ok(records)
}

/// Appends the bytes of `records`.
pub fn write_records(out: &mut Vec<u8>, records: &Vec<ResourceRecord>)
    ensures
        final(out)@ == old(out)@ + records_wire(record_views(records@)),
{
    let n = records.len();
    let mut i: usize = 0;
    assert(record_views(records@).take(0) =~= Seq::<ResourceRecordView>::empty());
    assert(out@ =~= old(out)@ + Seq::<u8>::empty());
    while i < n
        invariant
            n == records@.len(),
            i <= n,
            out@ == old(out)@ + records_wire(record_views(records@).take(i as int)),
        decreases n - i,
    {
        let record = records[i].to_v8_vec();
        push_all(out, record.as_slice());
        proof {
            let upto = record_views(records@).take(i + 1);
            assert(upto.drop_last() =~= record_views(records@).take(i as int));
            assert(upto.last() == records@[i as int]@);
            assert(out@ =~= old(out)@ + records_wire(upto));
        }
        i = i + 1;
    }
    assert(record_views(records@).take(n as int) =~= record_views(records@));
}

/// An answer as it came in: the header, the questions, the answer records
/// and the authority records. Additional records are not kept.
#[derive(Debug)]
pub struct DNSAnswer {
    header: Header,
    questions: Vec<Question>,
    answers: Vec<ResourceRecord>,
    authorities: Vec<ResourceRecord>,
}

/// What a [`DNSAnswer`] holds.
pub struct DNSAnswerView {
    pub header: Header,
    pub questions: Seq<QuestionView>,
    pub answers: Seq<ResourceRecordView>,
    pub authorities: Seq<ResourceRecordView>,
}

impl View for DNSAnswer {
    type V = DNSAnswerView;

    closed spec fn view(&self) -> DNSAnswerView {
        DNSAnswerView {
            header: self.header,
            questions: question_views(self.questions@),
            answers: record_views(self.answers@),
            authorities: record_views(self.authorities@),
        }
    }
}

/// Whether some record of `records` is an address record with the data
/// `data`.
pub open spec fn has_data(records: Seq<ResourceRecordView>, data: Seq<u8>) -> bool {
    exists|i: int| 0 <= i < records.len() && #[trigger] records[i].data == data
}

/// `known` followed by those address records of `more`, in their order,
/// whose data no record before them holds, each under the name `name`;
/// nothing is added once `MAX_RECORDS` records are held.
pub open spec fn joined_records(
    known: Seq<ResourceRecordView>,
    more: Seq<ResourceRecordView>,
    name: Seq<char>,
) -> Seq<ResourceRecordView>
    decreases more.len(),
{
    if more.len() == 0 {
        known
    } else if !more[0].is_address() || has_data(known, more[0].data) || known.len()
        >= MAX_RECORDS {
        joined_records(known, more.skip(1), name)
    } else {
        joined_records(
            known.push(ResourceRecordView { name, ..more[0] }),
            more.skip(1),
            name,
        )
    }
}

/// The addresses of the address records of `records`, in their order; an
/// address record with other than four bytes of data has none.
pub open spec fn addresses_of(records: Seq<ResourceRecordView>) -> Seq<Seq<u8>>
    decreases records.len(),
{
    if records.len() == 0 {
        Seq::<Seq<u8>>::empty()
    } else {
        let before = addresses_of(records.drop_last());
        if records.last().is_address() && records.last().data.len() == 4 {
            before.push(records.last().data)
        } else {
            before
        }
    }
}

/// The first record of `records` that is an address record with an address
/// of four bytes; none where no record is one.
pub open spec fn first_address(records: Seq<ResourceRecordView>) -> Option<ResourceRecordView>
    decreases records.len(),
{
    if records.len() == 0 {
        None
    } else if records[0].is_address() && records[0].data.len() == 4 {
        Some(records[0])
    } else {
        first_address(records.skip(1))
    }
}

/// The records of `records` whose data is `data`, in their order, each
/// under the name `name`.
pub open spec fn records_with(
    records: Seq<ResourceRecordView>,
    data: Seq<u8>,
    name: Seq<char>,
) -> Seq<ResourceRecordView>
    decreases records.len(),
{
    if records.len() == 0 {
        Seq::<ResourceRecordView>::empty()
    } else {
        let before = records_with(records.drop_last(), data, name);
        if records.last().data == data {
            before.push(ResourceRecordView { name, ..records.last() })
        } else {
            before
        }
    }
}

impl DNSAnswerView {
    /// The answer that `packet` holds. A message without any answer or
    /// authority record gets the flags of a server failure.
    pub open spec fn read(packet: Seq<u8>) -> Result<DNSAnswerView, ParseError> {
        match Header::read_at(packet, 0) {
            Err(e) => Err(e),
            Ok((header, pos)) => match crate::protocol::query::questions_end(
                packet,
                pos,
                header.question_count as nat,
            ) {
                Err(e) => Err(e),
                Ok((questions, after_questions)) => match records_at(
                    Seq::<ResourceRecordView>::empty(),
                    packet,
                    after_questions,
                    header.answer_count as nat,
                ) {
                    Err(e) => Err(e),
                    Ok((answers, after_answers)) => match records_at(
                        Seq::<ResourceRecordView>::empty(),
                        packet,
                        after_answers,
                        header.authority_count as nat,
                    ) {
                        Err(e) => Err(e),
                        Ok((authorities, _)) => Ok(
                            DNSAnswerView {
                                header: if header.answer_count == 0 && header.authority_count
                                    == 0 {
                                    Header { flags: FLAGS_FAILURE, ..header }
                                } else {
                                    header
                                },
                                questions,
                                answers,
                                authorities,
                            },
                        ),
                    },
                },
            },
        }
    }

    /// The bytes that the answer is sent as: header, questions, answer
    /// records, authority records.
    pub open spec fn wire(self) -> Seq<u8> {
        self.header.wire() + questions_wire(self.questions) + records_wire(self.answers)
            + records_wire(self.authorities)
    }

    /// The name that the answer is about: that of its first question, the
    /// empty name where it has none.
    pub open spec fn name(self) -> Seq<char> {
        if self.questions.len() > 0 {
            self.questions[0].name
        } else {
            Seq::<char>::empty()
        }
    }

    /// The answer without records to `query`, with the flags `flags`.
    pub open spec fn to_query(query: DNSQueryView, flags: u16) -> DNSAnswerView {
        DNSAnswerView {
            header: Header {
                id: query.header.id,
                flags,
                question_count: query.header.question_count,
                answer_count: 0,
                authority_count: 0,
                additional_count: 0,
            },
            questions: query.questions,
            answers: Seq::<ResourceRecordView>::empty(),
            authorities: Seq::<ResourceRecordView>::empty(),
        }
    }

    /// The made-up authority record for `name`.
    pub open spec fn made_up_record(name: Seq<char>) -> ResourceRecordView {
        ResourceRecordView {
            name,
            _type: TYPE_SOA,
            class: CLASS_IN,
            ttl: DEFAULT_SOA_TTL,
            data: SoaView::made_up().wire(),
        }
    }

    /// The cache record of the answer, made at `now`: none for the answers
    /// that report an error; where there are answer records, one of the
    /// first of them that is an address, the records before it read over,
    /// and none where no answer record is an address; one of the first
    /// authority record where there is no answer record and that is a
    /// start of authority.
    pub open spec fn cache_form(self, now: u128) -> Option<CacheRecordView> {
        if self.header.flags == FLAGS_FAILURE || self.header.flags == FLAGS_NO_SUCH_NAME {
            None
        } else if self.answers.len() > 0 {
            match first_address(self.answers) {
                Some(first) => Some(
                    CacheRecordView::Ip(
                        IpCacheRecordView {
                            domain: self.name(),
                            address: first.data,
                            create_time: now,
                            ttl_ms: (first.ttl as u128 * 1000) as u128,
                        },
                    ),
                ),
                None => None,
            }
        } else if self.authorities.len() > 0 && self.authorities[0]._type == TYPE_SOA {
            Some(
                CacheRecordView::Soa(
                    SoaCacheRecordView {
                        domain: self.name(),
                        create_time: now,
                        ttl_ms: (self.authorities[0].ttl as u128 * 1000) as u128,
                    },
                ),
            )
        } else {
            None
        }
    }
}

impl DNSAnswer {
    /// Reads the answer that `buf` holds.
    pub fn from(buf: Vec<u8>) -> (r: Result<DNSAnswer, ParseError>)
        ensures
            match r {
                Ok(answer) => DNSAnswerView::read(buf@) == Ok::<DNSAnswerView, ParseError>(answer@),
                Err(e) => DNSAnswerView::read(buf@) == Err::<DNSAnswerView, ParseError>(e),
            },
    {
        let mut cursor = Cursor::form(buf);
        let mut header = match Header::from(&mut cursor) {
            Ok(header) => header,
            Err(e) => { return Err(e); },
        };
        let questions = match crate::protocol::query::read_questions(
            &mut cursor,
            header.question_count,
        ) {
            Ok(questions) => questions,
            Err(e) => { return Err(e); },
        };
        let answers = match read_records(&mut cursor, header.answer_count) {
            Ok(answers) => answers,
            Err(e) => { return Err(e); },
        };
        let authorities = match read_records(&mut cursor, header.authority_count) {
            Ok(authorities) => authorities,
            Err(e) => { return Err(e); },
        };
        if header.answer_count == 0 && header.authority_count == 0 {
            header.flags = FLAGS_FAILURE;
        }
        Ok(DNSAnswer { header, questions, answers, authorities })
    }

    /// The answer without records to `query`.
    pub fn from_query(query: &DNSQuery) -> (answer: Self)
        ensures
            answer@ == DNSAnswerView::to_query(query@, FLAGS_OK),
    {
        DNSAnswer::empty_for(query, FLAGS_OK)
    }

    /// The answer to `query` that reports a server failure.
    pub fn from_query_with_failure(query: &DNSQuery) -> (answer: Self)
        ensures
            answer@ == DNSAnswerView::to_query(query@, FLAGS_FAILURE),
    {
        DNSAnswer::empty_for(query, FLAGS_FAILURE)
    }

    fn empty_for(query: &DNSQuery, flags: u16) -> (answer: Self)
        ensures
            answer@ == DNSAnswerView::to_query(query@, flags),
    {
        let asked = query.get_header();
        let header = Header {
            id: asked.id,
            flags,
            question_count: asked.question_count,
            answer_count: 0,
            authority_count: 0,
            additional_count: 0,
        };
        let answer = DNSAnswer {
            header,
            questions: query.get_questions(),
            answers: Vec::new(),
            authorities: Vec::new(),
        };
        assert(answer@.answers =~= Seq::<ResourceRecordView>::empty());
        assert(answer@.authorities =~= Seq::<ResourceRecordView>::empty());
        answer
    }

    /// The answer to `query` with the made-up authority record for the
    /// name of its first question.
    pub fn from_query_with_soa(query: &DNSQuery) -> (answer: Self)
        requires
            query@.questions.len() > 0,
        ensures
            answer@ == (DNSAnswerView {
                header: Header {
                    authority_count: 1,
                    ..DNSAnswerView::to_query(query@, FLAGS_OK).header
                },
                authorities: seq![DNSAnswerView::made_up_record(query@.questions[0].name)],
                ..DNSAnswerView::to_query(query@, FLAGS_OK)
            }),
    {
        let mut answer = DNSAnswer::empty_for(query, FLAGS_OK);
        let record = ResourceRecord {
            name: query.get_readable_domain(),
            _type: TYPE_SOA,
            class: CLASS_IN,
            ttl: DEFAULT_SOA_TTL,
            data: Soa::default().to_bytes(),
        };
        answer.header.authority_count = 1;
        answer.authorities.push(record);
        assert(answer@.authorities =~= seq![
            DNSAnswerView::made_up_record(query@.questions[0].name),
        ]);
        answer
    }

    /// The bytes that the answer is sent as.
    pub fn to_u8_vec(&self) -> (out: Vec<u8>)
        ensures
            out@ == self@.wire(),
    {
        let mut vec = self.header.to_u8_vec();
        crate::protocol::query::write_questions(&mut vec, &self.questions);
        write_records(&mut vec, &self.answers);
        write_records(&mut vec, &self.authorities);
        vec
    }

    pub fn get_id(&self) -> (id: u16)
        ensures
            id == self@.header.id,
    {
        self.header.id
    }

    pub fn set_id(&mut self, id: u16)
        ensures
            final(self)@ == (DNSAnswerView {
                header: Header { id, ..old(self)@.header },
                ..old(self)@
            }),
    {
        self.header.id = id;
    }

    /// The addresses of the address records among the answers.
    pub fn get_ip_vec(&self) -> (ips: Vec<[u8; 4]>)
        ensures
            crate::handler::ip_maker::address_views(ips@) == addresses_of(self@.answers),
    {
        let mut ips: Vec<[u8; 4]> = Vec::new();
        let n = self.answers.len();
        let mut i: usize = 0;
        assert(self@.answers.take(0) =~= Seq::<ResourceRecordView>::empty());
        assert(crate::handler::ip_maker::address_views(ips@) =~= Seq::<Seq<u8>>::empty());
        while i < n
            invariant
                n == self.answers@.len(),
                i <= n,
                crate::handler::ip_maker::address_views(ips@) == addresses_of(
                    self@.answers.take(i as int),
                ),
            decreases n - i,
        {
            let record = &self.answers[i];
            let ghost before = crate::handler::ip_maker::address_views(ips@);
            proof {
                let upto = self@.answers.take(i + 1);
                assert(upto.drop_last() =~= self@.answers.take(i as int));
                assert(upto.last() == record@);
            }
            if record.is_a_record() && record.data.len() == 4 {
                let ip = [record.data[0], record.data[1], record.data[2], record.data[3]];
                assert(ip@ =~= record@.data);
                ips.push(ip);
                assert(crate::handler::ip_maker::address_views(ips@) =~= before.push(ip@));
            }
            i = i + 1;
        }
        assert(self@.answers.take(n as int) =~= self@.answers);
        ips
    }

    /// Whether some answer record holds `data`.
    pub fn holds(&self, data: &Vec<u8>) -> (found: bool)
        ensures
            found == has_data(self@.answers, data@),
    {
        let n = self.answers.len();
        let mut i: usize = 0;
        while i < n
            invariant
                n == self.answers@.len(),
                i <= n,
                forall|k: int| 0 <= k < i ==> (#[trigger] self@.answers[k]).data != data@,
            decreases n - i,
        {
            if same_bytes(&self.answers[i].data, data) {
                assert(self@.answers[i as int].data == data@);
                return true;
            }
            i = i + 1;
        }
        false
    }

    /// Keeps the answer records whose data is the address `ip`, each under
    /// the name that this answer is about, drops every other answer record
    /// and counts in the header what is kept.
    pub fn retain_ip(&mut self, ip: &[u8; 4])
        requires
            old(self)@.answers.len() <= MAX_RECORDS,
        ensures
            final(self)@ == (DNSAnswerView {
                header: Header {
                    answer_count: records_with(old(self)@.answers, ip@, old(self)@.name()).len() as u16,
                    ..old(self)@.header
                },
                answers: records_with(old(self)@.answers, ip@, old(self)@.name()),
                ..old(self)@
            }),
            final(self)@.answers.len() <= old(self)@.answers.len(),
    {
        let name = self.get_readable_domain();
        let ghost start = self@;
        let mut kept: Vec<ResourceRecord> = Vec::new();
        let n = self.answers.len();
        let mut i: usize = 0;
        assert(start.answers.take(0) =~= Seq::<ResourceRecordView>::empty());
        assert(record_views(kept@) =~= Seq::<ResourceRecordView>::empty());
        while i < n
            invariant
                n == self.answers@.len(),
                self@ == start,
                i <= n,
                name@ == start.name(),
                kept@.len() <= i,
                record_views(kept@) == records_with(start.answers.take(i as int), ip@, name@),
            decreases n - i,
        {
            let r = &self.answers[i];
            let ghost before = record_views(kept@);
            proof {
                let upto = start.answers.take(i + 1);
                assert(upto.drop_last() =~= start.answers.take(i as int));
                assert(upto.last() == r@);
            }
            if r.data.len() == 4 && r.data[0] == ip[0] && r.data[1] == ip[1] && r.data[2] == ip[2]
                && r.data[3] == ip[3] {
                assert(r@.data =~= ip@);
                let renamed = ResourceRecord {
                    name: name.clone(),
                    _type: r._type,
                    class: r.class,
                    ttl: r.ttl,
                    data: r.data.clone(),
                };
                kept.push(renamed);
                assert(record_views(kept@) =~= before.push(
                    ResourceRecordView { name: name@, ..r@ },
                ));
            } else {
                assert(r@.data != ip@) by {
                    if r@.data == ip@ {
                        assert(r@.data.len() == 4);
                        assert(r@.data[0] == ip@[0] && r@.data[1] == ip@[1] && r@.data[2] == ip@[2]
                            && r@.data[3] == ip@[3]);
                    }
                }
            }
            i = i + 1;
        }
        assert(start.answers.take(n as int) =~= start.answers);
        self.header.answer_count = kept.len() as u16;
        self.answers = kept;
    }

    /// Joins the address records of `answer` to this answer, in their
    /// order and under the name that this answer is about, leaving out
    /// every address that is already held.
    pub fn combine(&mut self, answer: DNSAnswer)
        requires
            old(self)@.answers.len() <= MAX_RECORDS,
        ensures
            final(self)@ == (DNSAnswerView {
                header: Header {
                    answer_count: joined_records(
                        old(self)@.answers,
                        answer@.answers,
                        old(self)@.name(),
                    ).len() as u16,
                    ..old(self)@.header
                },
                answers: joined_records(old(self)@.answers, answer@.answers, old(self)@.name()),
                ..old(self)@
            }),
            final(self)@.answers.len() <= MAX_RECORDS,
    {
        let name = self.get_readable_domain();
        let ghost start = self@;
        let more = answer.answers;
        let n = more.len();
        let mut i: usize = 0;
        assert(record_views(more@).skip(0) =~= record_views(more@));
        while i < n
            invariant
                n == more@.len(),
                i <= n,
                name@ == start.name(),
                self@.header == start.header,
                self@.questions == start.questions,
                self@.authorities == start.authorities,
                self@.answers.len() <= MAX_RECORDS,
                joined_records(start.answers, record_views(more@), name@) == joined_records(
                    self@.answers,
                    record_views(more@).skip(i as int),
                    name@,
                ),
            decreases n - i,
        {
            let ghost rest = record_views(more@).skip(i as int);
            let ghost known = self@.answers;
            assert(rest[0] == more@[i as int]@);
            assert(rest.skip(1) =~= record_views(more@).skip(i + 1));
            let r = &more[i];
            if r.is_a_record() && !self.holds(&r.data) && self.answers.len() < MAX_RECORDS {
                let added = ResourceRecord {
                    name: name.clone(),
                    _type: r._type,
                    class: r.class,
                    ttl: r.ttl,
                    data: r.data.clone(),
                };
                self.answers.push(added);
                assert(self@.answers =~= known.push(
                    ResourceRecordView { name: name@, ..rest[0] },
                ));
            }
            i = i + 1;
        }
        assert(record_views(more@).skip(n as int) =~= Seq::<ResourceRecordView>::empty());
        self.header.answer_count = self.answers.len() as u16;
    }

    pub fn is_empty_answers(&self) -> (empty: bool)
        ensures
            empty == (self@.answers.len() == 0),
    {
        self.answers.len() == 0
    }

    pub fn is_server_failure(&self) -> (yes: bool)
        ensures
            yes == (self@.header.flags == FLAGS_FAILURE),
    {
        self.header.flags == FLAGS_FAILURE
    }

    pub fn is_no_such_name(&self) -> (yes: bool)
        ensures
            yes == (self@.header.flags == FLAGS_NO_SUCH_NAME),
    {
        self.header.flags == FLAGS_NO_SUCH_NAME
    }

    /// The readable name that the answer is about.
    pub fn get_readable_domain(&self) -> (name: String)
        ensures
            name@ == self@.name(),
    {
        if self.questions.len() > 0 {
            let first = &self.questions[0];
            assert(self@.questions[0] == first@);
            first.name.clone()
        } else {
            String::new()
        }
    }

    /// The cache record of the answer, made at `now`, where it can be
    /// kept.
    pub fn to_cache(&self, now: u128) -> (record: Option<CacheRecord>)
        ensures
            match record {
                Some(r) => self@.cache_form(now) == Some(r@),
                None => self@.cache_form(now) is None,
            },
    {
        if self.is_server_failure() {
            return None;
        }
        if self.is_no_such_name() {
            return None;
        }
        if !self.is_empty_answers() {
            let ghost all = self@.answers;
            let n = self.answers.len();
            let mut i: usize = 0;
            assert(all.skip(0) =~= all);
            while i < n
                invariant
                    n == self.answers@.len(),
                    all == self@.answers,
                    i <= n,
                    self@.header.flags != FLAGS_FAILURE,
                    self@.header.flags != FLAGS_NO_SUCH_NAME,
                    first_address(all) == first_address(all.skip(i as int)),
                decreases n - i,
            {
                let record = &self.answers[i];
                let ghost rest = all.skip(i as int);
                assert(rest[0] == record@);
                if record.is_a_record() && record.data.len() == 4 {
                    let address = [record.data[0], record.data[1], record.data[2], record.data[3]];
                    assert(address@ =~= record@.data);
                    return Some(
                        CacheRecord::Ip(
                            IpCacheRecord {
                                domain: self.get_readable_domain(),
                                address,
                                create_time: now,
                                ttl_ms: record.ttl as u128 * 1000,
                            },
                        ),
                    );
                }
                assert(rest.skip(1) =~= all.skip(i + 1));
                i = i + 1;
            }
            assert(all.skip(n as int).len() == 0);
            None
        } else if self.authorities.len() > 0 {
            let first = &self.authorities[0];
            assert(self@.authorities[0] == first@);
            if first._type != TYPE_SOA {
                return None;
            }
            Some(
                CacheRecord::Soa(
                    SoaCacheRecord {
                        domain: self.get_readable_domain(),
                        create_time: now,
                        ttl_ms: first.ttl as u128 * 1000,
                    },
                ),
            )
        } else {
            None
        }
    }
}

} // verus!
