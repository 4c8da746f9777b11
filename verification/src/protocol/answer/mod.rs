//! The answers that the forwarder reads, builds and sends.

use vstd::prelude::*;
use crate::cache::cache_record::{CacheRecord, CacheRecordView};
use crate::cursor::Cursor;
use crate::protocol::answer::failure::FLAGS_FAILURE;
use vstd::utf8::encode_utf8;
use crate::protocol::answer::ipv4::{records_wire, views_of, Ipv4AnswerView};
use crate::protocol::answer::no_such_name::{NoSuchNameAnswer, FLAGS_NO_SUCH_NAME};
use crate::protocol::answer::resource::basic::{
    lemma_record_start_round_trip, BasicData as RecordData, BasicDataView as RecordStart,
};
use crate::protocol::answer::resource::cname::cname_at;
use crate::protocol::answer::resource::ipv4::{address_at, Ipv4ResourceView};
use crate::bytes::be_bytes;
use crate::protocol::answer::resource::soa::{
    lemma_soa_round_trip, plain_soa, SoaResourceView, SoaView,
};
use crate::protocol::header::lemma_u16_reads_back;
use crate::protocol::answer::resource::{CnameResource, Ipv4Resource, SoaResource};
use crate::protocol::answer::soa::SoaAnswerView;
use crate::protocol::basic::{lemma_basic_round_trip, BasicData, BasicDataView};
use crate::protocol::header::Header;
use crate::protocol::question::{TYPE_A, TYPE_CNAME, TYPE_SOA};
use crate::protocol::{plain_name, ParseError};

pub mod failure;
pub mod ipv4;
pub mod no_such_name;
pub mod resource;
pub mod soa;

pub use failure::FailureAnswer;
pub use ipv4::Ipv4Answer;
pub use soa::SoaAnswer;

verus! {

/// What every kind of answer can do.
pub trait Answer {
    /// The transaction id that the answer bears.
    spec fn id_of(&self) -> u16;

    /// The bytes that the answer is sent as.
    spec fn wire(&self) -> Seq<u8>;

    /// Whether the answer can be kept in the cache.
    spec fn cacheable(&self) -> bool;

    /// The cache record of the answer, made at `now`, where it can be kept.
    fn to_cache(&self, now: u128) -> (record: Option<CacheRecord>)
        ensures
            record is Some <==> self.cacheable(),
    ;

    /// The bytes that the answer is sent as.
    fn to_bytes(&self) -> (out: Vec<u8>)
        ensures
            out@ == self.wire(),
    ;

    /// Gives the answer another transaction id.
    fn set_id(&mut self, id: u16)
        ensures
            final(self).id_of() == id,
    ;

    /// The transaction id that the answer bears.
    fn get_id(&self) -> (id: u16)
        ensures
            id == self.id_of(),
    ;
}

/// An answer of one of the four kinds that the forwarder serves.
#[derive(Debug)]
pub enum DnsAnswer {
    Ipv4(Ipv4Answer),
    Soa(SoaAnswer),
    Failure(FailureAnswer),
    NoSuchName(NoSuchNameAnswer),
}

/// What a [`DnsAnswer`] holds.
pub enum DnsAnswerView {
    Ipv4(Ipv4AnswerView),
    Soa(SoaAnswerView),
    Failure(BasicDataView),
    NoSuchName(BasicDataView),
}

impl View for DnsAnswer {
    type V = DnsAnswerView;

    open spec fn view(&self) -> DnsAnswerView {
        match self {
            DnsAnswer::Ipv4(answer) => DnsAnswerView::Ipv4(answer@),
            DnsAnswer::Soa(answer) => DnsAnswerView::Soa(answer@),
            DnsAnswer::Failure(answer) => DnsAnswerView::Failure(answer@),
            DnsAnswer::NoSuchName(answer) => DnsAnswerView::NoSuchName(answer@),
        }
    }
}

impl DnsAnswerView {
    /// The header and question of the answer.
    pub open spec fn data(self) -> BasicDataView {
        match self {
            DnsAnswerView::Ipv4(answer) => answer.data,
            DnsAnswerView::Soa(answer) => answer.data,
            DnsAnswerView::Failure(data) => data,
            DnsAnswerView::NoSuchName(data) => data,
        }
    }

    /// The answer with another transaction id and nothing else changed.
    pub open spec fn with_id(self, id: u16) -> DnsAnswerView {
        match self {
            DnsAnswerView::Ipv4(answer) => DnsAnswerView::Ipv4(
                Ipv4AnswerView { data: answer.data.with_id(id), ..answer },
            ),
            DnsAnswerView::Soa(answer) => DnsAnswerView::Soa(
                SoaAnswerView { data: answer.data.with_id(id), ..answer },
            ),
            DnsAnswerView::Failure(data) => DnsAnswerView::Failure(data.with_id(id)),
            DnsAnswerView::NoSuchName(data) => DnsAnswerView::NoSuchName(data.with_id(id)),
        }
    }

    /// The bytes that the answer is sent as.
    pub open spec fn wire(self) -> Seq<u8> {
        match self {
            DnsAnswerView::Ipv4(answer) => answer.wire(),
            DnsAnswerView::Soa(answer) => answer.wire(),
            DnsAnswerView::Failure(data) => data.wire(),
            DnsAnswerView::NoSuchName(data) => data.wire(),
        }
    }

    /// The cache record of the answer, made at `now`: one for an answer with
    /// at least one address, one for a start of authority, none for the
    /// answers that report an error.
    pub open spec fn cache_form(self, now: u128) -> Option<CacheRecordView> {
        match self {
            DnsAnswerView::Ipv4(answer) => if answer.resources.len() > 0 {
                Some(CacheRecordView::Ip(answer.cache_form(now)))
            } else {
                None
            },
            DnsAnswerView::Soa(answer) => Some(CacheRecordView::Soa(answer.cache_form(now))),
            DnsAnswerView::Failure(_) => None,
            DnsAnswerView::NoSuchName(_) => None,
        }
    }
}

/// The answer record at `pos` of `packet`, and the offset behind it: an
/// address record, or nothing for a canonical-name record, which is read
/// over. A record of any other type is an error.
#[verifier::opaque]
pub open spec fn answer_record_at(packet: Seq<u8>, pos: int) -> Result<
    (Option<Ipv4ResourceView>, int),
    ParseError,
> {
    match RecordStart::read_at(packet, pos) {
        Err(e) => Err(e),
        Ok((basic, data_pos)) => if basic.question._type == TYPE_CNAME {
            match cname_at(packet, data_pos, basic.data_len) {
                Err(e) => Err(e),
                Ok((_, next)) => Ok((None, next)),
            }
        } else if basic.question._type == TYPE_A {
            match address_at(packet, data_pos, basic.data_len) {
                Err(e) => Err(e),
                Ok((data, next)) => Ok((Some(Ipv4ResourceView { basic, data }), next)),
            }
        } else {
            Err(ParseError::UnsupportedRecord)
        },
    }
}

/// The address records among the `count` records that start at `pos` of
/// `packet`, in their order, and the offset behind the last record.
pub open spec fn answers_at(packet: Seq<u8>, pos: int, count: nat) -> Result<
    (Seq<Ipv4ResourceView>, int),
    ParseError,
>
    decreases count,
{
    if count == 0 {
        Ok((Seq::<Ipv4ResourceView>::empty(), pos))
    } else {
        match answer_record_at(packet, pos) {
            Err(e) => Err(e),
            Ok((one, next)) => match answers_at(packet, next, (count - 1) as nat) {
                Err(e) => Err(e),
                Ok((rest, end)) => Ok(
                    (
                        match one {
                            Some(record) => seq![record] + rest,
                            None => rest,
                        },
                        end,
                    ),
                ),
            },
        }
    }
}

/// What is read from `pos` on when `seen` was read before it: `seen`
/// followed by the address records among the `count` records there.
pub open spec fn answers_after(
    seen: Seq<Ipv4ResourceView>,
    packet: Seq<u8>,
    pos: int,
    count: nat,
) -> Result<(Seq<Ipv4ResourceView>, int), ParseError> {
    match answers_at(packet, pos, count) {
        Ok((rest, end)) => Ok((seen + rest, end)),
        Err(e) => Err(e),
    }
}

/// Reading one record and then the rest is reading them all.
pub proof fn lemma_answers_step(seen: Seq<Ipv4ResourceView>, packet: Seq<u8>, pos: int, count: nat)
    requires
        count > 0,
    ensures
        answers_after(seen, packet, pos, count) == match answer_record_at(packet, pos) {
            Err(e) => Err::<(Seq<Ipv4ResourceView>, int), ParseError>(e),
            Ok((one, next)) => answers_after(
                match one {
                    Some(record) => seen.push(record),
                    None => seen,
                },
                packet,
                next,
                (count - 1) as nat,
            ),
        },
{
    match answer_record_at(packet, pos) {
        Err(e) => {},
        Ok((one, next)) => {
            match answers_at(packet, next, (count - 1) as nat) {
                Err(e) => {},
                Ok((rest, end)) => {
                    match one {
                        Some(record) => {
                            assert(seen + (seq![record] + rest) =~= seen.push(record) + rest);
                        },
                        None => {},
                    }
                },
            }
        },
    }
}

/// The start-of-authority record at `pos` of `packet`. A record of any other
/// type is an error.
pub open spec fn authority_at(packet: Seq<u8>, pos: int) -> Result<SoaResourceView, ParseError> {
    match RecordStart::read_at(packet, pos) {
        Err(e) => Err(e),
        Ok((basic, data_pos)) => if basic.question._type != TYPE_SOA {
            Err(ParseError::UnsupportedRecord)
        } else {
            match SoaView::read_at(packet, data_pos, basic.data_len) {
                Err(e) => Err(e),
                Ok((data, _)) => Ok(SoaResourceView { basic, data }),
            }
        },
    }
}

/// The answer that `packet` holds. A message without any answer or authority
/// record counts as a server failure; the flags of a failure and of a name
/// that does not exist decide before the records are looked at; a message
/// with answers is read for its addresses; any other is read for its first
/// authority record.
pub open spec fn answer_of(packet: Seq<u8>) -> Result<DnsAnswerView, ParseError> {
    match BasicDataView::read_at(packet, 0) {
        Err(e) => Err(e),
        Ok((data, pos)) => {
            let header = data.header;
            if header.flags == FLAGS_FAILURE || (header.answer_count == 0 && header.authority_count
                == 0) {
                Ok(DnsAnswerView::Failure(FailureAnswer::made_from(data.with_flags(FLAGS_FAILURE))))
            } else if header.flags == FLAGS_NO_SUCH_NAME {
                Ok(DnsAnswerView::NoSuchName(NoSuchNameAnswer::made_from(data)))
            } else if header.answer_count > 0 {
                match answers_at(packet, pos, header.answer_count as nat) {
                    Err(e) => Err(e),
                    Ok((records, _)) => Ok(
                        DnsAnswerView::Ipv4(Ipv4AnswerView::created(data, records)),
                    ),
                }
            } else {
                match authority_at(packet, pos) {
                    Err(e) => Err(e),
                    Ok(record) => Ok(DnsAnswerView::Soa(SoaAnswerView::created(data, record))),
                }
            }
        },
    }
}

/// Whether an address record can be written and read back: its name is
/// plain, its type is that of an address, its data has four bytes and its
/// start says so.
pub open spec fn plain_address_record(record: Ipv4ResourceView) -> bool {
    &&& plain_name(encode_utf8(record.basic.question.name))
    &&& record.basic.question._type == TYPE_A
    &&& record.basic.data_len == 4
    &&& record.data.len() == 4
}

/// An address record that is written is read back.
pub proof fn lemma_address_record_round_trip(
    front: Seq<u8>,
    record: Ipv4ResourceView,
    back: Seq<u8>,
)
    requires
        plain_address_record(record),
    ensures
        answer_record_at(front + record.wire() + back, front.len() as int) == Ok::<
            (Option<Ipv4ResourceView>, int),
            ParseError,
        >((Some(record), (front.len() + record.wire().len()) as int)),
{
    reveal(answer_record_at);
    let start = record.basic.wire();
    let packet = front + record.wire() + back;
    lemma_record_start_round_trip(front, record.basic, record.data + back);
    assert(packet =~= front + start + (record.data + back));
    let data_pos = (front.len() + start.len()) as int;
    assert(packet.subrange(data_pos, data_pos + 4) =~= record.data);
    assert(record.wire() =~= start + record.data);
}

/// The bytes of a record followed by more records are the bytes of the
/// record followed by the bytes of the others.
pub proof fn lemma_records_wire_split(first: Ipv4ResourceView, rest: Seq<Ipv4ResourceView>)
    ensures
        records_wire(seq![first] + rest) == first.wire() + records_wire(rest),
    decreases rest.len(),
{
    let all = seq![first] + rest;
    if rest.len() == 0 {
        assert(all.drop_last() =~= Seq::<Ipv4ResourceView>::empty());
        assert(records_wire(all.drop_last()) =~= Seq::<u8>::empty());
        assert(all.last() == first);
        assert(records_wire(all) =~= first.wire());
        assert(first.wire() + records_wire(rest) =~= first.wire());
    } else {
        lemma_records_wire_split(first, rest.drop_last());
        assert(all.drop_last() =~= seq![first] + rest.drop_last());
        assert(all.last() == rest.last());
        assert(first.wire() + records_wire(rest.drop_last()) + rest.last().wire() =~= first.wire()
            + (records_wire(rest.drop_last()) + rest.last().wire()));
    }
}

/// Address records that are written one behind the other are read back,
/// in their order.
pub proof fn lemma_answers_round_trip(
    front: Seq<u8>,
    records: Seq<Ipv4ResourceView>,
    back: Seq<u8>,
)
    requires
        forall|i: int| 0 <= i < records.len() ==> plain_address_record(#[trigger] records[i]),
    ensures
        answers_at(front + records_wire(records) + back, front.len() as int, records.len())
            == Ok::<(Seq<Ipv4ResourceView>, int), ParseError>(
            (records, (front.len() + records_wire(records).len()) as int),
        ),
    decreases records.len(),
{
    let packet = front + records_wire(records) + back;
    let pos = front.len() as int;
    if records.len() == 0 {
        assert(records =~= Seq::<Ipv4ResourceView>::empty());
        assert(records_wire(records) =~= Seq::<u8>::empty());
    } else {
        let first = records[0];
        let rest = records.skip(1);
        assert(records =~= seq![first] + rest);
        lemma_records_wire_split(first, rest);
        assert(plain_address_record(first));
        lemma_address_record_round_trip(front, first, records_wire(rest) + back);
        assert(packet =~= front + first.wire() + (records_wire(rest) + back));
        assert forall|i: int| 0 <= i < rest.len() implies plain_address_record(
            #[trigger] rest[i],
        ) by {
            assert(rest[i] == records[i + 1]);
        }
        lemma_answers_round_trip(front + first.wire(), rest, back);
        assert(packet =~= front + first.wire() + records_wire(rest) + back);
        let next = pos + first.wire().len();
        assert(answer_record_at(packet, pos) == Ok::<(Option<Ipv4ResourceView>, int), ParseError>(
            (Some(first), next),
        ));
        assert(answers_at(packet, next, rest.len()) == Ok::<
            (Seq<Ipv4ResourceView>, int),
            ParseError,
        >((rest, next + records_wire(rest).len())));
        assert(records_wire(records).len() == first.wire().len() + records_wire(rest).len());
    }
}

/// Whether an address answer can be written and read back: it counts one
/// question and its address records, of which there is at least one and
/// each can be read back, its flags do not report an error, and its name is
/// plain.
pub open spec fn plain_address_answer(answer: Ipv4AnswerView) -> bool {
    &&& answer.data.header.question_count == 1
    &&& answer.data.header.flags != FLAGS_FAILURE
    &&& answer.data.header.flags != FLAGS_NO_SUCH_NAME
    &&& 0 < answer.resources.len() <= 0xFFFF
    &&& answer.data.header.answer_count == answer.resources.len()
    &&& answer.data.header.authority_count == 0
    &&& answer.data.header.additional_count == 0
    &&& plain_name(encode_utf8(answer.data.question.name))
    &&& forall|i: int|
        0 <= i < answer.resources.len() ==> plain_address_record(#[trigger] answer.resources[i])
}

/// An address answer that is written is read back as it was.
pub proof fn lemma_address_answer_round_trip(answer: Ipv4AnswerView)
    requires
        plain_address_answer(answer),
    ensures
        answer_of(answer.wire()) == Ok::<DnsAnswerView, ParseError>(DnsAnswerView::Ipv4(answer)),
{
    let start = answer.data.wire();
    lemma_basic_round_trip(answer.data, records_wire(answer.resources));
    lemma_answers_round_trip(start, answer.resources, Seq::<u8>::empty());
    assert(answer.wire() =~= start + records_wire(answer.resources) + Seq::<u8>::empty());
    assert(answer.data == (BasicDataView {
        header: Header { additional_count: 0, ..answer.data.header },
        question: answer.data.question,
    }));
    assert(Ipv4AnswerView::created(answer.data, answer.resources) == answer);
}

/// Whether an authority answer can be written and read back: it counts
/// one question and its one authority record, its flags do not report an
/// error, its names are plain, and its record is a start of authority for
/// the name asked for whose start tells the length of its data.
pub open spec fn plain_authority_answer(answer: SoaAnswerView) -> bool {
    &&& answer.data.header.question_count == 1
    &&& answer.data.header.flags != FLAGS_FAILURE
    &&& answer.data.header.flags != FLAGS_NO_SUCH_NAME
    &&& answer.data.header.answer_count == 0
    &&& answer.data.header.authority_count == 1
    &&& answer.data.header.additional_count == 0
    &&& plain_name(encode_utf8(answer.data.question.name))
    &&& answer.resource.basic.question.name == answer.data.question.name
    &&& answer.resource.basic.question._type == TYPE_SOA
    &&& answer.resource.basic.data_len == answer.resource.data.wire().len()
    &&& plain_soa(answer.resource.data)
}

/// An authority answer that is written is read back as it was.
pub proof fn lemma_authority_answer_round_trip(answer: SoaAnswerView)
    requires
        plain_authority_answer(answer),
    ensures
        answer_of(answer.wire()) == Ok::<DnsAnswerView, ParseError>(DnsAnswerView::Soa(answer)),
{
    let start = answer.data.wire();
    let record = answer.resource;
    let none = Seq::<u8>::empty();
    let packet = answer.wire();
    lemma_basic_round_trip(answer.data, record.wire());
    lemma_record_start_round_trip(start, record.basic, record.data.wire() + none);
    lemma_u16_reads_back(none, record.basic.data_len, none);
    assert(be_bytes(record.data.wire().len(), 2) == be_bytes(record.basic.data_len as nat, 2));
    assert(record.wire() =~= record.basic.wire() + record.data.wire());
    assert(packet =~= start + record.basic.wire() + (record.data.wire() + none));
    lemma_soa_round_trip(start + record.basic.wire(), record.data, none);
    assert(packet =~= start + record.basic.wire() + record.data.wire() + none);
    assert(answer.data == (BasicDataView {
        header: Header { additional_count: 0, ..answer.data.header },
        question: answer.data.question,
    }));
    assert(SoaAnswerView::created(answer.data, record) == answer);
}

/// Whether a failure answer can be written and read back: it counts one
/// question and no record, bears the flags of a failure, and its name is
/// plain.
pub open spec fn plain_failure(data: BasicDataView) -> bool {
    &&& data.header.question_count == 1
    &&& data.header.flags == FLAGS_FAILURE
    &&& data.header.answer_count == 0
    &&& data.header.authority_count == 0
    &&& data.header.additional_count == 0
    &&& plain_name(encode_utf8(data.question.name))
}

/// A failure answer that is written is read back as it was.
pub proof fn lemma_failure_round_trip(data: BasicDataView)
    requires
        plain_failure(data),
    ensures
        answer_of(data.wire()) == Ok::<DnsAnswerView, ParseError>(DnsAnswerView::Failure(data)),
{
    lemma_basic_round_trip(data, Seq::<u8>::empty());
    assert(data.wire() =~= data.wire() + Seq::<u8>::empty());
    assert(data == (BasicDataView {
        header: Header { additional_count: 0, ..data.header },
        question: data.question,
    }));
    assert(FailureAnswer::made_from(data.with_flags(FLAGS_FAILURE)) == data);
}

/// Reads the answer record under the cursor: an address record, or nothing
/// for a canonical-name record.
pub fn read_answer_record(cursor: &mut Cursor) -> (r: Result<Option<Ipv4Resource>, ParseError>)
    ensures
        final(cursor).bytes() == old(cursor).bytes(),
        match r {
            Ok(one) => answer_record_at(old(cursor).bytes(), old(cursor).position() as int) == Ok::<
                (Option<Ipv4ResourceView>, int),
                ParseError,
            >(
                (
                    match one {
                        Some(record) => Some(record@),
                        None => None,
                    },
                    final(cursor).position() as int,
                ),
            ),
            Err(e) => answer_record_at(old(cursor).bytes(), old(cursor).position() as int) == Err::<
                (Option<Ipv4ResourceView>, int),
                ParseError,
            >(e),
        },
{
    reveal(answer_record_at);
    let r_data = match RecordData::from(cursor) {
        Ok(r_data) => r_data,
        Err(e) => { return Err(e); },
    };
    if r_data.get_type() == TYPE_CNAME {
        match CnameResource::create(r_data, cursor) {
            Ok(_) => Ok(None),
            Err(e) => Err(e),
        }
    } else if r_data.get_type() == TYPE_A {
        match Ipv4Resource::create(r_data, cursor) {
            Ok(resource) => Ok(Some(resource)),
            Err(e) => Err(e),
        }
    } else {
        Err(ParseError::UnsupportedRecord)
    }
}

/// Reads the `count` answer records under the cursor and keeps the address
/// records among them.
pub fn read_answers(cursor: &mut Cursor, count: u16) -> (r: Result<Vec<Ipv4Resource>, ParseError>)
    ensures
        final(cursor).bytes() == old(cursor).bytes(),
        match r {
            Ok(records) => answers_at(
                old(cursor).bytes(),
                old(cursor).position() as int,
                count as nat,
            ) == Ok::<(Seq<Ipv4ResourceView>, int), ParseError>(
                (views_of(records@), final(cursor).position() as int),
            ) && records@.len() <= count,
            Err(e) => answers_at(old(cursor).bytes(), old(cursor).position() as int, count as nat)
                == Err::<(Seq<Ipv4ResourceView>, int), ParseError>(e),
        },
{
    let ghost packet = cursor.bytes();
    let ghost start = cursor.position() as int;
    let mut ipv4_records: Vec<Ipv4Resource> = Vec::new();
    let mut i: u16 = 0;
    proof {
        assert(Seq::<Ipv4ResourceView>::empty() =~= views_of(ipv4_records@));
        match answers_at(packet, start, count as nat) {
            Ok((rest, end)) => {
                assert(views_of(ipv4_records@) + rest =~= rest);
            },
            Err(e) => {},
        }
    }
    while i < count
        invariant
            i <= count,
            cursor.bytes() == packet,
            packet == old(cursor).bytes(),
            start == old(cursor).position(),
            ipv4_records@.len() <= i,
            answers_at(packet, start, count as nat) == answers_after(
                views_of(ipv4_records@),
                packet,
                cursor.position() as int,
                (count - i) as nat,
            ),
        decreases count - i,
    {
        let ghost before = views_of(ipv4_records@);
        proof {
            lemma_answers_step(before, packet, cursor.position() as int, (count - i) as nat);
        }
        match read_answer_record(cursor) {
            Ok(Some(resource)) => {
                ipv4_records.push(resource);
                assert(views_of(ipv4_records@) =~= before.push(resource@));
            },
            Ok(None) => {},
            Err(e) => { return Err(e); },
        }
        i = i + 1;
    }
    proof {
        assert(views_of(ipv4_records@) + Seq::<Ipv4ResourceView>::empty() =~= views_of(
            ipv4_records@,
        ));
    }
    Ok(ipv4_records)
}

impl Answer for DnsAnswer {
    open spec fn id_of(&self) -> u16 {
        self@.data().header.id
    }

    open spec fn wire(&self) -> Seq<u8> {
        self@.wire()
    }

    open spec fn cacheable(&self) -> bool {
        self@.cache_form(0) is Some
    }

    fn to_cache(&self, now: u128) -> (record: Option<CacheRecord>)
        ensures
            match record {
                Some(r) => self@.cache_form(now) == Some(r@),
                None => self@.cache_form(now) is None,
            },
    {
        match self {
            DnsAnswer::Ipv4(answer) => answer.to_cache(now),
            DnsAnswer::Soa(answer) => answer.to_cache(now),
            DnsAnswer::Failure(answer) => answer.to_cache(now),
            DnsAnswer::NoSuchName(answer) => answer.to_cache(now),
        }
    }

    fn to_bytes(&self) -> (out: Vec<u8>) {
        match self {
            DnsAnswer::Ipv4(answer) => answer.to_bytes(),
            DnsAnswer::Soa(answer) => answer.to_bytes(),
            DnsAnswer::Failure(answer) => answer.to_bytes(),
            DnsAnswer::NoSuchName(answer) => answer.to_bytes(),
        }
    }

    fn set_id(&mut self, id: u16)
        ensures
            final(self)@ == old(self)@.with_id(id),
    {
        match self {
            DnsAnswer::Ipv4(answer) => answer.set_id(id),
            DnsAnswer::Soa(answer) => answer.set_id(id),
            DnsAnswer::Failure(answer) => answer.set_id(id),
            DnsAnswer::NoSuchName(answer) => answer.set_id(id),
        }
    }

    fn get_id(&self) -> (id: u16) {
        match self {
            DnsAnswer::Ipv4(answer) => answer.get_id(),
            DnsAnswer::Soa(answer) => answer.get_id(),
            DnsAnswer::Failure(answer) => answer.get_id(),
            DnsAnswer::NoSuchName(answer) => answer.get_id(),
        }
    }
}

impl DnsAnswer {
    /// Reads the answer that `buf` holds.
    pub fn from(buf: Vec<u8>) -> (r: Result<DnsAnswer, ParseError>)
        ensures
            match r {
                Ok(answer) => answer_of(buf@) == Ok::<DnsAnswerView, ParseError>(answer@),
                Err(e) => answer_of(buf@) == Err::<DnsAnswerView, ParseError>(e),
            },
    {
        let mut cursor = Cursor::form(buf);
        let mut data = match BasicData::from(&mut cursor) {
            Ok(data) => data,
            Err(e) => { return Err(e); },
        };
        if data.get_flags() == FLAGS_FAILURE || (data.get_answer_count() == 0
            && data.get_authority_count() == 0) {
            data.set_flags(FLAGS_FAILURE);
            return Ok(DnsAnswer::Failure(FailureAnswer::from(data)));
        }
        if data.get_flags() == FLAGS_NO_SUCH_NAME {
            return Ok(DnsAnswer::NoSuchName(NoSuchNameAnswer::from(data)));
        }
        if data.get_answer_count() > 0 {
            let count = data.get_answer_count();
            let ipv4_records = match read_answers(&mut cursor, count) {
                Ok(records) => records,
                Err(e) => { return Err(e); },
            };
            return Ok(DnsAnswer::Ipv4(Ipv4Answer::create(data, ipv4_records)));
        }
        let r_data = match RecordData::from(&mut cursor) {
            Ok(r_data) => r_data,
            Err(e) => { return Err(e); },
        };
        if r_data.get_type() != TYPE_SOA {
            return Err(ParseError::UnsupportedRecord);
        }
        match SoaResource::create(r_data, &mut cursor) {
            Ok(resource) => Ok(DnsAnswer::Soa(SoaAnswer::create(data, resource))),
            Err(e) => Err(e),
        }
    }

    /// The readable name that the answer is about.
    pub fn get_name(&self) -> (name: &String)
        ensures
            name@ == self@.data().question.name,
    {
        match self {
            DnsAnswer::Ipv4(answer) => answer.get_name(),
            DnsAnswer::Soa(answer) => answer.get_name(),
            DnsAnswer::Failure(answer) => answer.get_name(),
            DnsAnswer::NoSuchName(answer) => answer.get_name(),
        }
    }
}

} // verus!
