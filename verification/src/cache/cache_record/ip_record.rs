//! The cache record of an IPv4 address.

use vstd::prelude::*;
use vstd::slice::slice_to_vec;
use vstd::utf8::{decode_utf8, encode_utf8, valid_utf8};
use vstd::utf8::{encode_utf8_decode_utf8, encode_utf8_valid_utf8};
use crate::bytes::{
    be_bytes, be_value, lemma_be_bytes_len, lemma_be_value_of_bytes, lemma_pow256_values, push_all,
    value_of, write_number, write_u128,
};
use crate::cache::cache_record::{
    remaining_ms, BoxedClone, CacheItem, CacheRecord, CacheRecordView, Expired, IP_RECORD,
    expired, elapsed,
};
use crate::cursor::Cursor;
use crate::protocol::answer::ipv4::{Ipv4Answer, Ipv4AnswerView};
use crate::protocol::answer::{DnsAnswer, DnsAnswerView};
use crate::protocol::string_from_utf8;

verus! {

/// Why the bytes of a cache file could not be read as a record.
#[derive(Debug, Clone, Copy, PartialEq, Eq, Structural)]
pub enum RecordError {
    /// The bytes end before the record does.
    Truncated,
    /// The first byte is not the mark of the record's kind.
    BadMagic,
    /// A field has another length than its place calls for, or bytes follow
    /// the last field.
    BadField,
    /// The name is not valid UTF-8.
    BadName,
}

/// A field of the cache file: the length of `content` in one byte (modulo
/// 256), then `content`.
pub open spec fn field(content: Seq<u8>) -> Seq<u8> {
    seq![(content.len() % 256) as u8] + content
}

/// The field that starts at `pos` of `bytes`, and the offset behind it.
pub open spec fn field_at(bytes: Seq<u8>, pos: int) -> Option<(Seq<u8>, int)> {
    if pos < 0 || pos >= bytes.len() {
        None
    } else if pos + 1 + bytes[pos] > bytes.len() {
        None
    } else {
        Some((bytes.subrange(pos + 1, pos + 1 + bytes[pos]), pos + 1 + bytes[pos]))
    }
}

/// A field that was written after `front` is read back from there, whatever
/// follows it, as long as its length fits in one byte.
pub proof fn lemma_field_at(front: Seq<u8>, content: Seq<u8>, back: Seq<u8>)
    requires
        content.len() < 256,
    ensures
        field_at(front + field(content) + back, front.len() as int) == Some(
            (content, (front.len() + 1 + content.len()) as int),
        ),
{
    let all = front + field(content) + back;
    let pos = front.len() as int;
    assert(all[pos] == content.len() as u8);
    assert(all.subrange(pos + 1, pos + 1 + content.len()) =~= content);
}

/// Reads the field under the cursor.
pub fn read_field(cursor: &mut Cursor) -> (r: Option<Vec<u8>>)
    ensures
        final(cursor).bytes() == old(cursor).bytes(),
        match r {
            Some(content) => field_at(old(cursor).bytes(), old(cursor).position() as int) == Some(
                (content@, final(cursor).position() as int),
            ),
            None => field_at(old(cursor).bytes(), old(cursor).position() as int) is None,
        },
{
    if cursor.remaining() == 0 {
        return None;
    }
    let len = cursor.peek() as usize;
    if cursor.remaining() < 1 + len {
        return None;
    }
    cursor.take();
    let content = slice_to_vec(cursor.take_slice(len));
    Some(content)
}

/// Appends `content` as a field.
pub fn write_field(out: &mut Vec<u8>, content: &[u8])
    ensures
        final(out)@ == old(out)@ + field(content@),
{
    out.push((content.len() % 256) as u8);
    push_all(out, content);
    assert(out@ =~= old(out)@ + field(content@));
}

/// An address under a name, when it was learnt and how long it is good for.
#[derive(Debug)]
pub struct IpCacheRecord {
    pub domain: String,
    pub address: [u8; 4],
    pub create_time: u128,
    pub ttl_ms: u128,
}

/// The record of an address: the record that the answers to most
/// queries are kept as.
pub type DNSCacheRecord = IpCacheRecord;

/// What an [`IpCacheRecord`] holds.
pub struct IpCacheRecordView {
    pub domain: Seq<char>,
    pub address: Seq<u8>,
    pub create_time: u128,
    pub ttl_ms: u128,
}

impl View for IpCacheRecord {
    type V = IpCacheRecordView;

    open spec fn view(&self) -> IpCacheRecordView {
        IpCacheRecordView {
            domain: self.domain@,
            address: self.address@,
            create_time: self.create_time,
            ttl_ms: self.ttl_ms,
        }
    }
}

impl Clone for IpCacheRecord {
    fn clone(&self) -> (copy: Self)
        ensures
            copy@ == self@,
    {
        IpCacheRecord {
            domain: self.domain.clone(),
            address: self.address,
            create_time: self.create_time,
            ttl_ms: self.ttl_ms,
        }
    }
}

impl IpCacheRecordView {
    /// The bytes that stand for the record in the cache file written at
    /// `now`: the mark, the name, the low four bytes of what is left of its
    /// time, the time it was made at, the address, each as a field.
    pub open spec fn file_form(self, now: u128) -> Seq<u8> {
        seq![IP_RECORD] + field(encode_utf8(self.domain)) + field(
            be_bytes(remaining_ms(self.create_time, self.ttl_ms, now) as nat, 4),
        ) + field(be_bytes(self.create_time as nat, 16)) + field(self.address)
    }

    /// The record that `bytes` stand for; its time to live is what was left
    /// of it when the bytes were written.
    pub open spec fn read(bytes: Seq<u8>) -> Result<IpCacheRecordView, RecordError> {
        if bytes.len() == 0 {
            Err(RecordError::Truncated)
        } else if bytes[0] != IP_RECORD {
            Err(RecordError::BadMagic)
        } else {
            match field_at(bytes, 1) {
                None => Err(RecordError::Truncated),
                Some((name, ttl_pos)) => match field_at(bytes, ttl_pos) {
                    None => Err(RecordError::Truncated),
                    Some((ttl, time_pos)) => match field_at(bytes, time_pos) {
                        None => Err(RecordError::Truncated),
                        Some((time, address_pos)) => match field_at(bytes, address_pos) {
                            None => Err(RecordError::Truncated),
                            Some((address, end)) => if ttl.len() != 4 || time.len() != 16
                                || address.len() != 4 || end != bytes.len() {
                                Err(RecordError::BadField)
                            } else if !valid_utf8(name) {
                                Err(RecordError::BadName)
                            } else {
                                Ok(
                                    IpCacheRecordView {
                                        domain: decode_utf8(name),
                                        address,
                                        create_time: be_value(time) as u128,
                                        ttl_ms: be_value(ttl) as u128,
                                    },
                                )
                            },
                        },
                    },
                },
            }
        }
    }

    /// Whether the record can be written and read back: its name fits in
    /// one length byte, its address has four bytes.
    pub open spec fn fits(self) -> bool {
        encode_utf8(self.domain).len() < 256 && self.address.len() == 4
    }
}

/// A record that fits, written at `now` and read back, is the record it
/// was, to live what was left of its time at `now`, as long as that fits in
/// four bytes. Written when it was made, it reads back unchanged.
pub proof fn lemma_ip_record_round_trip(record: IpCacheRecordView, now: u128)
    requires
        record.fits(),
        remaining_ms(record.create_time, record.ttl_ms, now) < 0x1_0000_0000,
    ensures
        IpCacheRecordView::read(record.file_form(now)) == Ok::<IpCacheRecordView, RecordError>(
            IpCacheRecordView {
                ttl_ms: remaining_ms(record.create_time, record.ttl_ms, now),
                ..record
            },
        ),
        now == record.create_time ==> IpCacheRecordView::read(record.file_form(now)) == Ok::<
            IpCacheRecordView,
            RecordError,
        >(record),
{
    let left = remaining_ms(record.create_time, record.ttl_ms, now);
    let name = encode_utf8(record.domain);
    let ttl = be_bytes(left as nat, 4);
    let time = be_bytes(record.create_time as nat, 16);
    let bytes = record.file_form(now);
    let mark = seq![IP_RECORD];
    lemma_be_bytes_len(left as nat, 4);
    lemma_be_bytes_len(record.create_time as nat, 16);
    lemma_pow256_values();
    lemma_be_value_of_bytes(left as nat, 4);
    lemma_be_value_of_bytes(record.create_time as nat, 16);
    encode_utf8_valid_utf8(record.domain);
    encode_utf8_decode_utf8(record.domain);
    assert(bytes[0] == IP_RECORD);
    assert(bytes =~= mark + field(name) + (field(ttl) + field(time) + field(record.address)));
    lemma_field_at(mark, name, field(ttl) + field(time) + field(record.address));
    let front_ttl = mark + field(name);
    assert(bytes =~= front_ttl + field(ttl) + (field(time) + field(record.address)));
    lemma_field_at(front_ttl, ttl, field(time) + field(record.address));
    let front_time = front_ttl + field(ttl);
    assert(bytes =~= front_time + field(time) + field(record.address));
    lemma_field_at(front_time, time, field(record.address));
    let front_address = front_time + field(time);
    assert(bytes =~= front_address + field(record.address) + Seq::<u8>::empty());
    lemma_field_at(front_address, record.address, Seq::<u8>::empty());
}

impl Expired for IpCacheRecord {
    open spec fn expired_at(&self, timestamp: u128) -> bool {
        expired(self.create_time, self.ttl_ms, timestamp)
    }

    fn is_expired(&self, timestamp: u128) -> (yes: bool) {
        let duration = elapsed(self.create_time, timestamp);
        self.ttl_ms < duration
    }
}

impl CacheItem for IpCacheRecord {
    open spec fn create_time_of(&self) -> u128 {
        self.create_time
    }

    open spec fn ttl_ms_of(&self) -> u128 {
        self.ttl_ms
    }

    open spec fn key_of(&self) -> Seq<char> {
        self.domain@
    }

    open spec fn file_form(&self, now: u128) -> Seq<u8> {
        self@.file_form(now)
    }

    open spec fn answer_form(&self, now: u128) -> DnsAnswerView {
        DnsAnswerView::Ipv4(Ipv4AnswerView::served(self@, now))
    }

    fn get_create_time(&self) -> (time: u128) {
        self.create_time
    }

    fn get_ttl_ms(&self) -> (ttl: u128) {
        self.ttl_ms
    }

    fn get_key(&self) -> (key: &String) {
        &self.domain
    }

    fn to_bytes(&self, now: u128) -> (out: Vec<u8>) {
        let mut vec: Vec<u8> = Vec::new();
        vec.push(IP_RECORD);
        write_field(&mut vec, self.domain.as_str().as_bytes());
        let mut ttl: Vec<u8> = Vec::new();
        write_number(&mut ttl, self.get_remain_time(now), 4);
        write_field(&mut vec, ttl.as_slice());
        let mut time: Vec<u8> = Vec::new();
        write_u128(&mut time, self.create_time);
        write_field(&mut vec, time.as_slice());
        write_field(&mut vec, self.address.as_slice());
        assert(vec@ =~= self@.file_form(now));
        vec
    }

    fn to_answer(&self, now: u128) -> (answer: DnsAnswer) {
        DnsAnswer::Ipv4(Ipv4Answer::from_record(self, now))
    }
}

impl BoxedClone for IpCacheRecord {
    open spec fn record_form(&self) -> CacheRecordView {
        CacheRecordView::Ip(self@)
    }

    fn boxed_clone(&self) -> (copy: CacheRecord) {
        CacheRecord::Ip(self.clone())
    }
}

impl IpCacheRecord {
    /// The record of `address` under `domain`, learnt at `now` and good for
    /// `ttl_secs` seconds.
    pub fn new(domain: String, address: [u8; 4], ttl_secs: u32, now: u128) -> (record: Self)
        ensures
            record@ == (IpCacheRecordView {
                domain: domain@,
                address: address@,
                create_time: now,
                ttl_ms: (ttl_secs as u128 * 1000) as u128,
            }),
    {
        IpCacheRecord { domain, address, create_time: now, ttl_ms: ttl_secs as u128 * 1000 }
    }

    /// The time that the record is good for from when it was learnt, in
    /// milliseconds.
    pub fn get_ttl(&self) -> (ttl: u128)
        ensures
            ttl == self@.ttl_ms,
    {
        self.ttl_ms
    }

    /// The whole seconds that the record has left at `now`.
    pub fn get_ttl_secs(&self, now: u128) -> (secs: u128)
        ensures
            secs == remaining_ms(self@.create_time, self@.ttl_ms, now) / 1000,
    {
        self.get_remain_time(now) / 1000
    }

    pub fn get_domain(&self) -> (domain: &String)
        ensures
            domain@ == self@.domain,
    {
        &self.domain
    }

    /// The bytes that stand for the record in the cache file written at
    /// `now`.
    pub fn to_file_bytes(&self, now: u128) -> (out: Vec<u8>)
        ensures
            out@ == self@.file_form(now),
    {
        self.to_bytes(now)
    }

    /// Reads the record that `bytes` stand for.
    pub fn from_bytes(bytes: &[u8]) -> (r: Result<IpCacheRecord, RecordError>)
        ensures
            match r {
                Ok(record) => IpCacheRecordView::read(bytes@) == Ok::<
                    IpCacheRecordView,
                    RecordError,
                >(record@),
                Err(e) => IpCacheRecordView::read(bytes@) == Err::<IpCacheRecordView, RecordError>(
                    e,
                ),
            },
    {
        IpCacheRecord::from(bytes)
    }

    pub fn get_address(&self) -> (address: &[u8; 4])
        ensures
            address@ == self@.address,
    {
        &self.address
    }

    /// Reads the record that `bytes` stand for.
    pub fn from(bytes: &[u8]) -> (r: Result<IpCacheRecord, RecordError>)
        ensures
            match r {
                Ok(record) => IpCacheRecordView::read(bytes@) == Ok::<
                    IpCacheRecordView,
                    RecordError,
                >(record@),
                Err(e) => IpCacheRecordView::read(bytes@) == Err::<IpCacheRecordView, RecordError>(
                    e,
                ),
            },
    {
        let mut cursor = Cursor::form(slice_to_vec(bytes));
        if cursor.remaining() == 0 {
            return Err(RecordError::Truncated);
        }
        if cursor.take() != IP_RECORD {
            return Err(RecordError::BadMagic);
        }
        let name = match read_field(&mut cursor) {
            Some(name) => name,
            None => { return Err(RecordError::Truncated); },
        };
        let ttl = match read_field(&mut cursor) {
            Some(ttl) => ttl,
            None => { return Err(RecordError::Truncated); },
        };
        let time = match read_field(&mut cursor) {
            Some(time) => time,
            None => { return Err(RecordError::Truncated); },
        };
        let address_vec = match read_field(&mut cursor) {
            Some(address) => address,
            None => { return Err(RecordError::Truncated); },
        };
        if ttl.len() != 4 || time.len() != 16 || address_vec.len() != 4 || cursor.remaining() != 0
            || cursor.get_current_index() != cursor.len() {
            return Err(RecordError::BadField);
        }
        let domain = match string_from_utf8(name) {
            Some(domain) => domain,
            None => { return Err(RecordError::BadName); },
        };
        let address = [address_vec[0], address_vec[1], address_vec[2], address_vec[3]];
        assert(address@ =~= address_vec@);
        let ttl_ms = value_of(ttl.as_slice());
        let create_time = value_of(time.as_slice());
        Ok(IpCacheRecord { domain, address, create_time, ttl_ms })
    }
}

} // verus!
