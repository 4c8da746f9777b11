//! The cache record of a name that has no address.

use vstd::prelude::*;
use vstd::slice::slice_to_vec;
use vstd::utf8::{decode_utf8, encode_utf8, valid_utf8};
use vstd::utf8::{encode_utf8_decode_utf8, encode_utf8_valid_utf8};
use crate::bytes::{
    be_bytes, be_value, lemma_be_bytes_len, lemma_be_value_of_bytes, lemma_pow256_values, value_of,
    write_number, write_u128,
};
use crate::cache::cache_record::ip_record::{
    field, field_at, lemma_field_at, read_field, write_field, RecordError,
};
use crate::cache::cache_record::{
    remaining_ms, BoxedClone, CacheItem, CacheRecord, CacheRecordView, Expired, SOA_RECORD,
    expired, elapsed,
};
use crate::cursor::Cursor;
use crate::protocol::answer::soa::{remaining_secs, SoaAnswer, SoaAnswerView};
use crate::protocol::answer::{DnsAnswer, DnsAnswerView};
use crate::protocol::string_from_utf8;

verus! {

/// A name known to have no address, when that was learnt and how long it is
/// good for. The authority data is not kept: the default data is served.
#[derive(Debug)]
pub struct SoaCacheRecord {
    pub domain: String,
    pub create_time: u128,
    pub ttl_ms: u128,
}

/// What a [`SoaCacheRecord`] holds.
pub struct SoaCacheRecordView {
    pub domain: Seq<char>,
    pub create_time: u128,
    pub ttl_ms: u128,
}

impl View for SoaCacheRecord {
    type V = SoaCacheRecordView;

    open spec fn view(&self) -> SoaCacheRecordView {
        SoaCacheRecordView {
            domain: self.domain@,
            create_time: self.create_time,
            ttl_ms: self.ttl_ms,
        }
    }
}

impl Clone for SoaCacheRecord {
    fn clone(&self) -> (copy: Self)
        ensures
            copy@ == self@,
    {
        SoaCacheRecord {
            domain: self.domain.clone(),
            create_time: self.create_time,
            ttl_ms: self.ttl_ms,
        }
    }
}

impl SoaCacheRecordView {
    /// The bytes that stand for the record in the cache file written at
    /// `now`: the mark, the name, the low four bytes of what is left of its
    /// time, the time it was made at, each as a field.
    pub open spec fn file_form(self, now: u128) -> Seq<u8> {
        seq![SOA_RECORD] + field(encode_utf8(self.domain)) + field(
            be_bytes(remaining_ms(self.create_time, self.ttl_ms, now) as nat, 4),
        ) + field(be_bytes(self.create_time as nat, 16))
    }

    /// The record that `bytes` stand for; its time to live is what was left
    /// of it when the bytes were written.
    pub open spec fn read(bytes: Seq<u8>) -> Result<SoaCacheRecordView, RecordError> {
        if bytes.len() == 0 {
            Err(RecordError::Truncated)
        } else if bytes[0] != SOA_RECORD {
            Err(RecordError::BadMagic)
        } else {
            match field_at(bytes, 1) {
                None => Err(RecordError::Truncated),
                Some((name, ttl_pos)) => match field_at(bytes, ttl_pos) {
                    None => Err(RecordError::Truncated),
                    Some((ttl, time_pos)) => match field_at(bytes, time_pos) {
                        None => Err(RecordError::Truncated),
                        Some((time, end)) => if ttl.len() != 4 || time.len() != 16 || end
                            != bytes.len() {
                            Err(RecordError::BadField)
                        } else if !valid_utf8(name) {
                            Err(RecordError::BadName)
                        } else {
                            Ok(
                                SoaCacheRecordView {
                                    domain: decode_utf8(name),
                                    create_time: be_value(time) as u128,
                                    ttl_ms: be_value(ttl) as u128,
                                },
                            )
                        },
                    },
                },
            }
        }
    }

    /// Whether the record can be written and read back: its name fits in
    /// one length byte.
    pub open spec fn fits(self) -> bool {
        encode_utf8(self.domain).len() < 256
    }
}

/// A record that fits, written at `now` and read back, is the record it
/// was, to live what was left of its time at `now`, as long as that fits in
/// four bytes. Written when it was made, it reads back unchanged.
pub proof fn lemma_soa_record_round_trip(record: SoaCacheRecordView, now: u128)
    requires
        record.fits(),
        remaining_ms(record.create_time, record.ttl_ms, now) < 0x1_0000_0000,
    ensures
        SoaCacheRecordView::read(record.file_form(now)) == Ok::<SoaCacheRecordView, RecordError>(
            SoaCacheRecordView {
                ttl_ms: remaining_ms(record.create_time, record.ttl_ms, now),
                ..record
            },
        ),
        now == record.create_time ==> SoaCacheRecordView::read(record.file_form(now)) == Ok::<
            SoaCacheRecordView,
            RecordError,
        >(record),
{
    let left = remaining_ms(record.create_time, record.ttl_ms, now);
    let name = encode_utf8(record.domain);
    let ttl = be_bytes(left as nat, 4);
    let time = be_bytes(record.create_time as nat, 16);
    let bytes = record.file_form(now);
    let mark = seq![SOA_RECORD];
    lemma_be_bytes_len(left as nat, 4);
    lemma_be_bytes_len(record.create_time as nat, 16);
    lemma_pow256_values();
    lemma_be_value_of_bytes(left as nat, 4);
    lemma_be_value_of_bytes(record.create_time as nat, 16);
    encode_utf8_valid_utf8(record.domain);
    encode_utf8_decode_utf8(record.domain);
    assert(bytes[0] == SOA_RECORD);
    assert(bytes =~= mark + field(name) + (field(ttl) + field(time)));
    lemma_field_at(mark, name, field(ttl) + field(time));
    let front_ttl = mark + field(name);
    assert(bytes =~= front_ttl + field(ttl) + field(time));
    lemma_field_at(front_ttl, ttl, field(time));
    let front_time = front_ttl + field(ttl);
    assert(bytes =~= front_time + field(time) + Seq::<u8>::empty());
    lemma_field_at(front_time, time, Seq::<u8>::empty());
}

impl Expired for SoaCacheRecord {
    open spec fn expired_at(&self, timestamp: u128) -> bool {
        expired(self.create_time, self.ttl_ms, timestamp)
    }

    fn is_expired(&self, timestamp: u128) -> (yes: bool) {
        let duration = elapsed(self.create_time, timestamp);
        self.ttl_ms < duration
    }
}

impl CacheItem for SoaCacheRecord {
    open spec fn create_time_of(&self) -> u128 {
        self.create_time
    }

    open spec fn ttl_ms_of(&self) -> u128 {
        self.ttl_ms
    }

    open spec fn key_of(&self) -> Seq<char> {
        self.domain@
    }

    open spec fn file_form(&self, now: u128) -> Seq<u8> {
        self@.file_form(now)
    }

    open spec fn answer_form(&self, now: u128) -> DnsAnswerView {
        DnsAnswerView::Soa(
            SoaAnswerView::made_up(
                0,
                self.domain@,
                remaining_secs(self.create_time, self.ttl_ms, now),
            ),
        )
    }

    fn get_create_time(&self) -> (time: u128) {
        self.create_time
    }

    fn get_ttl_ms(&self) -> (ttl: u128) {
        self.ttl_ms
    }

    fn get_key(&self) -> (key: &String) {
        &self.domain
    }

    fn to_bytes(&self, now: u128) -> (out: Vec<u8>) {
        let mut vec: Vec<u8> = Vec::new();
        vec.push(SOA_RECORD);
        write_field(&mut vec, self.domain.as_str().as_bytes());
        let mut ttl: Vec<u8> = Vec::new();
        write_number(&mut ttl, self.get_remain_time(now), 4);
        write_field(&mut vec, ttl.as_slice());
        let mut time: Vec<u8> = Vec::new();
        write_u128(&mut time, self.create_time);
        write_field(&mut vec, time.as_slice());
        assert(vec@ =~= self@.file_form(now));
        vec
    }

    fn to_answer(&self, now: u128) -> (answer: DnsAnswer) {
        DnsAnswer::Soa(SoaAnswer::from_record(self, now))
    }
}

impl BoxedClone for SoaCacheRecord {
    open spec fn record_form(&self) -> CacheRecordView {
        CacheRecordView::Soa(self@)
    }

    fn boxed_clone(&self) -> (copy: CacheRecord) {
        CacheRecord::Soa(self.clone())
    }
}

impl SoaCacheRecord {
    /// Reads the record that `bytes` stand for.
    pub fn from(bytes: &[u8]) -> (r: Result<SoaCacheRecord, RecordError>)
        ensures
            match r {
                Ok(record) => SoaCacheRecordView::read(bytes@) == Ok::<
                    SoaCacheRecordView,
                    RecordError,
                >(record@),
                Err(e) => SoaCacheRecordView::read(bytes@) == Err::<
                    SoaCacheRecordView,
                    RecordError,
                >(e),
            },
    {
        let mut cursor = Cursor::form(slice_to_vec(bytes));
        if cursor.remaining() == 0 {
            return Err(RecordError::Truncated);
        }
        if cursor.take() != SOA_RECORD {
            return Err(RecordError::BadMagic);
        }
        let name = match read_field(&mut cursor) {
            Some(name) => name,
            None => { return Err(RecordError::Truncated); },
        };
        let ttl = match read_field(&mut cursor) {
            Some(ttl) => ttl,
            None => { return Err(RecordError::Truncated); },
        };
        let time = match read_field(&mut cursor) {
            Some(time) => time,
            None => { return Err(RecordError::Truncated); },
        };
        if ttl.len() != 4 || time.len() != 16 || cursor.remaining() != 0
            || cursor.get_current_index() != cursor.len() {
            return Err(RecordError::BadField);
        }
        let domain = match string_from_utf8(name) {
            Some(domain) => domain,
            None => { return Err(RecordError::BadName); },
        };
        let ttl_ms = value_of(ttl.as_slice());
        let create_time = value_of(time.as_slice());
        Ok(SoaCacheRecord { domain, create_time, ttl_ms })
    }
}

} // verus!
