//! The records that the cache holds, and how old they are.

use vstd::prelude::*;
use crate::protocol::answer::ipv4::Ipv4AnswerView;
use crate::protocol::answer::soa::{remaining_secs, SoaAnswerView};
use crate::protocol::answer::{DnsAnswer, DnsAnswerView};

pub mod ip_record;
pub mod soa_record;

pub use ip_record::IpCacheRecord;
pub use soa_record::SoaCacheRecord;
use ip_record::IpCacheRecordView;
use soa_record::SoaCacheRecordView;

verus! {

/// The first byte of an address record in the cache file: `*`.
pub const IP_RECORD: u8 = 42;

/// The first byte of a start-of-authority record in the cache file: `#`.
pub const SOA_RECORD: u8 = 35;

/// The milliseconds that passed from `create_time` to `now`; none where the
/// clock reads earlier than `create_time`.
pub open spec fn elapsed_ms(create_time: u128, now: u128) -> u128 {
    if now >= create_time {
        (now - create_time) as u128
    } else {
        0
    }
}

/// What is left, at `now`, of `ttl_ms` milliseconds that began at
/// `create_time`.
pub open spec fn remaining_ms(create_time: u128, ttl_ms: u128, now: u128) -> u128 {
    if ttl_ms > elapsed_ms(create_time, now) {
        (ttl_ms - elapsed_ms(create_time, now)) as u128
    } else {
        0
    }
}

/// Whether more than `ttl_ms` milliseconds passed from `create_time` to
/// `now`.
pub open spec fn expired(create_time: u128, ttl_ms: u128, now: u128) -> bool {
    elapsed_ms(create_time, now) > ttl_ms
}

/// For a record made no later than `now`: while it has not expired, what is
/// left and what has passed add up to its time to live; once it has expired,
/// nothing is left.
pub proof fn lemma_remaining_and_elapsed(create_time: u128, ttl_ms: u128, now: u128)
    requires
        now >= create_time,
    ensures
        !expired(create_time, ttl_ms, now) ==> remaining_ms(create_time, ttl_ms, now) + (now
            - create_time) == ttl_ms,
        expired(create_time, ttl_ms, now) ==> remaining_ms(create_time, ttl_ms, now) == 0,
{
}

/// The milliseconds that passed from `create_time` to `now`.
pub fn elapsed(create_time: u128, now: u128) -> (passed: u128)
    ensures
        passed == elapsed_ms(create_time, now),
{
    if now >= create_time {
        now - create_time
    } else {
        0
    }
}

/// A record that can tell whether its time is over.
pub trait Expired {
    /// Whether the record has expired at `timestamp`.
    spec fn expired_at(&self, timestamp: u128) -> bool;

    fn is_expired(&self, timestamp: u128) -> (yes: bool)
        ensures
            yes == self.expired_at(timestamp),
    ;
}

/// What every record of the cache can do.
pub trait CacheItem {
    /// When the record was made, in milliseconds.
    spec fn create_time_of(&self) -> u128;

    /// How long the record is to live from then on, in milliseconds.
    spec fn ttl_ms_of(&self) -> u128;

    /// The readable name that the record is kept under.
    spec fn key_of(&self) -> Seq<char>;

    /// The bytes that stand for the record in the cache file written at
    /// `now`.
    spec fn file_form(&self, now: u128) -> Seq<u8>;

    /// The answer that serves the record at `now`.
    spec fn answer_form(&self, now: u128) -> DnsAnswerView;

    /// What is left of the record's time at `timestamp`.
    fn get_remain_time(&self, timestamp: u128) -> (left: u128)
        ensures
            left == remaining_ms(self.create_time_of(), self.ttl_ms_of(), timestamp),
    {
        let duration = elapsed(self.get_create_time(), timestamp);
        if self.get_ttl_ms() > duration {
            self.get_ttl_ms() - duration
        } else {
            0
        }
    }

    fn get_create_time(&self) -> (time: u128)
        ensures
            time == self.create_time_of(),
    ;

    fn get_ttl_ms(&self) -> (ttl: u128)
        ensures
            ttl == self.ttl_ms_of(),
    ;

    fn get_key(&self) -> (key: &String)
        ensures
            key@ == self.key_of(),
    ;

    /// The bytes that stand for the record in the cache file written at
    /// `now`.
    fn to_bytes(&self, now: u128) -> (out: Vec<u8>)
        ensures
            out@ == self.file_form(now),
    ;

    /// The answer that serves the record at `now`.
    fn to_answer(&self, now: u128) -> (answer: DnsAnswer)
        ensures
            answer@ == self.answer_form(now),
    ;
}

/// A record of the cache: an address or a start of authority.
#[derive(Debug)]
pub enum CacheRecord {
    Ip(IpCacheRecord),
    Soa(SoaCacheRecord),
}

/// What a [`CacheRecord`] holds.
pub enum CacheRecordView {
    Ip(IpCacheRecordView),
    Soa(SoaCacheRecordView),
}

impl View for CacheRecord {
    type V = CacheRecordView;

    open spec fn view(&self) -> CacheRecordView {
        match self {
            CacheRecord::Ip(record) => CacheRecordView::Ip(record@),
            CacheRecord::Soa(record) => CacheRecordView::Soa(record@),
        }
    }
}

impl CacheRecordView {
    /// The readable name that the record is kept under.
    pub open spec fn domain(self) -> Seq<char> {
        match self {
            CacheRecordView::Ip(record) => record.domain,
            CacheRecordView::Soa(record) => record.domain,
        }
    }

    /// When the record was made, in milliseconds.
    pub open spec fn create_time(self) -> u128 {
        match self {
            CacheRecordView::Ip(record) => record.create_time,
            CacheRecordView::Soa(record) => record.create_time,
        }
    }

    /// How long the record is to live from then on, in milliseconds.
    pub open spec fn ttl_ms(self) -> u128 {
        match self {
            CacheRecordView::Ip(record) => record.ttl_ms,
            CacheRecordView::Soa(record) => record.ttl_ms,
        }
    }

    /// What is left of the record's time at `now`: the key by which the
    /// cache orders its records when it makes room.
    pub open spec fn order_key(self, now: u128) -> u128 {
        remaining_ms(self.create_time(), self.ttl_ms(), now)
    }

    /// Whether the record has expired at `now`.
    pub open spec fn expired_at(self, now: u128) -> bool {
        expired(self.create_time(), self.ttl_ms(), now)
    }

    /// The bytes that stand for the record in the cache file written at
    /// `now`.
    pub open spec fn file_form(self, now: u128) -> Seq<u8> {
        match self {
            CacheRecordView::Ip(record) => record.file_form(now),
            CacheRecordView::Soa(record) => record.file_form(now),
        }
    }

    /// The answer that serves the record at `now`.
    pub open spec fn answer_form(self, now: u128) -> DnsAnswerView {
        match self {
            CacheRecordView::Ip(record) => DnsAnswerView::Ipv4(Ipv4AnswerView::served(record, now)),
            CacheRecordView::Soa(record) => DnsAnswerView::Soa(
                SoaAnswerView::made_up(
                    0,
                    record.domain,
                    remaining_secs(record.create_time, record.ttl_ms, now),
                ),
            ),
        }
    }

    /// The record as it is kept once read back at `now` from a file: made
    /// at `now`, to live `ttl_ms`.
    pub open spec fn rebased(self, now: u128, ttl_ms: u128) -> CacheRecordView {
        match self {
            CacheRecordView::Ip(record) => CacheRecordView::Ip(
                IpCacheRecordView { create_time: now, ttl_ms, ..record },
            ),
            CacheRecordView::Soa(record) => CacheRecordView::Soa(
                SoaCacheRecordView { create_time: now, ttl_ms, ..record },
            ),
        }
    }
}

impl Clone for CacheRecord {
    fn clone(&self) -> (copy: Self)
        ensures
            copy@ == self@,
    {
        match self {
            CacheRecord::Ip(record) => CacheRecord::Ip(record.clone()),
            CacheRecord::Soa(record) => CacheRecord::Soa(record.clone()),
        }
    }
}

/// A record that can copy itself into a [`CacheRecord`].
pub trait BoxedClone: CacheItem {
    /// What the copy holds.
    spec fn record_form(&self) -> CacheRecordView;

    fn boxed_clone(&self) -> (copy: CacheRecord)
        ensures
            copy@ == self.record_form(),
    ;
}

impl Expired for CacheRecord {
    open spec fn expired_at(&self, timestamp: u128) -> bool {
        self@.expired_at(timestamp)
    }

    fn is_expired(&self, timestamp: u128) -> (yes: bool) {
        let duration = elapsed(self.get_create_time(), timestamp);
        self.get_ttl_ms() < duration
    }
}

impl CacheItem for CacheRecord {
    open spec fn create_time_of(&self) -> u128 {
        self@.create_time()
    }

    open spec fn ttl_ms_of(&self) -> u128 {
        self@.ttl_ms()
    }

    open spec fn key_of(&self) -> Seq<char> {
        self@.domain()
    }

    open spec fn file_form(&self, now: u128) -> Seq<u8> {
        self@.file_form(now)
    }

    open spec fn answer_form(&self, now: u128) -> DnsAnswerView {
        self@.answer_form(now)
    }

    fn get_create_time(&self) -> (time: u128) {
        match self {
            CacheRecord::Ip(record) => record.get_create_time(),
            CacheRecord::Soa(record) => record.get_create_time(),
        }
    }

    fn get_ttl_ms(&self) -> (ttl: u128) {
        match self {
            CacheRecord::Ip(record) => record.get_ttl_ms(),
            CacheRecord::Soa(record) => record.get_ttl_ms(),
        }
    }

    fn get_key(&self) -> (key: &String) {
        match self {
            CacheRecord::Ip(record) => record.get_key(),
            CacheRecord::Soa(record) => record.get_key(),
        }
    }

    fn to_bytes(&self, now: u128) -> (out: Vec<u8>) {
        match self {
            CacheRecord::Ip(record) => record.to_bytes(now),
            CacheRecord::Soa(record) => record.to_bytes(now),
        }
    }

    fn to_answer(&self, now: u128) -> (answer: DnsAnswer) {
        match self {
            CacheRecord::Ip(record) => record.to_answer(now),
            CacheRecord::Soa(record) => record.to_answer(now),
        }
    }
}

impl BoxedClone for CacheRecord {
    open spec fn record_form(&self) -> CacheRecordView {
        self@
    }

    fn boxed_clone(&self) -> (copy: CacheRecord) {
        self.clone()
    }
}

} // verus!
