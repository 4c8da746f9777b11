//! The answer that carries one start-of-authority record.

use vstd::prelude::*;
use crate::bytes::push_all;
use crate::cache::cache_record::{remaining_ms, CacheItem, CacheRecord, CacheRecordView};
use crate::cache::cache_record::soa_record::{SoaCacheRecord, SoaCacheRecordView};
use crate::protocol::answer::resource::soa::{SoaResource, SoaResourceView};
use crate::protocol::answer::resource::Resource;
use crate::protocol::answer::Answer;
use crate::protocol::basic::{BasicData, BasicDataView, Builder};

verus! {

/// The flags of an answer that was served without error.
pub const FLAGS_OK: u16 = 0x8180;

/// The time to live, in seconds, of the record that this forwarder makes up
/// for a blocked name.
pub const DEFAULT_SOA_TTL: u32 = 600;

/// An answer with no address and one authority record.
#[derive(Debug)]
pub struct SoaAnswer {
    data: BasicData,
    resource: SoaResource,
}

/// What a [`SoaAnswer`] holds.
pub struct SoaAnswerView {
    pub data: BasicDataView,
    pub resource: SoaResourceView,
}

impl View for SoaAnswer {
    type V = SoaAnswerView;

    closed spec fn view(&self) -> SoaAnswerView {
        SoaAnswerView { data: self.data@, resource: self.resource@ }
    }
}

impl SoaAnswerView {
    /// The bytes of the answer: header, question, the authority record.
    pub open spec fn wire(self) -> Seq<u8> {
        self.data.wire() + self.resource.wire()
    }

    /// What the answer made from the parts of a message holds: the record
    /// bears the name asked for, and the header counts it alone.
    pub open spec fn created(data: BasicDataView, resource: SoaResourceView) -> SoaAnswerView {
        SoaAnswerView {
            data: data.with_answers(0).with_authorities(1),
            resource: SoaResourceView {
                basic: resource.basic.with_name(data.question.name),
                ..resource
            },
        }
    }

    /// What the made-up answer to the query `id` for `name` holds.
    pub open spec fn made_up(id: u16, name: Seq<char>, ttl: u32) -> SoaAnswerView {
        SoaAnswerView {
            data: BasicDataView::fresh().with_id(id).with_name(name).with_flags(
                FLAGS_OK,
            ).with_authorities(1),
            resource: SoaResourceView::made_up(name, ttl),
        }
    }

    /// The cache record of this answer, made at `now`.
    pub open spec fn cache_form(self, now: u128) -> SoaCacheRecordView {
        SoaCacheRecordView {
            domain: self.data.question.name,
            create_time: now,
            ttl_ms: (self.resource.basic.ttl as u128 * 1000) as u128,
        }
    }
}

/// The whole seconds of what is left, at `now`, of a record's time to live.
pub open spec fn remaining_secs(create_time: u128, ttl_ms: u128, now: u128) -> u32 {
    (remaining_ms(create_time, ttl_ms, now) / 1000) as u32
}

impl Answer for SoaAnswer {
    open spec fn id_of(&self) -> u16 {
        self@.data.header.id
    }

    open spec fn wire(&self) -> Seq<u8> {
        self@.wire()
    }

    open spec fn cacheable(&self) -> bool {
        true
    }

    fn to_cache(&self, now: u128) -> (record: Option<CacheRecord>)
        ensures
            record matches Some(r) && r@ == CacheRecordView::Soa(self@.cache_form(now)),
    {
        let record = SoaCacheRecord {
            domain: self.data.get_name().clone(),
            create_time: now,
            ttl_ms: self.resource.get_ttl() as u128 * 1000,
        };
        Some(CacheRecord::Soa(record))
    }

    fn to_bytes(&self) -> (out: Vec<u8>) {
        let mut vec = self.data.to_bytes();
        let resource = self.resource.to_bytes();
        push_all(&mut vec, resource.as_slice());
        vec
    }

    fn set_id(&mut self, id: u16)
        ensures
            final(self)@ == (SoaAnswerView { data: old(self)@.data.with_id(id), ..old(self)@ }),
    {
        self.data.set_id(id);
    }

    fn get_id(&self) -> (id: u16) {
        self.data.get_id()
    }
}

impl SoaAnswer {
    /// Puts an answer together from the parts of a message.
    pub fn create(data: BasicData, resource: SoaResource) -> (answer: Self)
        ensures
            answer@ == SoaAnswerView::created(data@, resource@),
    {
        let mut data = data;
        let mut resource = resource;
        resource.set_name(data.get_name().clone());
        data.set_answer_count(0);
        data.set_authority_count(1);
        SoaAnswer { data, resource }
    }

    /// The made-up answer to the query `id` for `name`: no error, one
    /// authority record with the default data, to live ten minutes.
    pub fn default_soa(id: u16, name: String) -> (answer: Self)
        ensures
            answer@ == SoaAnswerView::made_up(id, name@, DEFAULT_SOA_TTL),
    {
        let data = Builder::new().id(id).name(name.clone()).flags(FLAGS_OK).authority(1).build();
        SoaAnswer { data, resource: SoaResource::new_with_default_soa(name, DEFAULT_SOA_TTL) }
    }

    /// The answer that serves `record` at `now`: the default data, to live
    /// what is left of the record's time.
    pub fn from_record(record: &SoaCacheRecord, now: u128) -> (answer: Self)
        ensures
            answer@ == SoaAnswerView::made_up(
                0,
                record@.domain,
                remaining_secs(record@.create_time, record@.ttl_ms, now),
            ),
    {
        let ttl = (record.get_remain_time(now) / 1000) as u32;
        let data = Builder::new().name(record.get_key().clone()).flags(FLAGS_OK).authority(
            1,
        ).build();
        let resource = SoaResource::new_with_default_soa(record.get_key().clone(), ttl);
        assert(data@ == BasicDataView::fresh().with_id(0).with_name(record@.domain).with_flags(
            FLAGS_OK,
        ).with_authorities(1));
        SoaAnswer { data, resource }
    }

    pub fn get_name(&self) -> (name: &String)
        ensures
            name@ == self@.data.question.name,
    {
        self.data.get_name()
    }

    pub fn get_ttl(&self) -> (ttl: u32)
        ensures
            ttl == self@.resource.basic.ttl,
    {
        self.resource.get_ttl()
    }

    pub fn get_resource(&self) -> (resource: &SoaResource)
        ensures
            resource@ == self@.resource,
    {
        &self.resource
    }

    pub fn get_authority_count(&self) -> (count: u16)
        ensures
            count == self@.data.header.authority_count,
    {
        self.data.get_authority_count()
    }

    pub fn get_flags(&self) -> (flags: u16)
        ensures
            flags == self@.data.header.flags,
    {
        self.data.get_flags()
    }
}

} // verus!
