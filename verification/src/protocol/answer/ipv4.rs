//! The answer that carries IPv4 addresses.

use vstd::prelude::*;
use crate::bytes::push_all;
use crate::cache::cache_record::{CacheItem, CacheRecord, CacheRecordView};
use crate::cache::cache_record::ip_record::{IpCacheRecord, IpCacheRecordView};
use crate::protocol::answer::resource::basic::{BasicDataView as RecordStart, Builder as RecordBuilder};
use crate::protocol::answer::resource::ipv4::{Ipv4Resource, Ipv4ResourceView};
use crate::protocol::answer::resource::Resource;
use crate::protocol::answer::soa::{remaining_secs, FLAGS_OK};
use crate::protocol::answer::Answer;
use crate::protocol::basic::{BasicData, BasicDataView, Builder};
use crate::protocol::question::TYPE_A;

verus! {

/// The most address records that one answer can count in its header.
pub const MAX_RECORDS: usize = 0xFFFF;

/// An answer with address records, in the order in which they were read.
#[derive(Debug)]
pub struct Ipv4Answer {
    data: BasicData,
    resources: Vec<Ipv4Resource>,
}

/// What an [`Ipv4Answer`] holds.
pub struct Ipv4AnswerView {
    pub data: BasicDataView,
    pub resources: Seq<Ipv4ResourceView>,
}

impl View for Ipv4Answer {
    type V = Ipv4AnswerView;

    closed spec fn view(&self) -> Ipv4AnswerView {
        Ipv4AnswerView { data: self.data@, resources: views_of(self.resources@) }
    }
}

/// What each record of `resources` holds.
pub open spec fn views_of(resources: Seq<Ipv4Resource>) -> Seq<Ipv4ResourceView> {
    Seq::new(resources.len(), |i: int| resources[i]@)
}

/// The bytes of `resources`, one record behind the other.
pub open spec fn records_wire(resources: Seq<Ipv4ResourceView>) -> Seq<u8>
    decreases resources.len(),
{
    if resources.len() == 0 {
        Seq::<u8>::empty()
    } else {
        records_wire(resources.drop_last()) + resources.last().wire()
    }
}

/// Whether some record of `resources` holds `address`.
pub open spec fn has_address(resources: Seq<Ipv4ResourceView>, address: Seq<u8>) -> bool {
    exists|i: int| 0 <= i < resources.len() && #[trigger] resources[i].data == address
}

/// `known` followed by those records of `more`, in their order, whose
/// address no record before them holds; nothing is added once `MAX_RECORDS`
/// records are held.
pub open spec fn union_by_address(
    known: Seq<Ipv4ResourceView>,
    more: Seq<Ipv4ResourceView>,
) -> Seq<Ipv4ResourceView>
    decreases more.len(),
{
    if more.len() == 0 {
        known
    } else if has_address(known, more[0].data) || known.len() >= MAX_RECORDS {
        union_by_address(known, more.skip(1))
    } else {
        union_by_address(known.push(more[0]), more.skip(1))
    }
}

/// The first record of `resources` that holds `address`, alone; nothing
/// where none holds it.
pub open spec fn first_with_address(
    resources: Seq<Ipv4ResourceView>,
    address: Seq<u8>,
) -> Seq<Ipv4ResourceView>
    decreases resources.len(),
{
    if resources.len() == 0 {
        Seq::<Ipv4ResourceView>::empty()
    } else if resources[0].data == address {
        seq![resources[0]]
    } else {
        first_with_address(resources.skip(1), address)
    }
}

impl Ipv4AnswerView {
    /// The bytes of the answer: header, question, the address records.
    pub open spec fn wire(self) -> Seq<u8> {
        self.data.wire() + records_wire(self.resources)
    }

    /// What the answer made from the parts of a message holds: the header
    /// counts the address records and no authority record.
    pub open spec fn created(data: BasicDataView, resources: Seq<Ipv4ResourceView>) -> Ipv4AnswerView {
        Ipv4AnswerView {
            data: data.with_authorities(0).with_answers(resources.len() as u16),
            resources,
        }
    }

    /// What the answer without records to the query `id` for `name` holds.
    pub open spec fn empty(id: u16, name: Seq<char>) -> Ipv4AnswerView {
        Ipv4AnswerView {
            data: BasicDataView::fresh().with_id(id).with_name(name).with_flags(FLAGS_OK),
            resources: Seq::<Ipv4ResourceView>::empty(),
        }
    }

    /// What this answer holds once the records of `other` are joined to it:
    /// nothing changes where the two are about different names.
    pub open spec fn combined(self, other: Ipv4AnswerView) -> Ipv4AnswerView {
        if self.data.question.name != other.data.question.name {
            self
        } else {
            let all = union_by_address(self.resources, other.resources);
            Ipv4AnswerView { data: self.data.with_answers(all.len() as u16), resources: all }
        }
    }

    /// What this answer holds once only `address` is kept.
    pub open spec fn retained(self, address: Seq<u8>) -> Ipv4AnswerView {
        let kept = first_with_address(self.resources, address);
        Ipv4AnswerView { data: self.data.with_answers(kept.len() as u16), resources: kept }
    }

    /// The cache record of this answer, made at `now`, from its first
    /// address record.
    pub open spec fn cache_form(self, now: u128) -> IpCacheRecordView {
        IpCacheRecordView {
            domain: self.data.question.name,
            address: self.resources[0].data,
            create_time: now,
            ttl_ms: (self.resources[0].basic.ttl as u128 * 1000) as u128,
        }
    }

    /// What the answer that serves a cache record at `now` holds.
    pub open spec fn served(record: IpCacheRecordView, now: u128) -> Ipv4AnswerView {
        Ipv4AnswerView {
            data: BasicDataView::fresh().with_flags(FLAGS_OK).with_name(record.domain).with_answers(
                1,
            ),
            resources: seq![
                Ipv4ResourceView {
                    basic: RecordStart::fresh().with_name(record.domain).with_ttl(
                        remaining_secs(record.create_time, record.ttl_ms, now),
                    ).with_type(TYPE_A).with_data_len(4),
                    data: record.address,
                },
            ],
        }
    }
}

impl Answer for Ipv4Answer {
    open spec fn id_of(&self) -> u16 {
        self@.data.header.id
    }

    open spec fn wire(&self) -> Seq<u8> {
        self@.wire()
    }

    open spec fn cacheable(&self) -> bool {
        self@.resources.len() > 0
    }

    fn to_cache(&self, now: u128) -> (record: Option<CacheRecord>)
        ensures
            record matches Some(r) ==> r@ == CacheRecordView::Ip(self@.cache_form(now)),
    {
        if self.resources.len() == 0 {
            return None;
        }
        let first = &self.resources[0];
        assert(self@.resources[0] == first@);
        let record = IpCacheRecord {
            domain: self.data.get_name().clone(),
            address: *first.get_data(),
            create_time: now,
            ttl_ms: first.get_ttl() as u128 * 1000,
        };
        Some(CacheRecord::Ip(record))
    }

    fn to_bytes(&self) -> (out: Vec<u8>) {
        let mut vec = self.data.to_bytes();
        let n = self.resources.len();
        let mut i: usize = 0;
        while i < n
            invariant
                n == self.resources@.len(),
                i <= n,
                vec@ == self.data@.wire() + records_wire(self@.resources.take(i as int)),
            decreases n - i,
        {
            let resource = self.resources[i].to_bytes();
            push_all(&mut vec, resource.as_slice());
            proof {
                let upto = self@.resources.take(i + 1);
                assert(upto.drop_last() =~= self@.resources.take(i as int));
                assert(upto.last() == self.resources@[i as int]@);
            }
            i = i + 1;
        }
        assert(self@.resources.take(n as int) =~= self@.resources);
        vec
    }

    fn set_id(&mut self, id: u16)
        ensures
            final(self)@ == (Ipv4AnswerView { data: old(self)@.data.with_id(id), ..old(self)@ }),
    {
        self.data.set_id(id)
    }

    fn get_id(&self) -> (id: u16) {
        self.data.get_id()
    }
}

impl Ipv4Answer {
    /// Puts an answer together from the parts of a message.
    pub fn create(data: BasicData, resources: Vec<Ipv4Resource>) -> (answer: Self)
        requires
            resources@.len() <= MAX_RECORDS,
        ensures
            answer@ == Ipv4AnswerView::created(data@, views_of(resources@)),
    {
        let mut data = data;
        data.set_authority_count(0);
        data.set_answer_count(resources.len() as u16);
        Ipv4Answer { data, resources }
    }

    /// Joins the address records of `other` to this answer, in their order,
    /// leaving out every address that is already held.
    pub fn combine(&mut self, other: Ipv4Answer)
        requires
            old(self)@.resources.len() <= MAX_RECORDS,
        ensures
            final(self)@ == old(self)@.combined(other@),
            final(self)@.resources.len() <= MAX_RECORDS,
    {
        let same_name = *self.data.get_name() == *other.data.get_name();
        if !same_name {
            return;
        }
        let ghost start = self@.resources;
        let ghost data = self.data@;
        let more = other.resources;
        let n = more.len();
        let mut i: usize = 0;
        assert(views_of(more@).skip(0) =~= views_of(more@));
        while i < n
            invariant
                n == more@.len(),
                i <= n,
                self.data@ == data,
                self@.resources.len() <= MAX_RECORDS,
                union_by_address(start, views_of(more@)) == union_by_address(
                    self@.resources,
                    views_of(more@).skip(i as int),
                ),
            decreases n - i,
        {
            let ghost rest = views_of(more@).skip(i as int);
            let ghost known = self@.resources;
            assert(rest[0] == more@[i as int]@);
            assert(rest.skip(1) =~= views_of(more@).skip(i + 1));
            let found = self.holds(more[i].get_data());
            if !found && self.resources.len() < MAX_RECORDS {
                let one = more[i].clone();
                self.resources.push(one);
                assert(self@.resources =~= known.push(rest[0]));
            }
            i = i + 1;
        }
        assert(views_of(more@).skip(n as int) =~= Seq::<Ipv4ResourceView>::empty());
        self.data.set_answer_count(self.resources.len() as u16);
    }

    /// Whether some record of this answer holds `address`.
    pub fn holds(&self, address: &[u8; 4]) -> (found: bool)
        ensures
            found == has_address(self@.resources, address@),
    {
        let n = self.resources.len();
        let mut i: usize = 0;
        while i < n
            invariant
                n == self.resources@.len(),
                i <= n,
                forall|k: int| 0 <= k < i ==> (#[trigger] self@.resources[k]).data != address@,
            decreases n - i,
        {
            if same_address(self.resources[i].get_data(), address) {
                assert(self@.resources[i as int].data == address@);
                return true;
            }
            i = i + 1;
        }
        false
    }

    /// The answer without records to the query `id` for `name`.
    pub fn empty_answer(id: u16, name: String) -> (answer: Self)
        ensures
            answer@ == Ipv4AnswerView::empty(id, name@),
    {
        let data = Builder::new().id(id).name(name).flags(FLAGS_OK).build();
        let answer = Ipv4Answer { data, resources: Vec::new() };
        assert(answer@.resources =~= Seq::<Ipv4ResourceView>::empty());
        answer
    }

    /// The answer that serves `record` at `now`: its address, to live what
    /// is left of the record's time.
    pub fn from_record(record: &IpCacheRecord, now: u128) -> (answer: Self)
        ensures
            answer@ == Ipv4AnswerView::served(record@, now),
    {
        let data = Builder::new().flags(FLAGS_OK).name(record.get_key().clone()).answer(1).build();
        let ttl = (record.get_remain_time(now) / 1000) as u32;
        let basic = RecordBuilder::new().name(record.get_key().clone()).ttl(ttl)._type(
            TYPE_A,
        ).data_len(4).build();
        let resource = Ipv4Resource::from(basic, record.address);
        let mut resources: Vec<Ipv4Resource> = Vec::new();
        resources.push(resource);
        let answer = Ipv4Answer { data, resources };
        assert(answer@.resources =~= Ipv4AnswerView::served(record@, now).resources);
        answer
    }

    pub fn is_empty(&self) -> (empty: bool)
        ensures
            empty == (self@.resources.len() == 0),
    {
        self.resources.len() == 0
    }

    /// The addresses of the records, in their order.
    pub fn get_all_ips(&self) -> (ips: Vec<[u8; 4]>)
        ensures
            ips@.len() == self@.resources.len(),
            forall|i: int| 0 <= i < ips@.len() ==> (#[trigger] ips@[i])@ == self@.resources[i].data,
    {
        let mut ips: Vec<[u8; 4]> = Vec::new();
        let n = self.resources.len();
        let mut i: usize = 0;
        while i < n
            invariant
                n == self.resources@.len(),
                i <= n,
                ips@.len() == i,
                forall|k: int| 0 <= k < i ==> (#[trigger] ips@[k])@ == self@.resources[k].data,
            decreases n - i,
        {
            ips.push(*self.resources[i].get_data());
            i = i + 1;
        }
        ips
    }

    /// Keeps the first record that holds `ip` and drops every other record.
    pub fn retain_ip(&mut self, ip: &[u8; 4])
        ensures
            final(self)@ == old(self)@.retained(ip@),
    {
        let ghost all = self@.resources;
        let mut kept: Vec<Ipv4Resource> = Vec::new();
        let n = self.resources.len();
        let mut i: usize = 0;
        let mut found = false;
        assert(all.skip(0) =~= all);
        while i < n && !found
            invariant
                n == self.resources@.len(),
                self@.resources == all,
                i <= n,
                if found {
                    views_of(kept@) == first_with_address(all, ip@)
                } else {
                    kept@.len() == 0 && first_with_address(all, ip@) == first_with_address(
                        all.skip(i as int),
                        ip@,
                    )
                },
            decreases n - i + if found { 0int } else { 1int },
        {
            let ghost rest = all.skip(i as int);
            assert(rest[0] == self.resources@[i as int]@);
            if same_address(self.resources[i].get_data(), ip) {
                kept.push(self.resources[i].clone());
                found = true;
                assert(views_of(kept@) =~= seq![rest[0]]);
            } else {
                assert(rest.skip(1) =~= all.skip(i + 1));
                i = i + 1;
            }
        }
        proof {
            if !found {
                assert(all.skip(n as int).len() == 0);
                assert(views_of(kept@) =~= Seq::<Ipv4ResourceView>::empty());
            }
        }
        self.data.set_answer_count(kept.len() as u16);
        self.resources = kept;
    }

    pub fn get_name(&self) -> (name: &String)
        ensures
            name@ == self@.data.question.name,
    {
        self.data.get_name()
    }

    /// The time to live of the first record.
    pub fn get_ttl(&self) -> (ttl: u32)
        requires
            self@.resources.len() > 0,
        ensures
            ttl == self@.resources[0].basic.ttl,
    {
        let first = &self.resources[0];
        assert(self@.resources[0] == first@);
        first.get_ttl()
    }

    /// The address of the first record.
    pub fn get_address(&self) -> (address: &[u8; 4])
        requires
            self@.resources.len() > 0,
        ensures
            address@ == self@.resources[0].data,
    {
        let first = &self.resources[0];
        assert(self@.resources[0] == first@);
        first.get_data()
    }

    pub fn get_answer_count(&self) -> (count: u16)
        ensures
            count == self@.data.header.answer_count,
    {
        self.data.get_answer_count()
    }

    pub fn get_flags(&self) -> (flags: u16)
        ensures
            flags == self@.data.header.flags,
    {
        self.data.get_flags()
    }
}

/// Whether two addresses hold the same four bytes.
pub fn same_address(left: &[u8; 4], right: &[u8; 4]) -> (same: bool)
    ensures
        same == (left@ == right@),
{
    let same = left[0] == right[0] && left[1] == right[1] && left[2] == right[2] && left[3]
        == right[3];
    proof {
        if same {
            assert(left@ =~= right@);
        }
    }
    same
}

} // verus!
