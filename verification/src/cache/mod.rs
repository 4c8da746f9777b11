//! The record cache: its records, the bounded map that holds them, the
//! policies that serve from it and the file it is kept in.

use vstd::prelude::*;
use crate::bytes::push_all;
use crate::cache::cache_record::ip_record::{
    lemma_ip_record_round_trip, IpCacheRecordView, RecordError,
};
use crate::cache::cache_record::soa_record::{lemma_soa_record_round_trip, SoaCacheRecordView};
use crate::cache::cache_record::{
    remaining_ms, CacheItem, CacheRecordView, IP_RECORD, SOA_RECORD,
};
use crate::cache::limit_map::{inserted, LimitedMap};
use crate::cache::strategy::{CacheAction, CacheActionView};
use crate::config::Config;
use crate::cursor::Cursor;
use crate::protocol::answer::{Answer, DnsAnswer};

pub mod cache_record;
pub mod flight;
pub mod limit_map;
pub mod strategy;

pub use cache_record::CacheRecord;
pub use cache_record::IpCacheRecord;
pub use cache_record::SoaCacheRecord;
pub use strategy::{CacheStrategy, ExpiredCacheStrategy, TimeoutCacheStrategy};

verus! {

/// The map of the cache.
pub type CacheMap = LimitedMap;

/// The policy that a cache pool serves by.
#[derive(Debug, Clone, Copy)]
pub enum Strategy {
    Expired(ExpiredCacheStrategy),
    Timeout(TimeoutCacheStrategy),
}

impl CacheStrategy for Strategy {
    open spec fn action_for(&self, record: CacheRecordView, now: u128) -> CacheActionView {
        match self {
            Strategy::Expired(strategy) => strategy.action_for(record, now),
            Strategy::Timeout(strategy) => strategy.action_for(record, now),
        }
    }

    fn handle(&self, record: &CacheRecord, now: u128) -> (action: CacheAction) {
        match self {
            Strategy::Expired(strategy) => strategy.handle(record, now),
            Strategy::Timeout(strategy) => strategy.handle(record, now),
        }
    }
}

/// The record that `bytes` stand for, by the mark in their first byte.
#[verifier::opaque]
pub open spec fn record_of(bytes: Seq<u8>) -> Result<CacheRecordView, RecordError> {
    if bytes.len() == 0 {
        Err(RecordError::Truncated)
    } else if bytes[0] == IP_RECORD {
        match IpCacheRecordView::read(bytes) {
            Ok(record) => Ok(CacheRecordView::Ip(record)),
            Err(e) => Err(e),
        }
    } else if bytes[0] == SOA_RECORD {
        match SoaCacheRecordView::read(bytes) {
            Ok(record) => Ok(CacheRecordView::Soa(record)),
            Err(e) => Err(e),
        }
    } else {
        Err(RecordError::BadMagic)
    }
}

/// The record at `pos` of a cache file, and the offset behind it; `None`
/// for the zero byte that closes the file. Each record stands behind one
/// byte that holds its length.
#[verifier::opaque]
pub open spec fn file_record_at(bytes: Seq<u8>, pos: int) -> Result<
    Option<(CacheRecordView, int)>,
    RecordError,
> {
    if pos < 0 || pos >= bytes.len() {
        Err(RecordError::Truncated)
    } else if bytes[pos] == 0 {
        Ok(None)
    } else if pos + 1 + bytes[pos] > bytes.len() {
        Err(RecordError::Truncated)
    } else {
        match record_of(bytes.subrange(pos + 1, pos + 1 + bytes[pos])) {
            Ok(record) => Ok(Some((record, pos + 1 + bytes[pos]))),
            Err(e) => Err(e),
        }
    }
}

/// The records of a cache file from `pos` on, in their order, behind
/// `seen`.
pub open spec fn file_records(seen: Seq<CacheRecordView>, bytes: Seq<u8>, pos: int) -> Result<
    Seq<CacheRecordView>,
    RecordError,
>
    decreases bytes.len() - pos,
{
    match file_record_at(bytes, pos) {
        Err(e) => Err(e),
        Ok(None) => Ok(seen),
        Ok(Some((record, next))) => if next <= pos || next > bytes.len() {
            Err(RecordError::Truncated)
        } else {
            file_records(seen.push(record), bytes, next)
        },
    }
}

/// What a cache holds once it has taken `records` in at `now`, without ever
/// making room: each record that had time left when it was written, to live
/// that long from `now` on, a later record in place of an earlier one of
/// the same name.
pub open spec fn loaded(records: Seq<CacheRecordView>, now: u128) -> Map<Seq<char>, CacheRecordView>
    decreases records.len(),
{
    if records.len() == 0 {
        Map::empty()
    } else {
        let before = loaded(records.drop_last(), now);
        let record = records.last();
        if record.ttl_ms() > 0 {
            before.insert(record.domain(), record.rebased(now, record.ttl_ms()))
        } else {
            before
        }
    }
}

/// Whether `held` is what a cache with the limit `limit` that held
/// `before` may hold once it has taken `record` in at `now`: a record that
/// had time left when it was written is put in, to live that long from
/// `now` on, with room made as the map of the cache makes it; any other
/// record is passed over.
pub open spec fn took_in(
    before: Map<Seq<char>, CacheRecordView>,
    record: CacheRecordView,
    now: u128,
    limit: nat,
    held: Map<Seq<char>, CacheRecordView>,
) -> bool {
    if record.ttl_ms() > 0 {
        inserted(before, record.domain(), record.rebased(now, record.ttl_ms()), limit, now, held)
    } else {
        held == before
    }
}

/// Whether `held` is what a cache with the limit `limit` may hold once it
/// has taken `records` in at `now`, one after the other.
pub open spec fn loaded_by(
    records: Seq<CacheRecordView>,
    now: u128,
    limit: nat,
    held: Map<Seq<char>, CacheRecordView>,
) -> bool
    decreases records.len(),
{
    if records.len() == 0 {
        held == Map::<Seq<char>, CacheRecordView>::empty()
    } else {
        exists|before: Map<Seq<char>, CacheRecordView>|
            #![trigger took_in(before, records.last(), now, limit, held)]
            loaded_by(records.drop_last(), now, limit, before) && took_in(
                before,
                records.last(),
                now,
                limit,
                held,
            )
    }
}

/// What the cache never holds more of than it took in.
pub proof fn lemma_loaded_len(records: Seq<CacheRecordView>, now: u128)
    ensures
        loaded(records, now).dom().finite(),
        loaded(records, now).len() <= records.len(),
    decreases records.len(),
{
    if records.len() > 0 {
        lemma_loaded_len(records.drop_last(), now);
    }
}

/// The bytes of one record in a cache file written at `now`: its length in
/// one byte, then the record; nothing for a record longer than 255 bytes,
/// which no length byte can announce.
pub open spec fn record_image(record: CacheRecordView, now: u128) -> Seq<u8> {
    let form = record.file_form(now);
    if 0 < form.len() <= 255 {
        seq![form.len() as u8] + form
    } else {
        Seq::<u8>::empty()
    }
}

/// The bytes of a cache file that holds `records`, written at `now`: the
/// records one behind the other and a closing zero byte.
pub open spec fn file_image(records: Seq<CacheRecordView>, now: u128) -> Seq<u8>
    decreases records.len(),
{
    if records.len() == 0 {
        seq![0u8]
    } else {
        record_image(records[0], now) + file_image(records.skip(1), now)
    }
}

/// The record as it reads back once it was written at `now`: to live what
/// was left of its time then.
pub open spec fn written(record: CacheRecordView, now: u128) -> CacheRecordView {
    match record {
        CacheRecordView::Ip(inner) => CacheRecordView::Ip(
            IpCacheRecordView {
                ttl_ms: remaining_ms(inner.create_time, inner.ttl_ms, now),
                ..inner
            },
        ),
        CacheRecordView::Soa(inner) => CacheRecordView::Soa(
            SoaCacheRecordView {
                ttl_ms: remaining_ms(inner.create_time, inner.ttl_ms, now),
                ..inner
            },
        ),
    }
}

/// Whether the record can be kept in a cache file written at `now`: its
/// name fits in one length byte and the whole record in another, an address
/// has four bytes, and what is left of its time fits in four bytes.
pub open spec fn storable(record: CacheRecordView, now: u128) -> bool {
    &&& match record {
        CacheRecordView::Ip(inner) => inner.fits(),
        CacheRecordView::Soa(inner) => inner.fits(),
    }
    &&& record.order_key(now) < 0x1_0000_0000
    &&& record.file_form(now).len() <= 255
}

/// A record that can be kept reads back from its bytes as it was written.
pub proof fn lemma_record_reads_back(record: CacheRecordView, now: u128)
    requires
        storable(record, now),
    ensures
        record_of(record.file_form(now)) == Ok::<CacheRecordView, RecordError>(
            written(record, now),
        ),
{
    reveal(record_of);
    match record {
        CacheRecordView::Ip(inner) => {
            lemma_ip_record_round_trip(inner, now);
            assert(inner.file_form(now)[0] == IP_RECORD);
        },
        CacheRecordView::Soa(inner) => {
            lemma_soa_record_round_trip(inner, now);
            assert(inner.file_form(now)[0] == SOA_RECORD);
        },
    }
}

/// Each of `records` as it reads back once it was written at `now`.
pub open spec fn all_written(records: Seq<CacheRecordView>, now: u128) -> Seq<CacheRecordView> {
    Seq::new(records.len(), |i: int| written(records[i], now))
}

/// A record that can be kept, written behind `front` in a cache file, is
/// read back from there.
pub proof fn lemma_file_record_reads_back(
    front: Seq<u8>,
    record: CacheRecordView,
    back: Seq<u8>,
    now: u128,
)
    requires
        storable(record, now),
    ensures
        record_image(record, now).len() > 1,
        file_record_at(front + record_image(record, now) + back, front.len() as int) == Ok::<
            Option<(CacheRecordView, int)>,
            RecordError,
        >(Some((written(record, now), (front.len() + record_image(record, now).len()) as int))),
{
    reveal(file_record_at);
    let form = record.file_form(now);
    let image = record_image(record, now);
    let bytes = front + image + back;
    let pos = front.len() as int;
    lemma_record_reads_back(record, now);
    assert(form.len() > 0) by {
        match record {
            CacheRecordView::Ip(inner) => {
                assert(inner.file_form(now)[0] == IP_RECORD);
            },
            CacheRecordView::Soa(inner) => {
                assert(inner.file_form(now)[0] == SOA_RECORD);
            },
        }
    }
    assert(image == seq![form.len() as u8] + form);
    assert(bytes[pos] == form.len() as u8);
    assert(bytes.subrange(pos + 1, pos + 1 + form.len()) =~= form);
}

/// A cache file reads back as it was written: the records that stand
/// behind `front` in the bytes of a file written at `now` are the records
/// written, in their order, each to live what was left of its time.
pub proof fn lemma_file_reads_back(
    seen: Seq<CacheRecordView>,
    front: Seq<u8>,
    records: Seq<CacheRecordView>,
    now: u128,
)
    requires
        forall|i: int| 0 <= i < records.len() ==> storable(#[trigger] records[i], now),
    ensures
        file_records(seen, front + file_image(records, now), front.len() as int) == Ok::<
            Seq<CacheRecordView>,
            RecordError,
        >(seen + all_written(records, now)),
    decreases records.len(),
{
    let bytes = front + file_image(records, now);
    let pos = front.len() as int;
    if records.len() == 0 {
        assert(file_record_at(bytes, pos) == Ok::<Option<(CacheRecordView, int)>, RecordError>(
            None,
        )) by {
            reveal(file_record_at);
            assert(bytes[pos] == 0);
        }
        assert(seen + all_written(records, now) =~= seen);
    } else {
        let first = records[0];
        let rest = records.skip(1);
        let image = record_image(first, now);
        lemma_file_record_reads_back(front, first, file_image(rest, now), now);
        assert(bytes =~= front + image + file_image(rest, now));
        assert forall|i: int| 0 <= i < rest.len() implies storable(#[trigger] rest[i], now) by {
            assert(rest[i] == records[i + 1]);
        }
        lemma_file_reads_back(seen.push(written(first, now)), front + image, rest, now);
        assert(seen.push(written(first, now)) + all_written(rest, now) =~= seen + all_written(
            records,
            now,
        )) by {
            assert forall|i: int| 0 <= i < rest.len() implies all_written(rest, now)[i]
                == all_written(records, now)[i + 1] by {
                assert(rest[i] == records[i + 1]);
            }
        }
    }
}

/// Whether `names` lists every name of `held` once.
pub open spec fn lists(held: Map<Seq<char>, CacheRecordView>, names: Seq<Seq<char>>) -> bool {
    names.no_duplicates() && names.to_set() == held.dom()
}

/// The records that `held` has under `names`, in the order of `names`.
pub open spec fn records_under(
    held: Map<Seq<char>, CacheRecordView>,
    names: Seq<Seq<char>>,
) -> Seq<CacheRecordView> {
    Seq::new(names.len(), |i: int| held[names[i]])
}

/// What a cache takes in from records with different names that were
/// written at `written_at`: under each name the record that had time left
/// then, and under no other name.
pub proof fn lemma_loaded_of_written(records: Seq<CacheRecordView>, written_at: u128, read_at: u128)
    requires
        forall|i: int, j: int|
            0 <= i < j < records.len() ==> (#[trigger] records[i]).domain() != (
            #[trigger] records[j]).domain(),
    ensures
        forall|i: int|
            0 <= i < records.len() ==> (loaded(
                all_written(records, written_at),
                read_at,
            ).contains_key((#[trigger] records[i]).domain()) <==> records[i].order_key(written_at)
                > 0),
        forall|i: int|
            0 <= i < records.len() && (#[trigger] records[i]).order_key(written_at) > 0 ==> loaded(
                all_written(records, written_at),
                read_at,
            )[records[i].domain()] == records[i].rebased(
                read_at,
                records[i].order_key(written_at),
            ),
        forall|name: Seq<char>| #[trigger]
            loaded(all_written(records, written_at), read_at).contains_key(name) ==> exists|
                i: int,
            |
                0 <= i < records.len() && (#[trigger] records[i]).domain() == name,
    decreases records.len(),
{
    if records.len() > 0 {
        let front = records.drop_last();
        let last = records.last();
        let all = all_written(records, written_at);
        assert(all.drop_last() =~= all_written(front, written_at));
        assert(all.last() == written(last, written_at));
        assert(written(last, written_at).ttl_ms() == last.order_key(written_at));
        assert(written(last, written_at).domain() == last.domain());
        assert(written(last, written_at).rebased(read_at, last.order_key(written_at))
            == last.rebased(read_at, last.order_key(written_at)));
        assert forall|i: int, j: int| 0 <= i < j < front.len() implies (#[trigger] front[i]).domain()
            != (#[trigger] front[j]).domain() by {
            assert(front[i] == records[i] && front[j] == records[j]);
        }
        lemma_loaded_of_written(front, written_at, read_at);
        let before = loaded(all_written(front, written_at), read_at);
        let after = loaded(all, read_at);
        assert(!before.contains_key(last.domain())) by {
            if before.contains_key(last.domain()) {
                let i = choose|i: int|
                    0 <= i < front.len() && (#[trigger] front[i]).domain() == last.domain();
                assert(records[i] == front[i]);
                assert(records[i].domain() != records[records.len() - 1].domain());
            }
        }
        assert forall|i: int| 0 <= i < records.len() implies (after.contains_key(
            (#[trigger] records[i]).domain(),
        ) <==> records[i].order_key(written_at) > 0) && (records[i].order_key(written_at) > 0
            ==> after[records[i].domain()] == records[i].rebased(
            read_at,
            records[i].order_key(written_at),
        )) by {
            if i < front.len() {
                assert(records[i] == front[i]);
                assert(records[i].domain() != records[records.len() - 1].domain());
            }
        }
        assert forall|name: Seq<char>| #[trigger] after.contains_key(name) implies exists|i: int|
            0 <= i < records.len() && (#[trigger] records[i]).domain() == name by {
            if before.contains_key(name) {
                let i = choose|i: int| 0 <= i < front.len() && (#[trigger] front[i]).domain() == name;
                assert(records[i] == front[i]);
            } else {
                assert(records[records.len() - 1].domain() == name);
            }
        }
    }
}

/// A cache that is written to its file and read back holds what had time
/// left. `held` is the cache at `written_at`, each record under its own
/// name and fit to be written, and `names` is the order in which the
/// records are written. The file reads back as the records written, as
/// many as there were. Taken in at `read_at`, they leave under a name a
/// record exactly where the cache had one with time left at `written_at`;
/// that record counts as made at `read_at`, is to live what was left at
/// `written_at`, and so has exactly that much left at `read_at`.
pub proof fn lemma_reload_keeps_what_had_time_left(
    held: Map<Seq<char>, CacheRecordView>,
    names: Seq<Seq<char>>,
    written_at: u128,
    read_at: u128,
)
    requires
        lists(held, names),
        forall|name: Seq<char>| #[trigger]
            held.contains_key(name) ==> held[name].domain() == name && storable(
                held[name],
                written_at,
            ),
    ensures
        file_records(
            Seq::<CacheRecordView>::empty(),
            file_image(records_under(held, names), written_at),
            0,
        ) == Ok::<Seq<CacheRecordView>, RecordError>(
            all_written(records_under(held, names), written_at),
        ),
        all_written(records_under(held, names), written_at).len() == names.len(),
        forall|name: Seq<char>|
            (#[trigger] loaded(
                all_written(records_under(held, names), written_at),
                read_at,
            ).contains_key(name)) <==> held.contains_key(name) && held[name].order_key(written_at)
                > 0,
        forall|name: Seq<char>|
            held.contains_key(name) && held[name].order_key(written_at) > 0 ==> {
                let kept = (#[trigger] loaded(
                    all_written(records_under(held, names), written_at),
                    read_at,
                )[name]);
                &&& kept == held[name].rebased(read_at, held[name].order_key(written_at))
                &&& kept.create_time() == read_at
                &&& kept.ttl_ms() == held[name].order_key(written_at)
                &&& kept.order_key(read_at) == held[name].order_key(written_at)
            },
{
    let records = records_under(held, names);
    let again = loaded(all_written(records, written_at), read_at);
    assert forall|i: int| 0 <= i < records.len() implies storable(
        #[trigger] records[i],
        written_at,
    ) && records[i].domain() == names[i] by {
        assert(names.to_set().contains(names[i]));
        assert(held.contains_key(names[i]));
    }
    lemma_file_reads_back(
        Seq::<CacheRecordView>::empty(),
        Seq::<u8>::empty(),
        records,
        written_at,
    );
    assert(Seq::<u8>::empty() + file_image(records, written_at) =~= file_image(
        records,
        written_at,
    ));
    assert(Seq::<CacheRecordView>::empty() + all_written(records, written_at) =~= all_written(
        records,
        written_at,
    ));
    lemma_loaded_of_written(records, written_at, read_at);
    assert forall|name: Seq<char>|
        (#[trigger] again.contains_key(name)) <==> held.contains_key(name) && held[name].order_key(
            written_at,
        ) > 0 by {
        if again.contains_key(name) {
            let i = choose|i: int| 0 <= i < records.len() && (#[trigger] records[i]).domain() == name;
            assert(names[i] == name);
            assert(names.to_set().contains(names[i]));
        }
        if held.contains_key(name) && held[name].order_key(written_at) > 0 {
            assert(names.to_set().contains(name));
            let i = choose|i: int| 0 <= i < names.len() && names[i] == name;
            assert(records[i] == held[name]);
        }
    }
    assert forall|name: Seq<char>|
        held.contains_key(name) && held[name].order_key(written_at) > 0 implies {
        let kept = (#[trigger] again[name]);
        &&& kept == held[name].rebased(read_at, held[name].order_key(written_at))
        &&& kept.create_time() == read_at
        &&& kept.ttl_ms() == held[name].order_key(written_at)
        &&& kept.order_key(read_at) == held[name].order_key(written_at)
    } by {
        assert(names.to_set().contains(name));
        let i = choose|i: int| 0 <= i < names.len() && names[i] == name;
        assert(records[i] == held[name]);
    }
}

/// Reads the record that `bytes` stand for.
pub fn read_record(bytes: &[u8]) -> (r: Result<CacheRecord, RecordError>)
    ensures
        match r {
            Ok(record) => record_of(bytes@) == Ok::<CacheRecordView, RecordError>(record@),
            Err(e) => record_of(bytes@) == Err::<CacheRecordView, RecordError>(e),
        },
{
    reveal(record_of);
    if bytes.len() == 0 {
        return Err(RecordError::Truncated);
    }
    let flag = bytes[0];
    if flag == IP_RECORD {
        match IpCacheRecord::from(bytes) {
            Ok(record) => Ok(CacheRecord::Ip(record)),
            Err(e) => Err(e),
        }
    } else if flag == SOA_RECORD {
        match SoaCacheRecord::from(bytes) {
            Ok(record) => Ok(CacheRecord::Soa(record)),
            Err(e) => Err(e),
        }
    } else {
        Err(RecordError::BadMagic)
    }
}

/// `record` as it is kept once read back at `now`: made at `now`, to live
/// as long as it had left when it was written.
pub fn rebase(record: CacheRecord, now: u128) -> (kept: CacheRecord)
    ensures
        kept@ == record@.rebased(now, record@.ttl_ms()),
{
    match record {
        CacheRecord::Ip(inner) => CacheRecord::Ip(
            IpCacheRecord {
                domain: inner.domain,
                address: inner.address,
                create_time: now,
                ttl_ms: inner.ttl_ms,
            },
        ),
        CacheRecord::Soa(inner) => CacheRecord::Soa(
            SoaCacheRecord { domain: inner.domain, create_time: now, ttl_ms: inner.ttl_ms },
        ),
    }
}

/// Builds the map of a cache from the bytes of its file, read at `now`.
/// Fails where the bytes are no well-formed cache file. As long as the file
/// holds no more records than `limit`, the map holds exactly what the file
/// had left to live.
pub fn create_map_by_vec_u8(limit: usize, file_vec: Vec<u8>, now: u128) -> (r: Result<
    LimitedMap,
    RecordError,
>)
    ensures
        match r {
            Ok(map) => map.well_formed() && map.limit() == limit && match file_records(
                Seq::<CacheRecordView>::empty(),
                file_vec@,
                0,
            ) {
                Ok(records) => loaded_by(records, now, limit as nat, map@) && (records.len()
                    <= limit ==> map@ == loaded(records, now)),
                Err(_) => false,
            },
            Err(e) => file_records(Seq::<CacheRecordView>::empty(), file_vec@, 0) == Err::<
                Seq<CacheRecordView>,
                RecordError,
            >(e),
        },
{
    let mut map = LimitedMap::from(limit);
    let mut cursor = Cursor::form(file_vec);
    let ghost bytes = cursor.bytes();
    let ghost mut seen = Seq::<CacheRecordView>::empty();
    let total = cursor.len();
    loop
        invariant
            cursor.bytes() == bytes,
            bytes == file_vec@,
            total == bytes.len(),
            cursor.position() <= total,
            map.well_formed(),
            map.limit() == limit,
            map@.len() <= seen.len(),
            loaded_by(seen, now, limit as nat, map@),
            seen.len() <= limit ==> map@ == loaded(seen, now),
            file_records(Seq::<CacheRecordView>::empty(), bytes, 0) == file_records(
                seen,
                bytes,
                cursor.position() as int,
            ),
        decreases total - cursor.position(),
    {
        reveal(file_record_at);
        if cursor.remaining() == 0 {
            return Err(RecordError::Truncated);
        }
        let len = cursor.take() as usize;
        if len == 0 {
            return Ok(map);
        }
        if cursor.remaining() < len {
            return Err(RecordError::Truncated);
        }
        let record = match read_record(cursor.take_slice(len)) {
            Ok(record) => record,
            Err(e) => { return Err(e); },
        };
        let ghost before = map@;
        let ghost taken = record@;
        proof {
            lemma_loaded_len(seen, now);
            assert(seen.push(taken).drop_last() =~= seen);
            seen = seen.push(taken);
        }
        if record.get_ttl_ms() > 0 {
            let key = record.get_key().clone();
            map.insert(key, rebase(record, now), now);
        }
        proof {
            assert(seen.last() == taken);
            assert(took_in(before, seen.last(), now, limit as nat, map@));
        }
    }
}

/// The cache as the stages of a query see it: the map of records, the
/// policy that serves from it and the name of the file it is kept in.
pub struct CachePool {
    strategy: Strategy,
    file_name: String,
    map: LimitedMap,
}

/// What a [`CachePool`] holds.
pub struct CachePoolView {
    pub strategy: Strategy,
    pub file_name: Seq<char>,
    pub records: Map<Seq<char>, CacheRecordView>,
    pub limit: nat,
}

impl View for CachePool {
    type V = CachePoolView;

    closed spec fn view(&self) -> CachePoolView {
        CachePoolView {
            strategy: self.strategy,
            file_name: self.file_name@,
            records: self.map@,
            limit: self.map.limit(),
        }
    }
}

impl CachePoolView {
    /// What is to be done at `now` for a query for `key`: ask upstream where
    /// the cache has no record of the name, else what the policy says of
    /// the record.
    pub open spec fn action_for(self, key: Seq<char>, now: u128) -> CacheActionView {
        if self.records.contains_key(key) {
            self.strategy.action_for(self.records[key], now)
        } else {
            CacheActionView::Fetch
        }
    }
}

/// The policy that the number `cache_get_strategy` of a configuration
/// names: zero for the strict one, any other for the one that serves stale
/// records for `timeout` milliseconds.
pub open spec fn strategy_of(cache_get_strategy: usize, timeout: usize, strategy: Strategy) -> bool {
    if cache_get_strategy == 0 {
        strategy is Expired
    } else {
        strategy matches Strategy::Timeout(inner) && inner.grace() == timeout
    }
}

impl CachePool {
    /// The cache holds finitely many records.
    pub open spec fn well_formed(&self) -> bool {
        self@.records.dom().finite()
    }

    /// Sets the cache up at `now` as `config` says, from the bytes of its
    /// file where there are any. A file that cannot be read as a cache file
    /// counts as no file.
    pub fn from(config: &Config, file: Option<Vec<u8>>, now: u128) -> (pool: Self)
        ensures
            pool.well_formed(),
            pool@.limit == config.cache_num,
            pool@.file_name == config.cache_file@,
            strategy_of(config.cache_get_strategy, config.cache_ttl_timeout_ms, pool@.strategy),
            match file {
                Some(bytes) => match file_records(Seq::<CacheRecordView>::empty(), bytes@, 0) {
                    Ok(records) => loaded_by(
                        records,
                        now,
                        config.cache_num as nat,
                        pool@.records,
                    ) && (records.len() <= config.cache_num ==> pool@.records == loaded(
                        records,
                        now,
                    )),
                    Err(_) => pool@.records == Map::<Seq<char>, CacheRecordView>::empty(),
                },
                None => pool@.records == Map::<Seq<char>, CacheRecordView>::empty(),
            },
    {
        let map = create_map_by_config(config, file, now);
        let strategy = if config.cache_get_strategy == 0 {
            Strategy::Expired(ExpiredCacheStrategy::from())
        } else {
            Strategy::Timeout(TimeoutCacheStrategy::from(config.cache_ttl_timeout_ms as u128))
        };
        CachePool { strategy, file_name: config.cache_file.clone(), map }
    }

    /// What is to be done at `now` for a query for `key`.
    pub fn get(&self, key: &String, now: u128) -> (action: CacheAction)
        ensures
            action@ == self@.action_for(key@, now),
    {
        match self.map.get(key) {
            Some(record) => self.strategy.handle(&record, now),
            None => CacheAction::Fetch,
        }
    }

    /// Keeps the answer that came from upstream at `now` to a query for
    /// `key`, where it is one that can be kept; room is made as the map of
    /// the cache makes it.
    pub fn store(&mut self, key: String, answer: &DnsAnswer, now: u128)
        requires
            old(self).well_formed(),
        ensures
            final(self).well_formed(),
            final(self)@.strategy == old(self)@.strategy,
            final(self)@.file_name == old(self)@.file_name,
            final(self)@.limit == old(self)@.limit,
            old(self)@.limit >= 10 && old(self)@.records.len() <= old(self)@.limit
                ==> final(self)@.records.len() <= final(self)@.limit,
            match answer@.cache_form(now) {
                None => final(self)@.records == old(self)@.records,
                Some(record) => inserted(
                    old(self)@.records,
                    key@,
                    record,
                    old(self)@.limit,
                    now,
                    final(self)@.records,
                ),
            },
    {
        if let Some(record) = answer.to_cache(now) {
            self.map.insert(key, record, now);
        }
    }

    /// The bytes of the cache file written at `now`: every record of the
    /// cache that fits behind a length byte, in some order, and the closing
    /// zero byte.
    pub fn to_file_bytes(&self, now: u128) -> (out: Vec<u8>)
        ensures
            exists|names: Seq<Seq<char>>|
                #![trigger lists(self@.records, names)]
                lists(self@.records, names) && file_image(
                    records_under(self@.records, names),
                    now,
                ) == out@,
    {
        let entries = self.map.iter();
        let ghost names = Seq::new(entries@.len(), |i: int| entries@[i].0@);
        let ghost records = records_under(self@.records, names);
        proof {
            assert(names.no_duplicates());
            assert(names.to_set() =~= self@.records.dom()) by {
                assert forall|name: Seq<char>| self@.records.dom().contains(
                    name,
                ) implies names.to_set().contains(name) by {
                    let i = choose|i: int|
                        0 <= i < entries@.len() && (#[trigger] entries@[i]).0@ == name;
                    assert(names[i] == name);
                }
                assert forall|name: Seq<char>| names.to_set().contains(
                    name,
                ) implies self@.records.dom().contains(name) by {
                    let i = choose|i: int| 0 <= i < names.len() && names[i] == name;
                    assert(self@.records.contains_key(entries@[i].0@));
                }
            }
            assert(records.skip(0) =~= records);
        }
        let mut vec: Vec<u8> = Vec::new();
        let n = entries.len();
        let mut i: usize = 0;
        while i < n
            invariant
                n == entries@.len(),
                records.len() == n,
                i <= n,
                forall|k: int| 0 <= k < n ==> (#[trigger] entries@[k]).1@ == records[k],
                file_image(records, now) == vec@ + file_image(records.skip(i as int), now),
            decreases n - i,
        {
            let bytes = entries[i].1.to_bytes(now);
            proof {
                let rest = records.skip(i as int);
                assert(rest[0] == records[i as int]);
                assert(rest.skip(1) =~= records.skip(i + 1));
            }
            if 0 < bytes.len() && bytes.len() <= 255 {
                vec.push(bytes.len() as u8);
                push_all(&mut vec, bytes.as_slice());
            }
            assert(vec@ + file_image(records.skip(i + 1), now) =~= file_image(records, now));
            i = i + 1;
        }
        vec.push(0u8);
        proof {
            assert(records.skip(n as int).len() == 0);
            assert(vec@ =~= file_image(records, now));
            assert(lists(self@.records, names));
        }
        vec
    }

    /// The bytes to write to the cache file at `now`; none where the cache
    /// holds no record, for then the file is left as it is.
    pub fn write_to_file(&self, now: u128) -> (image: Option<Vec<u8>>)
        requires
            self.well_formed(),
        ensures
            image is None <==> self@.records.len() == 0,
            image matches Some(out) ==> exists|names: Seq<Seq<char>>|
                #![trigger lists(self@.records, names)]
                lists(self@.records, names) && file_image(
                    records_under(self@.records, names),
                    now,
                ) == out@,
    {
        if self.map.is_empty() {
            return None;
        }
        Some(self.to_file_bytes(now))
    }

    pub fn get_file_name(&self) -> (name: &String)
        ensures
            name@ == self@.file_name,
    {
        &self.file_name
    }

    pub fn len(&self) -> (n: usize)
        ensures
            n == self@.records.len(),
    {
        self.map.len()
    }
}

/// Builds the map of a cache at `now` as `config` says, from the bytes of
/// its file where there are any. A file that is empty or cannot be read as
/// a cache file counts as no file.
pub fn create_map_by_config(config: &Config, file: Option<Vec<u8>>, now: u128) -> (map: LimitedMap)
    ensures
        map.well_formed(),
        map.limit() == config.cache_num,
        match file {
            Some(bytes) => match file_records(Seq::<CacheRecordView>::empty(), bytes@, 0) {
                Ok(records) => loaded_by(records, now, config.cache_num as nat, map@) && (
                records.len() <= config.cache_num ==> map@ == loaded(records, now)),
                Err(_) => map@ == Map::<Seq<char>, CacheRecordView>::empty(),
            },
            None => map@ == Map::<Seq<char>, CacheRecordView>::empty(),
        },
{
    match file {
        Some(file_vec) => {
            match create_map_by_vec_u8(config.cache_num, file_vec, now) {
                Ok(map) => map,
                Err(_) => LimitedMap::from(config.cache_num),
            }
        },
        None => LimitedMap::from(config.cache_num),
    }
}

} // verus!
