//! A map from names to cache records that holds a limited number of them:
//! when a record comes in and the map is full, a tenth of the limit leaves
//! first, the records with the least time left.

use vstd::prelude::*;
use dashmap::DashMap;
use crate::cache::cache_record::{CacheItem, CacheRecord, CacheRecordView};

verus! {

/// A value that names the key by which it is ordered when room is made.
pub trait GetOrdKey {
    /// The order key of the value at `now`.
    spec fn order_key_of(&self, now: u128) -> u128;

    fn get_order_key(&self, now: u128) -> (key: u128)
        ensures
            key == self.order_key_of(now),
    ;
}

impl GetOrdKey for CacheRecord {
    open spec fn order_key_of(&self, now: u128) -> u128 {
        self@.order_key(now)
    }

    fn get_order_key(&self, now: u128) -> (key: u128) {
        self.get_remain_time(now)
    }
}

#[verifier::external_type_specification]
#[verifier::external_body]
#[verifier::reject_recursive_types(K)]
#[verifier::reject_recursive_types(V)]
#[verifier::reject_recursive_types(S)]
pub struct ExDashMap<K, V, S>(DashMap<K, V, S>);

/// A name with its record.
pub type RecordEntry = (String, CacheRecord);

/// The outside map that holds the records.
pub type RecordMap = DashMap<String, CacheRecord>;

/// What a `DashMap` from names to records holds: each name that has an
/// entry, with what its record holds.
pub uninterp spec fn map_contents(map: RecordMap) -> Map<
    Seq<char>,
    CacheRecordView,
>;

/// The map without any record.
pub open spec fn no_records() -> Map<Seq<char>, CacheRecordView> {
    Map::empty()
}

/// What each string of `keys` holds.
pub open spec fn names_of(keys: Seq<String>) -> Seq<Seq<char>> {
    Seq::new(keys.len(), |i: int| keys[i]@)
}

/// Makes an empty map.
///
/// Wraps `DashMap::with_capacity`, which creates a map without entries;
/// the capacity only reserves room.
#[verifier::external_body]
fn dash_with_capacity(capacity: usize) -> (made: RecordMap)
    ensures
        map_contents(made) == no_records(),
{
    DashMap::with_capacity(capacity)
}

/// A copy of the record under `key`.
///
/// Wraps `DashMap::get`, which hands out a reference to the entry of the
/// key when the map has one, and `Ref::value`, which is the entry's value.
#[verifier::external_body]
fn dash_get(map: &RecordMap, key: &String) -> (found: Option<CacheRecord>)
    ensures
        match found {
            Some(record) => map_contents(*map).contains_key(key@) && map_contents(*map)[key@]
                == record@,
            None => !map_contents(*map).contains_key(key@),
        },
{
    map.get(key).map(|r| r.value().clone())
}

/// Puts `value` under `key`, in place of what was there.
///
/// Wraps `DashMap::insert`, which inserts the key and the value and
/// returns the value that the key had before, if any.
#[verifier::external_body]
fn dash_insert(map: &mut RecordMap, key: String, value: CacheRecord)
    ensures
        map_contents(*final(map)) == map_contents(*old(map)).insert(key@, value@),
{
    map.insert(key, value);
}

/// Takes the entry of `key` out of the map.
///
/// Wraps `DashMap::remove`, which removes the entry of the key if the map
/// has one and leaves every other entry.
#[verifier::external_body]
fn dash_remove(map: &mut RecordMap, key: &String)
    ensures
        map_contents(*final(map)) == map_contents(*old(map)).remove(key@),
{
    map.remove(key);
}

/// The number of entries.
///
/// Wraps `DashMap::len`, the total number of key-value pairs stored.
#[verifier::external_body]
fn dash_len(map: &RecordMap) -> (n: usize)
    ensures
        n == map_contents(*map).dom().len(),
{
    map.len()
}

/// Every name of the map with a copy of its record, in no stated order.
///
/// Wraps `DashMap::iter`, which yields every entry of the map once, with
/// `key` and `value` of the entry yielded.
#[verifier::external_body]
fn dash_records(map: &RecordMap) -> (entries: Vec<RecordEntry>)
    ensures
        forall|i: int|
            0 <= i < entries@.len() ==> map_contents(*map).contains_key(
                (#[trigger] entries@[i]).0@,
            ) && entries@[i].1@ == map_contents(*map)[entries@[i].0@],
        forall|i: int, j: int|
            0 <= i < j < entries@.len() ==> (#[trigger] entries@[i]).0@ != (
            #[trigger] entries@[j]).0@,
        forall|name: Seq<char>| #[trigger]
            map_contents(*map).contains_key(name) ==> exists|i: int|
                0 <= i < entries@.len() && (#[trigger] entries@[i]).0@ == name,
{
    map.iter().map(|e| (e.key().clone(), e.value().clone())).collect()
}

/// Whether `key` is none of `doomed`.
pub fn key_stays(doomed: &Vec<String>, key: &String) -> (stays: bool)
    ensures
        stays == !names_of(doomed@).contains(key@),
{
    let n = doomed.len();
    let mut i: usize = 0;
    while i < n
        invariant
            n == doomed@.len(),
            i <= n,
            forall|k: int| 0 <= k < i ==> (#[trigger] names_of(doomed@)[k]) != key@,
        decreases n - i,
    {
        if doomed[i] == *key {
            assert(names_of(doomed@)[i as int] == key@);
            return false;
        }
        i = i + 1;
    }
    true
}

/// Takes the entries of all `doomed` names out of the map.
///
/// Wraps `DashMap::retain`, which keeps the entries for which the
/// predicate holds and discards the others.
#[verifier::external_body]
fn dash_retain(map: &mut RecordMap, doomed: &Vec<String>)
    ensures
        map_contents(*final(map)) == map_contents(*old(map)).remove_keys(
            names_of(doomed@).to_set(),
        ),
{
    map.retain(|k, _| key_stays(doomed, k));
}

/// Whether `picked` names `count` different positions of `order` such that
/// no value at a position left out is smaller than a value at a position
/// picked.
pub open spec fn picks_smallest(order: Seq<u128>, picked: Seq<usize>, count: nat) -> bool {
    &&& picked.len() == count
    &&& forall|a: int| 0 <= a < picked.len() ==> (#[trigger] picked[a]) < order.len()
    &&& forall|a: int, b: int| 0 <= a < b < picked.len() ==> picked[a] != picked[b]
    &&& forall|a: int, j: int|
        0 <= a < picked.len() && 0 <= j < order.len() && !picked.contains(j as usize)
            ==> order[(#[trigger] picked[a]) as int] <= #[trigger] order[j]
}

/// The positions of the `count` smallest values of `order`; among equal
/// values any may be picked.
pub fn smallest_indices(order: &Vec<u128>, count: usize) -> (picked: Vec<usize>)
    requires
        count <= order@.len(),
    ensures
        picks_smallest(order@, picked@, count as nat),
{
    let n = order.len();
    let mut perm: Vec<usize> = Vec::new();
    let mut k: usize = 0;
    while k < n
        invariant
            k <= n,
            perm@.len() == k,
            forall|a: int| 0 <= a < k ==> perm@[a] == a,
        decreases n - k,
    {
        perm.push(k);
        k = k + 1;
    }
    // where[j] is the place of position j in perm
    let ghost mut place: Seq<int> = Seq::new(n as nat, |j: int| j);
    let mut r: usize = 0;
    while r < count
        invariant
            n == order@.len(),
            count <= n,
            r <= count,
            perm@.len() == n,
            place.len() == n,
            forall|a: int| 0 <= a < n ==> (#[trigger] perm@[a]) < n,
            forall|a: int, b: int| 0 <= a < b < n ==> perm@[a] != perm@[b],
            forall|j: int| 0 <= j < n ==> 0 <= (#[trigger] place[j]) < n && perm@[place[j]] == j,
            forall|a: int, b: int|
                0 <= a < r && a <= b < n ==> order@[(#[trigger] perm@[a]) as int] <= order@[(
                #[trigger] perm@[b]) as int],
        decreases count - r,
    {
        let mut best: usize = r;
        let mut s: usize = r + 1;
        while s < n
            invariant
                n == order@.len(),
                perm@.len() == n,
                r <= best < s <= n,
                forall|a: int| 0 <= a < n ==> (#[trigger] perm@[a]) < n,
                forall|b: int|
                    r <= b < s ==> order@[perm@[best as int] as int] <= order@[(
                    #[trigger] perm@[b]) as int],
            decreases n - s,
        {
            if order[perm[s]] < order[perm[best]] {
                best = s;
            }
            s = s + 1;
        }
        let at_r = perm[r];
        let at_best = perm[best];
        let ghost before = perm@;
        perm.set(r, at_best);
        perm.set(best, at_r);
        proof {
            place = place.update(at_best as int, r as int).update(at_r as int, best as int);
            assert forall|j: int| 0 <= j < n implies 0 <= (#[trigger] place[j]) < n
                && perm@[place[j]] == j by {
                if j != at_best && j != at_r {
                    assert(before[place[j]] == j);
                }
            }
            assert forall|a: int, b: int| 0 <= a < r + 1 && a <= b < n implies order@[(
            #[trigger] perm@[a]) as int] <= order@[(#[trigger] perm@[b]) as int] by {
                if a < r {
                    assert(perm@[a] == before[a]);
                    if b == r {
                        assert(perm@[b] == before[best as int]);
                    } else if b == best {
                        assert(perm@[b] == before[r as int]);
                    } else {
                        assert(perm@[b] == before[b]);
                    }
                } else {
                    if b == best {
                        assert(perm@[b] == before[r as int]);
                    } else if b != r {
                        assert(perm@[b] == before[b]);
                    }
                }
            }
        }
        r = r + 1;
    }
    let mut picked: Vec<usize> = Vec::new();
    let mut t: usize = 0;
    while t < count
        invariant
            count <= n,
            perm@.len() == n,
            t <= count,
            picked@ == perm@.take(t as int),
        decreases count - t,
    {
        picked.push(perm[t]);
        t = t + 1;
        assert(picked@ =~= perm@.take(t as int));
    }
    proof {
        assert forall|a: int, j: int|
            0 <= a < picked@.len() && 0 <= j < order@.len() && !picked@.contains(
                j as usize,
            ) implies order@[(#[trigger] picked@[a]) as int] <= #[trigger] order@[j] by {
            let b = place[j];
            assert(perm@[b] == j);
            if b < count {
                assert(picked@[b] == j as usize);
            }
        }
    }
    picked
}

/// A name and what the record under it holds.
pub type Entry = (Seq<char>, CacheRecordView);

/// What a map holds once `entries` are put into it one after the other,
/// the first one first, without room being made.
pub open spec fn after_inserts(held: Map<Seq<char>, CacheRecordView>, entries: Seq<Entry>) -> Map<
    Seq<char>,
    CacheRecordView,
>
    decreases entries.len(),
{
    if entries.len() == 0 {
        held
    } else {
        after_inserts(held, entries.drop_last()).insert(entries.last().0, entries.last().1)
    }
}

/// Whether no two of `entries` bear one name.
pub open spec fn distinct_names(entries: Seq<Entry>) -> bool {
    forall|i: int, j: int| 0 <= i < j < entries.len() ==> entries[i].0 != entries[j].0
}

/// Whether `map` is `held` joined with `entries`: each entry under its
/// name, every other name as `held` has it.
pub open spec fn is_union(
    map: Map<Seq<char>, CacheRecordView>,
    held: Map<Seq<char>, CacheRecordView>,
    entries: Seq<Entry>,
) -> bool {
    &&& forall|i: int| 0 <= i < entries.len() ==> map.contains_key((#[trigger] entries[i]).0)
        && map[entries[i].0] == entries[i].1
    &&& forall|name: Seq<char>| #[trigger]
        map.contains_key(name) ==> held.contains_key(name) || exists|i: int|
            0 <= i < entries.len() && (#[trigger] entries[i]).0 == name
    &&& forall|name: Seq<char>|
        held.contains_key(name) && (forall|i: int|
            0 <= i < entries.len() ==> (#[trigger] entries[i]).0 != name) ==> #[trigger] map.contains_key(
            name,
        ) && map[name] == held[name]
}

/// Inserts under different names, with no room made, end in the union of
/// what was held and what was put in.
pub proof fn lemma_inserts_make_union(held: Map<Seq<char>, CacheRecordView>, entries: Seq<Entry>)
    requires
        distinct_names(entries),
    ensures
        is_union(after_inserts(held, entries), held, entries),
    decreases entries.len(),
{
    if entries.len() > 0 {
        let front = entries.drop_last();
        lemma_inserts_make_union(held, front);
        let before = after_inserts(held, front);
        let map = after_inserts(held, entries);
        assert forall|i: int| 0 <= i < entries.len() implies map.contains_key(
            (#[trigger] entries[i]).0,
        ) && map[entries[i].0] == entries[i].1 by {
            if i < front.len() {
                assert(front[i] == entries[i]);
                assert(entries[i].0 != entries[entries.len() - 1].0);
            }
        }
        assert forall|name: Seq<char>| #[trigger] map.contains_key(name) implies held.contains_key(
            name,
        ) || exists|i: int| 0 <= i < entries.len() && (#[trigger] entries[i]).0 == name by {
            if name == entries.last().0 {
                assert(entries[entries.len() - 1].0 == name);
            } else {
                assert(before.contains_key(name));
                if !held.contains_key(name) {
                    let i = choose|i: int| 0 <= i < front.len() && (#[trigger] front[i]).0 == name;
                    assert(entries[i].0 == name);
                }
            }
        }
        assert forall|name: Seq<char>|
            held.contains_key(name) && (forall|i: int|
                0 <= i < entries.len() ==> (#[trigger] entries[i]).0
                    != name) implies #[trigger] map.contains_key(name) && map[name]
            == held[name] by {
            assert(entries[entries.len() - 1].0 != name);
            assert forall|i: int| 0 <= i < front.len() implies (#[trigger] front[i]).0 != name by {
                assert(front[i] == entries[i]);
            }
        }
    }
}

/// Inserts under different names, with no room made, end in the same map
/// in whatever order they are made: two runs of the same entries agree.
pub proof fn lemma_inserts_in_any_order(
    held: Map<Seq<char>, CacheRecordView>,
    first: Seq<Entry>,
    second: Seq<Entry>,
)
    requires
        distinct_names(first),
        distinct_names(second),
        first.to_set() == second.to_set(),
    ensures
        after_inserts(held, first) == after_inserts(held, second),
{
    lemma_inserts_make_union(held, first);
    lemma_inserts_make_union(held, second);
    let a = after_inserts(held, first);
    let b = after_inserts(held, second);
    assert forall|name: Seq<char>| a.contains_key(name) implies b.contains_key(name) && a[name]
        == b[name] by {
        if exists|i: int| 0 <= i < first.len() && (#[trigger] first[i]).0 == name {
            let i = choose|i: int| 0 <= i < first.len() && (#[trigger] first[i]).0 == name;
            assert(first.to_set().contains(first[i]));
            assert(second.contains(first[i]));
            let j = choose|j: int| 0 <= j < second.len() && second[j] == first[i];
            assert(b.contains_key(second[j].0));
        } else {
            assert forall|j: int| 0 <= j < second.len() implies (#[trigger] second[j]).0
                != name by {
                assert(second.to_set().contains(second[j]));
                assert(first.contains(second[j]));
                let i = choose|i: int| 0 <= i < first.len() && first[i] == second[j];
                assert(first[i].0 != name);
            }
        }
    }
    assert forall|name: Seq<char>| b.contains_key(name) implies a.contains_key(name) by {
        if exists|j: int| 0 <= j < second.len() && (#[trigger] second[j]).0 == name {
            let j = choose|j: int| 0 <= j < second.len() && (#[trigger] second[j]).0 == name;
            assert(second.to_set().contains(second[j]));
            assert(first.contains(second[j]));
            let i = choose|i: int| 0 <= i < first.len() && first[i] == second[j];
            assert(a.contains_key(first[i].0));
        } else {
            assert forall|i: int| 0 <= i < first.len() implies (#[trigger] first[i]).0
                != name by {
                assert(first.to_set().contains(first[i]));
                assert(second.contains(first[i]));
                let j = choose|j: int| 0 <= j < second.len() && second[j] == first[i];
                assert(second[j].0 != name);
            }
        }
    }
    assert(a =~= b);
}

/// A map from names to cache records with a limit on their number.
pub struct LimitedMap {
    records: RecordMap,
    limit: usize,
}

/// The keeper of the cache's records.
pub type DNSCacheManager = LimitedMap;

impl View for LimitedMap {
    type V = Map<Seq<char>, CacheRecordView>;

    closed spec fn view(&self) -> Map<Seq<char>, CacheRecordView> {
        map_contents(self.records)
    }
}

/// Whether `evicted` may leave `held` to make room at `now`: it names
/// `count` records of `held`, and none that stays has less time left than
/// one that leaves.
pub open spec fn may_evict(
    held: Map<Seq<char>, CacheRecordView>,
    evicted: Set<Seq<char>>,
    count: nat,
    now: u128,
) -> bool {
    &&& evicted.finite()
    &&& evicted.len() == count
    &&& evicted.subset_of(held.dom())
    &&& forall|gone: Seq<char>, kept: Seq<char>|
        evicted.contains(gone) && held.contains_key(kept) && !evicted.contains(kept) ==> (
        #[trigger] held[gone]).order_key(now) <= (#[trigger] held[kept]).order_key(now)
}

/// Whether `after` is what a map with the limit `limit` may hold once
/// `value` is put under `key` at `now` into a map that held `before`: below
/// the limit the record is added; from the limit on a tenth of the limit
/// (rounded down) leaves first, records with the least time left.
pub open spec fn inserted(
    before: Map<Seq<char>, CacheRecordView>,
    key: Seq<char>,
    value: CacheRecordView,
    limit: nat,
    now: u128,
    after: Map<Seq<char>, CacheRecordView>,
) -> bool {
    if before.len() < limit {
        after == before.insert(key, value)
    } else {
        exists|evicted: Set<Seq<char>>|
            #![trigger before.remove_keys(evicted)]
            may_evict(before, evicted, limit / 10, now) && after == before.remove_keys(
                evicted,
            ).insert(key, value)
    }
}

impl LimitedMap {
    /// The number of records from which on room is made before a record
    /// comes in.
    pub closed spec fn limit(&self) -> nat {
        self.limit as nat
    }

    /// The map holds finitely many records.
    pub open spec fn well_formed(&self) -> bool {
        self@.dom().finite()
    }

    /// An empty map with the limit `limit`.
    pub fn from(limit: usize) -> (map: Self)
        ensures
            map.well_formed(),
            map@ == Map::<Seq<char>, CacheRecordView>::empty(),
            map.limit() == limit,
    {
        LimitedMap { records: dash_with_capacity(limit), limit }
    }

    /// A copy of the record under `key`.
    pub fn get(&self, key: &String) -> (found: Option<CacheRecord>)
        ensures
            match found {
                Some(record) => self@.contains_key(key@) && self@[key@] == record@,
                None => !self@.contains_key(key@),
            },
    {
        dash_get(&self.records, key)
    }

    /// Puts `value` under `key`. When the map holds as many records as its
    /// limit or more, a tenth of the limit (rounded down) leaves first: the
    /// records with the least time left at `now`, any of those with equal
    /// time left.
    pub fn insert(&mut self, key: String, value: CacheRecord, now: u128)
        requires
            old(self).well_formed(),
        ensures
            final(self).well_formed(),
            final(self).limit() == old(self).limit(),
            inserted(old(self)@, key@, value@, old(self).limit(), now, final(self)@),
            old(self).limit() >= 10 && old(self)@.len() <= old(self).limit() ==> final(self)@.len()
                <= final(self).limit(),
            final(self)@.len() <= old(self)@.len() + 1,
    {
        let ghost held = self@;
        if dash_len(&self.records) >= self.limit {
            let count = self.limit / 10;
            let entries = dash_records(&self.records);
            let ghost names = Seq::new(entries@.len(), |i: int| entries@[i].0@);
            proof {
                assert(names.no_duplicates());
                names.unique_seq_to_set();
                assert(names.to_set() =~= held.dom()) by {
                    assert forall|name: Seq<char>| held.dom().contains(name) implies names.to_set(
                    ).contains(name) by {
                        let i = choose|i: int|
                            0 <= i < entries@.len() && (#[trigger] entries@[i]).0@ == name;
                        assert(names[i] == name);
                    }
                    assert forall|name: Seq<char>| names.to_set().contains(
                        name,
                    ) implies held.dom().contains(name) by {
                        let i = choose|i: int| 0 <= i < names.len() && names[i] == name;
                        assert(held.contains_key(entries@[i].0@));
                    }
                }
            }
            let mut order: Vec<u128> = Vec::new();
            let mut i: usize = 0;
            while i < entries.len()
                invariant
                    i <= entries@.len(),
                    order@.len() == i,
                    forall|k: int|
                        0 <= k < i ==> order@[k] == (#[trigger] entries@[k]).1@.order_key(now),
                decreases entries@.len() - i,
            {
                order.push(entries[i].1.get_order_key(now));
                i = i + 1;
            }
            let picked = smallest_indices(&order, count);
            let mut doomed: Vec<String> = Vec::new();
            let mut j: usize = 0;
            while j < count
                invariant
                    j <= count,
                    picked@.len() == count,
                    forall|a: int| 0 <= a < picked@.len() ==> (#[trigger] picked@[a]) < entries@.len(),
                    doomed@.len() == j,
                    forall|a: int|
                        0 <= a < j ==> (#[trigger] doomed@[a])@ == entries@[picked@[a] as int].0@,
                decreases count - j,
            {
                doomed.push(entries[picked[j]].0.clone());
                j = j + 1;
            }
            let ghost gone = names_of(doomed@);
            let ghost evicted = gone.to_set();
            dash_retain(&mut self.records, &doomed);
            proof {
                assert(gone.no_duplicates()) by {
                    assert forall|a: int, b: int| 0 <= a < b < gone.len() implies gone[a]
                        != gone[b] by {
                        let x = picked@[a] as int;
                        let y = picked@[b] as int;
                        assert(entries@[x].0@ == gone[a]);
                        assert(entries@[y].0@ == gone[b]);
                        if x < y {
                            assert(entries@[x].0@ != entries@[y].0@);
                        } else {
                            assert(entries@[y].0@ != entries@[x].0@);
                        }
                    }
                }
                gone.unique_seq_to_set();
                vstd::seq_lib::seq_to_set_is_finite(gone);
                assert(evicted.subset_of(held.dom())) by {
                    assert forall|name: Seq<char>| evicted.contains(name) implies held.dom().contains(
                        name,
                    ) by {
                        let a = choose|a: int| 0 <= a < gone.len() && gone[a] == name;
                        assert(held.contains_key(entries@[picked@[a] as int].0@));
                    }
                }
                assert forall|lost: Seq<char>, kept: Seq<char>|
                    evicted.contains(lost) && held.contains_key(kept) && !evicted.contains(
                        kept,
                    ) implies (#[trigger] held[lost]).order_key(now) <= (#[trigger] held[kept]).order_key(
                    now,
                ) by {
                    let a = choose|a: int| 0 <= a < gone.len() && gone[a] == lost;
                    let x = picked@[a] as int;
                    let y = choose|y: int|
                        0 <= y < entries@.len() && (#[trigger] entries@[y]).0@ == kept;
                    assert(entries@[x].0@ == lost);
                    if picked@.contains(y as usize) {
                        let b = choose|b: int| 0 <= b < picked@.len() && picked@[b] == y as usize;
                        assert(gone[b] == kept);
                        assert(evicted.contains(kept));
                    }
                    assert(order@[picked@[a] as int] <= order@[y]);
                    assert(order@[x] == entries@[x].1@.order_key(now));
                    assert(order@[y] == entries@[y].1@.order_key(now));
                }
                assert(may_evict(held, evicted, (self.limit / 10) as nat, now));
                held.lemma_remove_keys_len(evicted);
                assert(held.remove_keys(evicted).dom().finite()) by {
                    assert(held.remove_keys(evicted).dom().subset_of(held.dom()));
                    vstd::set_lib::lemma_len_subset(held.remove_keys(evicted).dom(), held.dom());
                }
            }
        }
        dash_insert(&mut self.records, key, value);
    }

    /// Takes the record under `key` out of the map.
    pub fn remove(&mut self, key: &String)
        requires
            old(self).well_formed(),
        ensures
            final(self).well_formed(),
            final(self).limit() == old(self).limit(),
            final(self)@ == old(self)@.remove(key@),
    {
        dash_remove(&mut self.records, key);
    }

    /// Every name of the map with a copy of its record, each once, in no
    /// stated order.
    pub fn iter(&self) -> (entries: Vec<(String, CacheRecord)>)
        ensures
            forall|i: int|
                0 <= i < entries@.len() ==> self@.contains_key((#[trigger] entries@[i]).0@)
                    && entries@[i].1@ == self@[entries@[i].0@],
            forall|i: int, j: int|
                0 <= i < j < entries@.len() ==> (#[trigger] entries@[i]).0@ != (
                #[trigger] entries@[j]).0@,
            forall|name: Seq<char>| #[trigger]
                self@.contains_key(name) ==> exists|i: int|
                    0 <= i < entries@.len() && (#[trigger] entries@[i]).0@ == name,
    {
        dash_records(&self.records)
    }

    pub fn is_empty(&self) -> (empty: bool)
        requires
            self.well_formed(),
        ensures
            empty == (self@.len() == 0),
    {
        dash_len(&self.records) == 0
    }

    pub fn len(&self) -> (n: usize)
        ensures
            n == self@.len(),
    {
        dash_len(&self.records)
    }
}

} // verus!
