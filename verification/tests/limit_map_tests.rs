use easydns::cache::cache_record::{CacheItem, CacheRecord, SoaCacheRecord};
use easydns::cache::limit_map::{key_stays, smallest_indices, DNSCacheManager, LimitedMap};

fn record(name: &str, ttl_ms: u128) -> CacheRecord {
    CacheRecord::Soa(SoaCacheRecord { domain: name.to_string(), create_time: 0, ttl_ms })
}

fn ttl_of(found: Option<CacheRecord>) -> Option<u128> {
    found.map(|r| r.get_ttl_ms())
}

#[test]
fn should_insert_into_map_when_call_insert_given_empty_map() {
    let mut map = LimitedMap::from(1);

    map.insert("1".to_string(), record("1", 1), 0);

    let result = ttl_of(map.get(&"1".to_string()));
    assert_eq!(Some(1), result)
}

#[test]
fn should_insert_into_map_and_remove_10_persist_when_call_insert_given_full_map() {
    let mut map = LimitedMap::from(100);
    (0..100u128).for_each(|r| {
        map.insert(r.to_string(), record(&r.to_string(), r), 0);
    });

    map.insert("1000".to_string(), record("1000", 1000), 0);

    let result = ttl_of(map.get(&"1000".to_string()));
    let over_result = ttl_of(map.get(&"9".to_string()));
    assert_eq!(Some(1000), result);
    assert_eq!(91, map.len());
    assert_eq!(None, over_result);
    assert_eq!(Some(10), ttl_of(map.get(&"10".to_string())));
}

#[test]
fn should_remove_from_map_when_call_remove_given_has_value_in_map() {
    let mut map = LimitedMap::from(1);
    map.insert("1".to_string(), record("1", 1), 0);

    map.remove(&"1".to_string());

    let result = ttl_of(map.get(&"1".to_string()));
    assert_eq!(None, result)
}

#[test]
fn should_return_true_when_call_is_empty_given_empty_map() {
    let map = LimitedMap::from(1);

    let result = map.is_empty();

    assert!(result)
}

#[test]
fn should_return_false_when_call_is_empty_given_has_value_in_map() {
    let mut map = LimitedMap::from(1);
    map.insert("1".to_string(), record("1", 1), 0);

    let result = map.is_empty();

    assert!(!result)
}

#[test]
fn should_return_value_when_call_get_given_has_value() {
    let mut map = LimitedMap::from(1);
    map.insert("1".to_string(), record("1", 1), 0);

    let result = ttl_of(map.get(&"1".to_string()));

    assert_eq!(Some(1), result)
}

#[test]
fn should_return_none_when_call_get_given_no_value() {
    let mut map = LimitedMap::from(1);
    map.insert("2".to_string(), record("2", 1), 0);

    let result = ttl_of(map.get(&"1".to_string()));

    assert_eq!(None, result)
}

#[test]
fn insert_replaces_the_record_of_a_name() {
    let mut map = LimitedMap::from(10);
    map.insert("a".to_string(), record("a", 1), 0);
    map.insert("a".to_string(), record("a", 2), 0);
    assert_eq!(map.len(), 1);
    assert_eq!(ttl_of(map.get(&"a".to_string())), Some(2));
}

#[test]
fn eviction_goes_by_the_time_left_at_the_moment_of_the_insert() {
    let mut map = LimitedMap::from(10);
    for i in 0..10u128 {
        let made = CacheRecord::Soa(SoaCacheRecord {
            domain: i.to_string(),
            create_time: i * 100,
            ttl_ms: 1000 - i * 50,
        });
        map.insert(i.to_string(), made, 0);
    }
    // at 900: what is left is ttl - (900 - create): the oldest record has 100 left,
    // every later one more.
    map.insert("new".to_string(), record("new", 5), 900);
    assert_eq!(map.len(), 10);
    assert!(map.get(&"0".to_string()).is_none());
    assert!(map.get(&"1".to_string()).is_some());
    assert!(map.get(&"new".to_string()).is_some());
}

#[test]
fn a_limit_below_ten_evicts_nothing() {
    let mut map = LimitedMap::from(2);
    for name in ["a", "b", "c"] {
        map.insert(name.to_string(), record(name, 1), 0);
    }
    assert_eq!(map.len(), 3);
}

#[test]
fn iter_lists_every_record_once() {
    let mut map = LimitedMap::from(10);
    for name in ["a", "b", "c"] {
        map.insert(name.to_string(), record(name, 7), 0);
    }
    let mut names: Vec<String> = map.iter().into_iter().map(|(k, _)| k).collect();
    names.sort();
    assert_eq!(names, vec!["a", "b", "c"]);
}

#[test]
fn smallest_indices_picks_the_least_values() {
    let order: Vec<u128> = vec![50, 10, 40, 10, 30];
    let mut picked = smallest_indices(&order, 3);
    picked.sort();
    assert_eq!(picked, vec![1, 3, 4]);
    assert!(smallest_indices(&order, 0).is_empty());
}

#[test]
fn key_stays_unless_it_is_doomed() {
    let doomed = vec!["a".to_string(), "b".to_string()];
    assert!(!key_stays(&doomed, &"a".to_string()));
    assert!(key_stays(&doomed, &"c".to_string()));
}

#[test]
fn inserts_under_different_names_end_alike_in_any_order() {
    let names = ["a", "b", "c", "d"];
    let mut first = LimitedMap::from(100);
    for name in names {
        first.insert(name.to_string(), record(name, name.len() as u128 + 1), 0);
    }
    let mut second = LimitedMap::from(100);
    for name in names.iter().rev() {
        second.insert(name.to_string(), record(name, name.len() as u128 + 1), 0);
    }
    assert_eq!(first.len(), second.len());
    for name in names {
        assert_eq!(ttl_of(first.get(&name.to_string())), ttl_of(second.get(&name.to_string())));
    }
}

#[test]
fn only_the_first_query_for_a_name_goes_upstream() {
    let mut flights = easydns::cache::flight::Flights::new();
    let a = "a.example".to_string();
    let b = "b.example".to_string();
    assert!(flights.begin(&a));
    assert!(!flights.begin(&a));
    assert!(flights.begin(&b));
    assert!(flights.contains(&a));
    flights.end(&a);
    assert!(!flights.contains(&a));
    assert!(flights.contains(&b));
    assert!(flights.begin(&a));
    flights.end(&"never.began".to_string());
    assert!(flights.contains(&a) && flights.contains(&b));
}

#[test]
fn manager_keeps_and_finds_records() {
    let mut manager = DNSCacheManager::from(10);
    assert!(manager.is_empty());
    manager.insert("a".to_string(), record("a", 700), 0);
    assert_eq!(manager.len(), 1);
    assert_eq!(ttl_of(manager.get(&"a".to_string())), Some(700));
    assert_eq!(ttl_of(manager.get(&"b".to_string())), None);
}
