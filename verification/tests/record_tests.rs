use easydns::cache::cache_record::ip_record::DNSCacheRecord;
use easydns::cache::cache_record::{CacheItem, CacheRecord, Expired};
use easydns::cache::limit_map::GetOrdKey;
use easydns::protocol::message::DNSAnswer;

fn get_test_bytes() -> Vec<u8> {
    let mut bytes = vec![42, 13];
    bytes.extend_from_slice(b"www.baidu.com");
    bytes.extend_from_slice(&[4, 0, 0, 3, 232, 16]);
    bytes.extend_from_slice(&[0u8; 16]);
    bytes.extend_from_slice(&[4, 1, 1, 1, 1]);
    bytes
}

fn get_valid_record() -> DNSCacheRecord {
    DNSCacheRecord {
        domain: "www.baidu.com".to_string(),
        address: [1, 1, 1, 1],
        create_time: 0,
        ttl_ms: 1000,
    }
}

fn get_test_record() -> DNSCacheRecord {
    DNSCacheRecord { domain: String::new(), address: [0, 0, 0, 0], create_time: 0, ttl_ms: 1000 }
}

fn get_valid_answer() -> DNSAnswer {
    let mut packet = vec![0, 0, 0x81, 0x80, 0, 1, 0, 1, 0, 0, 0, 0];
    let name = [3, 119, 119, 119, 5, 98, 97, 105, 100, 117, 3, 99, 111, 109, 0];
    packet.extend_from_slice(&name);
    packet.extend_from_slice(&[0, 1, 0, 1]);
    packet.extend_from_slice(&name);
    packet.extend_from_slice(&[0, 1, 0, 1, 0, 0, 0, 1, 0, 4, 1, 1, 1, 1]);
    DNSAnswer::from(packet).unwrap()
}

fn same(left: &DNSCacheRecord, right: &DNSCacheRecord) -> bool {
    left.domain == right.domain
        && left.address == right.address
        && left.create_time == right.create_time
        && left.ttl_ms == right.ttl_ms
}

#[test]
fn record_should_return_true_when_check_expired_given_expired() {
    let record = get_test_record();

    let result = record.is_expired(1001);

    assert!(result)
}

#[test]
fn record_should_return_false_when_check_expired_given_not_expired() {
    let record = get_test_record();

    let result = record.is_expired(999);

    assert!(!result)
}

#[test]
fn record_should_return_remain_time_when_get_remain_time_given_not_expired() {
    let record = get_test_record();

    let result = record.get_remain_time(999);

    assert_eq!(1, result)
}

#[test]
fn record_should_return_0_when_get_remain_time_given_expired() {
    let record = get_test_record();

    let result = record.get_remain_time(1001);

    assert_eq!(0, result)
}

#[test]
fn record_should_return_valid_record_when_create_from_bytes_given_valid_bytes() {
    let vec = get_test_bytes();
    let valid_bytes = vec.as_slice();

    let result = DNSCacheRecord::from_bytes(valid_bytes).unwrap();

    let expected = get_valid_record();
    assert!(same(&expected, &result))
}

#[test]
fn record_should_return_bytes_when_to_from_bytes_given_valid_bytes() {
    let record = get_valid_record();

    let result = record.to_file_bytes(0);

    let expected = get_test_bytes();
    assert_eq!(expected, result)
}

#[test]
fn record_should_return_remain_time_when_get_order_key_given_test_record() {
    let record = CacheRecord::Ip(get_test_record());

    let result: u128 = record.get_order_key(999);

    assert_eq!(1, result)
}

#[test]
fn record_should_return_valid_record_when_from_answer_given_valid_answer() {
    let answer = get_valid_answer();

    let result = answer.to_cache(0);

    let expected = get_valid_record();
    match result {
        Some(CacheRecord::Ip(record)) => {
            assert!(same(&expected, &record));
            assert_eq!(record.get_domain(), "www.baidu.com");
            assert_eq!(record.get_address(), &[1, 1, 1, 1]);
        }
        other => panic!("expected an address record, got {:?}", other),
    }
}

#[test]
fn record_made_from_seconds_counts_down_in_whole_seconds() {
    let record = DNSCacheRecord::new("www.baidu.com".to_string(), [1, 1, 1, 1], 3, 1_000);
    assert_eq!(record.get_domain(), "www.baidu.com");
    assert_eq!(record.get_address(), &[1, 1, 1, 1]);
    assert_eq!(record.create_time, 1_000);
    assert_eq!(record.get_ttl(), 3_000);
    assert_eq!(record.get_ttl_secs(1_000), 3);
    assert_eq!(record.get_ttl_secs(1_001), 2);
    assert_eq!(record.get_ttl_secs(3_000), 1);
    assert_eq!(record.get_ttl_secs(3_001), 0);
    assert_eq!(record.get_ttl_secs(9_000), 0);
    assert_eq!(record.get_ttl_secs(0), 3);
    assert_eq!(DNSCacheRecord::new(String::new(), [0; 4], u32::MAX, 0).get_ttl(), 4_294_967_295_000);
}
