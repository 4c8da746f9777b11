use easydns::cache::cache_record::ip_record::RecordError;
use easydns::cache::cache_record::{
    BoxedClone, CacheItem, CacheRecord, Expired, IpCacheRecord, SoaCacheRecord,
};
use easydns::cache::limit_map::GetOrdKey;
use easydns::protocol::answer::resource::basic::Builder as RecordBuilder;
use easydns::protocol::answer::resource::{Ipv4Resource, SoaResource};
use easydns::protocol::answer::{Answer, DnsAnswer, Ipv4Answer, SoaAnswer};
use easydns::protocol::basic::Builder;

fn get_ip_answer() -> DnsAnswer {
    let data = Builder::new().name("www.baidu.com".to_string()).flags(0x8180).answer(1).build();
    let basic = RecordBuilder::new()
        .name("www.baidu.com".to_string())
        ._type(1)
        .ttl(1)
        .data_len(4)
        .build();
    DnsAnswer::Ipv4(Ipv4Answer::create(data, vec![Ipv4Resource::from(basic, [1, 1, 1, 1])]))
}

fn get_soa_answer() -> DnsAnswer {
    let data = Builder::new().name("www.baidu.com".to_string()).flags(0x8180).authority(1).build();
    let resource = SoaResource::new_with_default_soa("www.baidu.com".to_string(), 1);
    DnsAnswer::Soa(SoaAnswer::create(data, resource))
}

fn get_ip_record() -> IpCacheRecord {
    IpCacheRecord {
        domain: "www.baidu.com".to_string(),
        address: [1, 1, 1, 1],
        create_time: 0,
        ttl_ms: 1000,
    }
}

fn get_soa_record() -> SoaCacheRecord {
    SoaCacheRecord { domain: "www.baidu.com".to_string(), create_time: 0, ttl_ms: 1000 }
}

fn get_test_record() -> CacheRecord {
    CacheRecord::Soa(SoaCacheRecord { domain: String::new(), create_time: 0, ttl_ms: 1000 })
}

fn ip_test_bytes() -> Vec<u8> {
    let mut bytes = vec![42, 13];
    bytes.extend_from_slice(b"www.baidu.com");
    bytes.extend_from_slice(&[4, 0, 0, 3, 232, 16]);
    bytes.extend_from_slice(&[0u8; 16]);
    bytes.extend_from_slice(&[4, 1, 1, 1, 1]);
    bytes
}

fn soa_test_bytes() -> Vec<u8> {
    let mut bytes = vec![35, 13];
    bytes.extend_from_slice(b"www.baidu.com");
    bytes.extend_from_slice(&[4, 0, 0, 3, 232, 16]);
    bytes.extend_from_slice(&[0u8; 16]);
    bytes
}

#[test]
fn ip_record_should_return_valid_record_when_from_answer_given_valid_answer() {
    let answer = get_ip_answer();

    let result = answer.to_cache(0);

    let expected: CacheRecord = get_ip_record().boxed_clone();
    let result = result.unwrap();
    assert_eq!(expected.to_bytes(0), result.to_bytes(0));
    match result {
        CacheRecord::Ip(record) => {
            assert_eq!(record.domain, "www.baidu.com");
            assert_eq!(record.address, [1, 1, 1, 1]);
            assert_eq!(record.create_time, 0);
            assert_eq!(record.ttl_ms, 1000);
        }
        CacheRecord::Soa(_) => panic!("an address answer gives an address record"),
    }
}

#[test]
fn ip_record_should_return_valid_record_when_create_from_bytes_given_valid_bytes() {
    let vec = ip_test_bytes();
    let valid_bytes = vec.as_slice();

    let result = IpCacheRecord::from(valid_bytes).unwrap();

    let expected = get_ip_record();
    assert_eq!(expected.domain, result.domain);
    assert_eq!(expected.address, result.address);
    assert_eq!(expected.create_time, result.create_time);
    assert_eq!(expected.ttl_ms, result.ttl_ms);
}

#[test]
fn ip_record_should_return_bytes_when_to_from_bytes_given_valid_bytes() {
    let record = get_ip_record();

    let result = record.to_bytes(0);

    let expected = ip_test_bytes();
    assert_eq!(expected, result)
}

#[test]
fn soa_record_should_return_valid_record_when_create_from_bytes_given_valid_bytes() {
    let vec = soa_test_bytes();
    let valid_bytes = vec.as_slice();

    let result = SoaCacheRecord::from(valid_bytes).unwrap();

    let expected = get_soa_record();
    assert_eq!(expected.domain, result.domain);
    assert_eq!(expected.create_time, result.create_time);
    assert_eq!(expected.ttl_ms, result.ttl_ms);
}

#[test]
fn soa_record_should_return_bytes_when_to_from_bytes_given_valid_bytes() {
    let record = get_soa_record();

    let result = record.to_bytes(0);

    let expected = soa_test_bytes();
    assert_eq!(expected, result)
}

#[test]
fn soa_record_should_return_valid_record_when_from_answer_given_valid_answer() {
    let answer = get_soa_answer();

    let result = answer.to_cache(0).unwrap();

    let expected: CacheRecord = get_soa_record().boxed_clone();
    assert_eq!(expected.to_bytes(0), result.to_bytes(0));
    assert_eq!(result.get_key(), "www.baidu.com");
    assert_eq!(result.get_create_time(), 0);
    assert_eq!(result.get_ttl_ms(), 1000);
}

#[test]
fn mod_should_return_true_when_check_expired_given_expired() {
    let record = get_test_record();

    let result = record.is_expired(1001);

    assert!(result)
}

#[test]
fn mod_should_return_false_when_check_expired_given_not_expired() {
    let record = get_test_record();

    let result = record.is_expired(999);

    assert!(!result)
}

#[test]
fn mod_should_return_remain_time_when_get_remain_time_given_not_expired() {
    let record = get_test_record();

    let result = record.get_remain_time(999);

    assert_eq!(1, result)
}

#[test]
fn mod_should_return_0_when_get_remain_time_given_expired() {
    let record = get_test_record();

    let result = record.get_remain_time(1001);

    assert_eq!(0, result)
}

#[test]
fn mod_should_return_remain_time_when_get_order_key_given_test_record() {
    let record: CacheRecord = get_test_record();

    let result: u128 = record.get_order_key(999);

    assert_eq!(1, result)
}

#[test]
fn record_is_not_expired_at_the_end_of_its_time() {
    let record = get_test_record();
    assert!(!record.is_expired(1000));
    assert_eq!(record.get_remain_time(1000), 0);
}

#[test]
fn remaining_and_elapsed_add_up_to_the_time_to_live() {
    let record = IpCacheRecord {
        domain: "a.b".to_string(),
        address: [9, 9, 9, 9],
        create_time: 5_000,
        ttl_ms: 30_000,
    };
    for now in [5_000u128, 5_001, 20_000, 35_000] {
        assert!(!record.is_expired(now));
        assert_eq!(record.get_remain_time(now) + (now - 5_000), 30_000);
    }
    assert!(record.is_expired(35_001));
    assert_eq!(record.get_remain_time(35_001), 0);
}

#[test]
fn a_clock_that_reads_before_the_record_was_made_counts_as_no_time_passed() {
    let record = get_ip_record();
    let later = IpCacheRecord { create_time: 500, ..record };
    assert_eq!(later.get_remain_time(100), 1000);
    assert!(!later.is_expired(100));
}

#[test]
fn ip_record_written_when_made_reads_back_unchanged() {
    let record = IpCacheRecord {
        domain: "例え.jp".to_string(),
        address: [192, 0, 2, 7],
        create_time: 1_700_000_000_123,
        ttl_ms: 86_400_000,
    };
    let back = IpCacheRecord::from(record.to_bytes(record.create_time).as_slice()).unwrap();
    assert_eq!(back.domain, record.domain);
    assert_eq!(back.address, record.address);
    assert_eq!(back.create_time, record.create_time);
    assert_eq!(back.ttl_ms, record.ttl_ms);
}

#[test]
fn record_written_later_reads_back_with_what_was_left() {
    let record = get_soa_record();
    let back = SoaCacheRecord::from(record.to_bytes(400).as_slice()).unwrap();
    assert_eq!(back.domain, "www.baidu.com");
    assert_eq!(back.create_time, 0);
    assert_eq!(back.ttl_ms, 600);
}

#[test]
fn record_bytes_are_refused_for_each_fault() {
    assert_eq!(IpCacheRecord::from(&[]).unwrap_err(), RecordError::Truncated);
    assert_eq!(IpCacheRecord::from(&soa_test_bytes()).unwrap_err(), RecordError::BadMagic);
    assert_eq!(SoaCacheRecord::from(&ip_test_bytes()).unwrap_err(), RecordError::BadMagic);
    let mut short = ip_test_bytes();
    short.truncate(30);
    assert_eq!(IpCacheRecord::from(&short).unwrap_err(), RecordError::Truncated);
    let mut long = soa_test_bytes();
    long.push(7);
    assert_eq!(SoaCacheRecord::from(&long).unwrap_err(), RecordError::BadField);
    let mut wrong_len = vec![35, 1, b'a', 3, 0, 0, 1, 16];
    wrong_len.extend_from_slice(&[0u8; 16]);
    assert_eq!(SoaCacheRecord::from(&wrong_len).unwrap_err(), RecordError::BadField);
    let mut bad_name = vec![35, 2, 0xC3, 0x28, 4, 0, 0, 0, 1, 16];
    bad_name.extend_from_slice(&[0u8; 16]);
    assert_eq!(SoaCacheRecord::from(&bad_name).unwrap_err(), RecordError::BadName);
}

#[test]
fn cached_address_is_served_with_the_seconds_left() {
    let record = IpCacheRecord {
        domain: "www.example.com".to_string(),
        address: [93, 184, 216, 34],
        create_time: 10_000,
        ttl_ms: 30_000,
    };
    match record.to_answer(10_900) {
        DnsAnswer::Ipv4(answer) => {
            assert_eq!(answer.get_ttl(), 29);
            assert_eq!(answer.get_address(), &[93, 184, 216, 34]);
            assert_eq!(answer.get_name(), "www.example.com");
            assert_eq!(answer.get_flags(), 0x8180);
            assert_eq!(answer.get_answer_count(), 1);
        }
        _ => panic!("an address record serves an address answer"),
    }
    match record.to_answer(10_000) {
        DnsAnswer::Ipv4(answer) => assert_eq!(answer.get_ttl(), 30),
        _ => panic!("an address record serves an address answer"),
    }
}
