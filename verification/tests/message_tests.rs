use easydns::cache::cache_record::{CacheItem, CacheRecord};
use easydns::handler::server_group::QueryExecutor;
use easydns::protocol::answer::{Answer, DnsAnswer};
use easydns::protocol::message::{same_bytes, DNSAnswer, ResourceRecord};
use easydns::protocol::query::DNSQuery;
use easydns::protocol::{wrap_dns_domain, ParseError};
use easydns::cursor::Cursor;

fn header(id: u16, flags: u16, qd: u16, an: u16, ns: u16, ar: u16) -> Vec<u8> {
    let mut out = Vec::new();
    for field in [id, flags, qd, an, ns, ar] {
        out.extend_from_slice(&field.to_be_bytes());
    }
    out
}

fn question(name: &str, kind: u16) -> Vec<u8> {
    let mut out = wrap_dns_domain(name);
    out.extend_from_slice(&kind.to_be_bytes());
    out.extend_from_slice(&[0, 1]);
    out
}

/// A reply to a query for a mail exchanger, with an alias in front.
fn mx_reply() -> Vec<u8> {
    let mut packet = header(0x0A0B, 0x8180, 1, 2, 0, 0);
    packet.extend(question("example.com", 15));
    let base = packet.len();
    assert_eq!(base, 12 + 13 + 4);
    // alias: example.com -> mail.example.com, the target compressed
    packet.extend_from_slice(&[0xC0, 0x0C, 0, 5, 0, 1, 0, 0, 0, 9, 0, 7]);
    packet.extend_from_slice(&[4, b'm', b'a', b'i', b'l', 0xC0, 0x0C]);
    // mail exchanger: preference 10, host "mx" without compression
    packet.extend_from_slice(&[0xC0, 0x0C, 0, 15, 0, 1, 0, 0, 0, 60, 0, 6]);
    packet.extend_from_slice(&[0, 10, 2, b'm', b'x', 0]);
    packet
}

#[test]
fn records_of_any_type_are_passed_back() {
    let answer = DNSAnswer::from(mx_reply()).unwrap();
    assert_eq!(answer.get_id(), 0x0A0B);
    assert!(!answer.is_empty_answers());
    assert!(!answer.is_server_failure());
    assert!(!answer.is_no_such_name());
    assert_eq!(answer.get_readable_domain(), "example.com");
    assert!(answer.get_ip_vec().is_empty());
    assert!(answer.to_cache(0).is_none());

    let mut expect = header(0x0A0B, 0x8180, 1, 2, 0, 0);
    expect.extend(question("example.com", 15));
    expect.extend(wrap_dns_domain("example.com"));
    expect.extend_from_slice(&[0, 5, 0, 1, 0, 0, 0, 9, 0, 18]);
    expect.extend(wrap_dns_domain("mail.example.com"));
    expect.extend(wrap_dns_domain("example.com"));
    expect.extend_from_slice(&[0, 15, 0, 1, 0, 0, 0, 60, 0, 6, 0, 10, 2, b'm', b'x', 0]);
    assert_eq!(answer.to_u8_vec(), expect);
}

#[test]
fn record_is_read_with_its_data() {
    let mut bytes = wrap_dns_domain("a.b");
    bytes.extend_from_slice(&[0, 1, 0, 1, 0, 0, 0, 7, 0, 4, 9, 8, 7, 6]);
    let mut cursor = Cursor::form(bytes.clone());
    let record = ResourceRecord::from(&mut cursor).unwrap();
    assert!(record.is_a_record());
    assert_eq!(record.get_name(), "a.b");
    assert_eq!(record.get_type(), 1);
    assert_eq!(record.get_ttl(), 7);
    assert_eq!(record.get_data(), &vec![9, 8, 7, 6]);
    assert_eq!(record.to_v8_vec(), bytes);
    assert_eq!(cursor.remaining(), 0);

    let mut short = Cursor::form(bytes[..bytes.len() - 1].to_vec());
    assert_eq!(ResourceRecord::from(&mut short).unwrap_err(), ParseError::UnexpectedEnd);
    let mut alias = wrap_dns_domain("a.b");
    alias.extend_from_slice(&[0, 5, 0, 1, 0, 0, 0, 7, 0, 9, 1, b'c', 0]);
    let mut cursor = Cursor::form(alias);
    assert_eq!(ResourceRecord::from(&mut cursor).unwrap_err(), ParseError::BadRecordData);
    assert!(same_bytes(&vec![1, 2], &vec![1, 2]));
    assert!(!same_bytes(&vec![1, 2], &vec![1, 3]));
    assert!(!same_bytes(&vec![1, 2], &vec![1]));
}

#[test]
fn answers_to_a_query_are_made_up() {
    let query = DNSQuery::from_domain("00-gov.cn", 0x1234);
    let name = wrap_dns_domain("00-gov.cn");

    let empty = DNSAnswer::from_query(&query);
    let mut expect = header(0x1234, 0x8180, 1, 0, 0, 0);
    expect.extend(question("00-gov.cn", 1));
    assert_eq!(empty.to_u8_vec(), expect);
    assert!(empty.is_empty_answers());

    let failure = DNSAnswer::from_query_with_failure(&query);
    assert!(failure.is_server_failure());
    assert_eq!(&failure.to_u8_vec()[..12], header(0x1234, 0x8182, 1, 0, 0, 0).as_slice());
    assert!(failure.to_cache(0).is_none());

    let soa = DNSAnswer::from_query_with_soa(&query);
    let bytes = soa.to_u8_vec();
    assert_eq!(&bytes[..12], header(0x1234, 0x8180, 1, 0, 1, 0).as_slice());
    let record = &bytes[12 + name.len() + 4..];
    assert_eq!(&record[..name.len()], name.as_slice());
    assert_eq!(&record[name.len()..name.len() + 10], &[0, 6, 0, 1, 0, 0, 2, 88, 0, 63]);
    assert_eq!(&record[name.len() + 10..name.len() + 29], wrap_dns_domain("dns17.hichina.com").as_slice());
    match soa.to_cache(5) {
        Some(CacheRecord::Soa(kept)) => {
            assert_eq!(kept.domain, "00-gov.cn");
            assert_eq!(kept.create_time, 5);
            assert_eq!(kept.ttl_ms, 600_000);
        }
        other => panic!("expected an authority record, got {:?}", other),
    }
    let again = DNSAnswer::from(bytes.clone()).unwrap();
    assert_eq!(again.to_u8_vec(), bytes);
}

#[test]
fn address_records_are_joined_under_the_name_asked_for() {
    fn reply(addresses: &[[u8; 4]]) -> DNSAnswer {
        let mut packet = header(1, 0x8180, 1, addresses.len() as u16, 0, 0);
        packet.extend(question("x.y", 1));
        for a in addresses {
            packet.extend(wrap_dns_domain("alias.y"));
            packet.extend_from_slice(&[0, 1, 0, 1, 0, 0, 0, 3, 0, 4]);
            packet.extend_from_slice(a);
        }
        DNSAnswer::from(packet).unwrap()
    }
    let query = DNSQuery::from_domain("x.y", 1);
    let mut all = DNSAnswer::from_query(&query);
    all.combine(reply(&[[1, 1, 1, 1], [2, 2, 2, 2]]));
    all.combine(reply(&[[2, 2, 2, 2], [3, 3, 3, 3]]));
    assert_eq!(all.get_ip_vec(), vec![[1, 1, 1, 1], [2, 2, 2, 2], [3, 3, 3, 3]]);
    assert!(all.holds(&vec![3, 3, 3, 3]));
    let bytes = all.to_u8_vec();
    assert_eq!(&bytes[..12], header(1, 0x8180, 1, 3, 0, 0).as_slice());
    let first = &bytes[12 + 9..];
    assert_eq!(&first[..5], wrap_dns_domain("x.y").as_slice());
    match all.to_cache(0) {
        Some(record) => assert_eq!(record.get_ttl_ms(), 3000),
        None => panic!("an address answer can be kept"),
    }
}

#[test]
fn forwarded_answer_goes_back_under_the_id_of_the_caller() {
    let executor = QueryExecutor::create();
    let query = DNSQuery::from(
        [header(0x7777, 0x0100, 1, 0, 0, 0), question("example.com", 15)].concat(),
    )
    .unwrap();
    let reply = mx_reply();
    assert_eq!(executor.reply_id(&reply), Some(0x0A0B));
    assert_eq!(executor.reply_id(&[1, 2, 3]), None);
    let passed = executor.conclude_forward(&query, Some(DNSAnswer::from(reply).unwrap()));
    assert_eq!(passed.get_id(), 0x7777);
    assert!(!passed.is_empty_answers());

    let late = executor.conclude_forward(&query, None);
    assert_eq!(late.get_id(), 0x7777);
    assert!(late.is_server_failure());
    let mut expect = header(0x7777, 0x8182, 1, 0, 0, 0);
    expect.extend(question("example.com", 15));
    assert_eq!(late.to_u8_vec(), expect);
}

#[test]
fn reply_without_records_gets_the_flags_of_a_failure() {
    let mut packet = header(3, 0x8180, 1, 0, 0, 0);
    packet.extend(question("a", 1));
    assert!(DNSAnswer::from(packet).unwrap().is_server_failure());
    assert_eq!(DNSAnswer::from(vec![0; 3]).unwrap_err(), ParseError::UnexpectedEnd);
}

/// A reply with an alias in front of an address.
fn alias_then_address() -> Vec<u8> {
    let mut packet = header(7, 0x8180, 1, 2, 0, 0);
    packet.extend(question("example.com", 1));
    packet.extend_from_slice(&[0xC0, 0x0C, 0, 5, 0, 1, 0, 0, 0, 9, 0, 7]);
    packet.extend_from_slice(&[4, b'm', b'a', b'i', b'l', 0xC0, 0x0C]);
    packet.extend_from_slice(&[0xC0, 0x0C, 0, 1, 0, 1, 0, 0, 0, 60, 0, 4, 1, 2, 3, 4]);
    packet
}

#[test]
fn alias_in_front_of_an_address_is_read_over_when_the_answer_is_kept() {
    let answer = DNSAnswer::from(alias_then_address()).unwrap();
    assert_eq!(answer.get_ip_vec(), vec![[1, 2, 3, 4]]);
    match answer.to_cache(500) {
        Some(CacheRecord::Ip(record)) => {
            assert_eq!(record.domain, "example.com");
            assert_eq!(record.address, [1, 2, 3, 4]);
            assert_eq!(record.create_time, 500);
            assert_eq!(record.ttl_ms, 60_000);
        }
        other => panic!("an address record, got {:?}", other),
    }
    let typed = DnsAnswer::from(alias_then_address()).unwrap();
    match typed.to_cache(500) {
        Some(CacheRecord::Ip(record)) => {
            assert_eq!(record.domain, "example.com");
            assert_eq!(record.address, [1, 2, 3, 4]);
            assert_eq!(record.ttl_ms, 60_000);
        }
        other => panic!("an address record, got {:?}", other),
    }
}

#[test]
fn answer_is_not_kept_without_an_address_or_with_an_error() {
    let mut failed = alias_then_address();
    failed[2] = 0x81;
    failed[3] = 0x82;
    assert!(DNSAnswer::from(failed).unwrap().to_cache(0).is_none());
    let mut unknown = alias_then_address();
    unknown[3] = 0x83;
    assert!(DNSAnswer::from(unknown).unwrap().to_cache(0).is_none());
    // an address record of six bytes is no address to keep
    let mut packet = header(7, 0x8180, 1, 2, 0, 0);
    packet.extend(question("example.com", 1));
    packet.extend_from_slice(&[0xC0, 0x0C, 0, 1, 0, 1, 0, 0, 0, 60, 0, 6, 1, 2, 3, 4, 5, 6]);
    packet.extend_from_slice(&[0xC0, 0x0C, 0, 1, 0, 1, 0, 0, 0, 30, 0, 4, 9, 9, 9, 9]);
    match DNSAnswer::from(packet).unwrap().to_cache(1) {
        Some(CacheRecord::Ip(record)) => {
            assert_eq!(record.address, [9, 9, 9, 9]);
            assert_eq!(record.ttl_ms, 30_000);
        }
        other => panic!("an address record, got {:?}", other),
    }
}

#[test]
fn only_the_records_of_the_chosen_address_stay() {
    let mut packet = header(1, 0x8180, 1, 4, 0, 0);
    packet.extend(question("x.y", 1));
    for (ttl, a) in [(3u8, [1u8, 1, 1, 1]), (4, [2, 2, 2, 2]), (5, [1, 1, 1, 1])] {
        packet.extend(wrap_dns_domain("alias.y"));
        packet.extend_from_slice(&[0, 1, 0, 1, 0, 0, 0, ttl, 0, 4]);
        packet.extend_from_slice(&a);
    }
    packet.extend(wrap_dns_domain("alias.y"));
    packet.extend_from_slice(&[0, 1, 0, 1, 0, 0, 0, 6, 0, 5, 1, 1, 1, 1, 1]);
    let mut answer = DNSAnswer::from(packet).unwrap();
    answer.retain_ip(&[1, 1, 1, 1]);
    assert_eq!(answer.get_ip_vec(), vec![[1, 1, 1, 1], [1, 1, 1, 1]]);
    let mut expect = header(1, 0x8180, 1, 2, 0, 0);
    expect.extend(question("x.y", 1));
    for ttl in [3u8, 5] {
        expect.extend(wrap_dns_domain("x.y"));
        expect.extend_from_slice(&[0, 1, 0, 1, 0, 0, 0, ttl, 0, 4, 1, 1, 1, 1]);
    }
    assert_eq!(answer.to_u8_vec(), expect);

    answer.retain_ip(&[7, 7, 7, 7]);
    assert!(answer.is_empty_answers());
    assert_eq!(&answer.to_u8_vec()[..12], header(1, 0x8180, 1, 0, 0, 0).as_slice());
}

#[test]
fn first_datagram_that_can_be_read_is_passed_back() {
    let executor = QueryExecutor::create();
    let query = DNSQuery::from_domain("example.com", 0x7777);
    let broken = vec![1u8, 2, 3];
    let mut second = alias_then_address();
    second[0] = 0x55;

    assert!(!executor.forward_enough(&vec![]));
    assert!(!executor.forward_enough(&vec![broken.clone()]));
    assert!(executor.forward_enough(&vec![broken.clone(), mx_reply()]));
    assert!(executor.first_readable_of(&vec![broken.clone(), broken.clone()]).is_none());
    let found = executor.first_readable_of(&vec![broken.clone(), second.clone(), mx_reply()]);
    assert_eq!(found.unwrap().get_id(), 0x5507);

    let arrived = vec![broken.clone(), mx_reply(), second];
    let passed = executor.conclude_forward_first(&query, &arrived);
    let mut expect = DNSAnswer::from(mx_reply()).unwrap();
    expect.set_id(0x7777);
    assert_eq!(passed.to_u8_vec(), expect.to_u8_vec());

    let late = executor.conclude_forward_first(&query, &vec![broken]);
    assert_eq!(late.get_id(), 0x7777);
    assert!(late.is_server_failure());
    assert!(late.is_empty_answers());
}
