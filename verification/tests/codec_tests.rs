use easydns::bytes::{push_all, read_u128, read_u16, read_u32, value_of, write_u128, write_u16, write_u32};
use easydns::cursor::Cursor;
use easydns::protocol::answer::resource::basic::Builder as RecordBuilder;
use easydns::protocol::answer::resource::Ipv4Resource;
use easydns::protocol::basic::Builder;
use easydns::protocol::answer::resource::Resource;
use easydns::protocol::answer::{Answer, DnsAnswer, FailureAnswer, Ipv4Answer, SoaAnswer};
use easydns::protocol::header::Header;
use easydns::protocol::query::{DNSQuery, DnsQuery};
use easydns::protocol::question::Question;
use easydns::protocol::{
    parse_name, readable_name, unzip_domain, wire_of, wrap_dns_domain, wrap_name, ParseError,
};

fn header(id: u16, flags: u16, qd: u16, an: u16, ns: u16, ar: u16) -> Vec<u8> {
    let mut out = Vec::new();
    for field in [id, flags, qd, an, ns, ar] {
        out.extend_from_slice(&field.to_be_bytes());
    }
    out
}

fn question_www_example_com() -> Vec<u8> {
    let mut out = vec![3];
    out.extend_from_slice(b"www");
    out.push(7);
    out.extend_from_slice(b"example");
    out.push(3);
    out.extend_from_slice(b"com");
    out.extend_from_slice(&[0, 0, 1, 0, 1]);
    out
}

/// A reply with a canonical name and an address, both with compressed names.
fn reply_with_alias() -> Vec<u8> {
    let mut packet = header(0x1234, 0x8180, 1, 2, 0, 0);
    packet.extend(question_www_example_com());
    assert_eq!(packet.len(), 33);
    packet.extend_from_slice(&[0xC0, 0x0C, 0, 5, 0, 1, 0, 0, 0, 60, 0, 6]);
    packet.extend_from_slice(&[3, b'w', b'e', b'b', 0xC0, 0x10]);
    packet.extend_from_slice(&[0xC0, 0x2D, 0, 1, 0, 1, 0, 0, 0, 30, 0, 4, 93, 184, 216, 34]);
    packet
}

fn soa_reply() -> Vec<u8> {
    let mut packet = header(7, 0x8180, 1, 0, 1, 0);
    packet.extend(question_www_example_com());
    // owner: example.com by pointer
    packet.extend_from_slice(&[0xC0, 0x10, 0, 6, 0, 1, 0, 0, 1, 44]);
    let mut rdata = vec![2, b'n', b's', 0xC0, 0x10];
    rdata.extend_from_slice(&[4, b'r', b'o', b'o', b't', 0xC0, 0x10]);
    for n in [2024u32, 7200, 3600, 1209600, 300] {
        rdata.extend_from_slice(&n.to_be_bytes());
    }
    packet.extend_from_slice(&(rdata.len() as u16).to_be_bytes());
    packet.extend(rdata);
    packet
}

#[test]
fn cursor_reads_in_order_and_jumps_back() {
    let mut cursor = Cursor::form(vec![1, 2, 3, 4, 5]);
    assert_eq!(cursor.len(), 5);
    assert_eq!(cursor.take(), 1);
    assert_eq!(cursor.peek(), 2);
    assert_eq!(cursor.get_current_index(), 1);
    let seen = cursor.tmp_at(3, |c: &mut Cursor| c.take_slice(2).to_vec());
    assert_eq!(seen, vec![4, 5]);
    assert_eq!(cursor.get_current_index(), 1);
    cursor.move_to(2);
    assert_eq!(cursor.remaining(), 2);
    assert_eq!(cursor.take_bytes::<2>(), [4, 5]);
    assert_eq!(cursor.remaining(), 0);
    cursor.at(9);
    assert_eq!(cursor.remaining(), 0);
    let again = Cursor::from(vec![8]);
    assert_eq!(again.peek(), 8);
}

#[test]
fn numbers_are_read_and_written_most_significant_byte_first() {
    let mut out = Vec::new();
    write_u16(&mut out, 0x1234);
    write_u32(&mut out, 0xDEADBEEF);
    write_u128(&mut out, 0x0102030405060708090A0B0C0D0E0F10);
    push_all(&mut out, &[0xFF]);
    let mut expect = vec![0x12, 0x34, 0xDE, 0xAD, 0xBE, 0xEF];
    expect.extend(1u8..=16);
    expect.push(0xFF);
    assert_eq!(out, expect);
    let mut cursor = Cursor::form(out);
    assert_eq!(read_u16(&mut cursor), 0x1234);
    assert_eq!(read_u32(&mut cursor), 0xDEADBEEF);
    assert_eq!(read_u128(&mut cursor), 0x0102030405060708090A0B0C0D0E0F10);
    assert_eq!(value_of(&[1, 0]), 256);
    assert_eq!(value_of(&[]), 0);
}

#[test]
fn name_with_pointer_is_read_uncompressed() {
    let packet = reply_with_alias();
    let mut cursor = Cursor::form(packet);
    cursor.at(45);
    let mut name = Vec::new();
    assert_eq!(parse_name(&mut cursor, &mut name), Ok(()));
    let mut expect = vec![3, b'w', b'e', b'b', 7];
    expect.extend_from_slice(b"example");
    expect.push(3);
    expect.extend_from_slice(b"com");
    expect.push(0);
    assert_eq!(name, expect);
    assert_eq!(cursor.get_current_index(), 51);
    assert_eq!(readable_name(&name), b"web.example.com".to_vec());
    cursor.at(45);
    assert_eq!(unzip_domain(&mut cursor), Ok("web.example.com".to_string()));
}

#[test]
fn names_are_wrapped_label_by_label() {
    assert_eq!(wrap_dns_domain("www.baidu.com"), vec![
        3, 119, 119, 119, 5, 98, 97, 105, 100, 117, 3, 99, 111, 109, 0
    ]);
    assert_eq!(wrap_name(&"a".to_string()), vec![1, b'a', 0]);
    assert_eq!(wrap_name(&String::new()), vec![0]);
    assert_eq!(wire_of(b"a."), vec![1, b'a', 0, 0]);
    assert_eq!(readable_name(&[0]), Vec::<u8>::new());
    assert_eq!(readable_name(&wire_of(b"dns17.hichina.com")), b"dns17.hichina.com".to_vec());
}

#[test]
fn root_name_reads_as_the_empty_name() {
    let mut cursor = Cursor::form(vec![0, 9]);
    assert_eq!(unzip_domain(&mut cursor), Ok(String::new()));
    assert_eq!(cursor.get_current_index(), 1);
}

#[test]
fn header_is_read_and_written() {
    let bytes = header(0xABCD, 0x0100, 1, 2, 3, 4);
    let mut cursor = Cursor::form(bytes);
    let parsed = Header::from(&mut cursor).unwrap();
    assert_eq!(parsed, Header {
        id: 0xABCD,
        flags: 0x0100,
        question_count: 1,
        answer_count: 2,
        authority_count: 3,
        additional_count: 0,
    });
    assert_eq!(cursor.get_current_index(), 12);
    assert_eq!(parsed.to_u8_vec(), header(0xABCD, 0x0100, 1, 2, 3, 0));
    assert_eq!(parsed.to_u8_with_id(7), header(7, 0x0100, 1, 2, 3, 0));
    assert!(!parsed.is_legal());
    assert!(parsed.is_supported());
    assert!(Header { flags: 0x0120, ..parsed }.is_supported());
    assert!(!Header { flags: 0x0000, ..parsed }.is_supported());
    assert!(!Header { question_count: 2, ..parsed }.is_supported());
    assert_eq!(Header::new().to_u8_vec(), vec![0; 12]);
    let mut short = Cursor::form(vec![0; 11]);
    assert_eq!(Header::from(&mut short), Err(ParseError::UnexpectedEnd));
}

#[test]
fn question_is_read_and_written() {
    let bytes = question_www_example_com();
    let mut cursor = Cursor::form(bytes.clone());
    let question = Question::from(&mut cursor).unwrap();
    assert_eq!(question.name, "www.example.com");
    assert_eq!(question._type, 1);
    assert_eq!(question.class, 1);
    assert!(question.is_supported());
    assert!(question.is_legal());
    assert_eq!(question.to_u8_vec(), bytes);
    let other = Question { _type: 28, ..question.clone() };
    assert!(!other.is_supported());
    let empty = Question::new();
    assert_eq!(empty.name, "");
    assert_eq!((empty._type, empty.class), (0, 0));
}

#[test]
fn address_answer_is_read_past_the_alias() {
    let answer = DnsAnswer::from(reply_with_alias()).unwrap();
    assert_eq!(answer.get_id(), 0x1234);
    assert_eq!(answer.get_name(), "www.example.com");
    match &answer {
        DnsAnswer::Ipv4(inner) => {
            assert_eq!(inner.get_all_ips(), vec![[93, 184, 216, 34]]);
            assert_eq!(inner.get_ttl(), 30);
            assert_eq!(inner.get_answer_count(), 1);
            assert_eq!(inner.get_flags(), 0x8180);
            assert!(!inner.is_empty());
        }
        _ => panic!("a reply with answers is an address answer"),
    }
    let mut expect = header(0x1234, 0x8180, 1, 1, 0, 0);
    expect.extend(question_www_example_com());
    expect.extend(wrap_dns_domain("web.example.com"));
    expect.extend_from_slice(&[0, 1, 0, 1, 0, 0, 0, 30, 0, 4, 93, 184, 216, 34]);
    assert_eq!(answer.to_bytes(), expect);
    // what was written reads back as the same answer
    let again = DnsAnswer::from(expect.clone()).unwrap();
    assert_eq!(again.to_bytes(), expect);
}

#[test]
fn authority_answer_is_read_and_written_without_compression() {
    let answer = DnsAnswer::from(soa_reply()).unwrap();
    match &answer {
        DnsAnswer::Soa(inner) => {
            assert_eq!(inner.get_name(), "www.example.com");
            assert_eq!(inner.get_ttl(), 300);
            assert_eq!(inner.get_authority_count(), 1);
            let resource = inner.get_resource();
            assert_eq!(resource.get_name(), "www.example.com");
            assert_eq!(resource.get_data().get_name_server(), "ns.example.com");
            assert_eq!(resource.get_data().get_mailbox(), "root.example.com");
            assert_eq!(resource.get_data().get_minimum_ttl(), 300);
        }
        _ => panic!("a reply with an authority record only is an authority answer"),
    }
    let mut expect = header(7, 0x8180, 1, 0, 1, 0);
    expect.extend(question_www_example_com());
    expect.extend(wrap_dns_domain("www.example.com"));
    expect.extend_from_slice(&[0, 6, 0, 1, 0, 0, 1, 44]);
    let mut rdata = wrap_dns_domain("ns.example.com");
    rdata.extend(wrap_dns_domain("root.example.com"));
    for n in [2024u32, 7200, 3600, 1209600, 300] {
        rdata.extend_from_slice(&n.to_be_bytes());
    }
    expect.extend_from_slice(&(rdata.len() as u16).to_be_bytes());
    expect.extend(rdata);
    assert_eq!(answer.to_bytes(), expect);
    let again = DnsAnswer::from(expect.clone()).unwrap();
    assert_eq!(again.to_bytes(), expect);
}

#[test]
fn root_as_primary_name_server_is_a_dot() {
    let mut packet = header(7, 0x8180, 1, 0, 1, 0);
    packet.extend(question_www_example_com());
    packet.extend_from_slice(&[0xC0, 0x10, 0, 6, 0, 1, 0, 0, 0, 5, 0, 23]);
    packet.extend_from_slice(&[0, 0xC0, 0x10]);
    packet.extend_from_slice(&[0; 20]);
    let answer = DnsAnswer::from(packet).unwrap();
    match &answer {
        DnsAnswer::Soa(inner) => {
            assert_eq!(inner.get_resource().get_data().get_name_server(), ".");
            assert_eq!(inner.get_resource().get_data().get_mailbox(), "example.com");
        }
        _ => panic!("an authority answer"),
    }
    let bytes = answer.to_bytes();
    let again = DnsAnswer::from(bytes.clone()).unwrap();
    assert_eq!(again.to_bytes(), bytes);
}

#[test]
fn reply_without_records_counts_as_failure() {
    let mut packet = header(9, 0x8180, 1, 0, 0, 0);
    packet.extend(question_www_example_com());
    let answer = DnsAnswer::from(packet).unwrap();
    match &answer {
        DnsAnswer::Failure(inner) => assert_eq!(inner.get_flags(), 0x8182),
        _ => panic!("a reply without records is a failure"),
    }
    let mut expect = header(9, 0x8182, 1, 0, 0, 0);
    expect.extend(question_www_example_com());
    assert_eq!(answer.to_bytes(), expect);
    assert!(answer.to_cache(0).is_none());
}

#[test]
fn failure_and_missing_name_go_by_their_flags() {
    let mut failed = header(9, 0x8182, 1, 3, 1, 0);
    failed.extend(question_www_example_com());
    assert!(matches!(DnsAnswer::from(failed), Ok(DnsAnswer::Failure(_))));
    let mut missing = header(9, 0x8183, 1, 0, 1, 0);
    missing.extend(question_www_example_com());
    let answer = DnsAnswer::from(missing).unwrap();
    assert!(matches!(answer, DnsAnswer::NoSuchName(_)));
    let mut expect = header(9, 0x8183, 1, 0, 0, 0);
    expect.extend(question_www_example_com());
    assert_eq!(answer.to_bytes(), expect);
    assert!(answer.to_cache(0).is_none());
}

#[test]
fn each_fault_of_a_packet_has_its_error() {
    assert_eq!(DnsAnswer::from(vec![0; 5]).unwrap_err(), ParseError::UnexpectedEnd);

    let mut looping = header(1, 0x8180, 1, 1, 0, 0);
    looping.extend_from_slice(&[0xC0, 0x0C, 0, 1, 0, 1]);
    assert_eq!(DnsAnswer::from(looping).unwrap_err(), ParseError::TooManyJumps);

    let mut bad_name = header(1, 0x8180, 1, 1, 0, 0);
    bad_name.extend_from_slice(&[2, 0xC3, 0x28, 0, 0, 1, 0, 1]);
    assert_eq!(DnsAnswer::from(bad_name).unwrap_err(), ParseError::BadName);

    let mut two_questions = header(1, 0x8180, 2, 1, 0, 0);
    two_questions.extend(question_www_example_com());
    two_questions.extend(question_www_example_com());
    assert_eq!(DnsAnswer::from(two_questions).unwrap_err(), ParseError::QuestionCount);

    let mut long_address = header(1, 0x8180, 1, 1, 0, 0);
    long_address.extend(question_www_example_com());
    long_address.extend_from_slice(&[0xC0, 0x0C, 0, 1, 0, 1, 0, 0, 0, 30, 0, 5, 1, 2, 3, 4, 5]);
    assert_eq!(DnsAnswer::from(long_address).unwrap_err(), ParseError::BadRecordData);

    let mut other_type = header(1, 0x8180, 1, 1, 0, 0);
    other_type.extend(question_www_example_com());
    other_type.extend_from_slice(&[0xC0, 0x0C, 0, 28, 0, 1, 0, 0, 0, 30, 0, 16]);
    other_type.extend_from_slice(&[0; 16]);
    assert_eq!(DnsAnswer::from(other_type).unwrap_err(), ParseError::UnsupportedRecord);

    let mut cut = reply_with_alias();
    cut.truncate(60);
    assert_eq!(DnsAnswer::from(cut).unwrap_err(), ParseError::UnexpectedEnd);
}

#[test]
fn set_id_changes_the_id_alone() {
    let mut answer = DnsAnswer::from(reply_with_alias()).unwrap();
    let before = answer.to_bytes();
    answer.set_id(0xBEEF);
    assert_eq!(answer.get_id(), 0xBEEF);
    let after = answer.to_bytes();
    assert_eq!(&after[..2], &[0xBE, 0xEF]);
    assert_eq!(&after[2..], &before[2..]);
}

#[test]
fn made_up_answers_have_their_fields() {
    let failure = FailureAnswer::new(5, "a.b".to_string());
    let mut expect = header(5, 0x8182, 1, 0, 0, 0);
    expect.extend_from_slice(&[1, b'a', 1, b'b', 0, 0, 1, 0, 1]);
    assert_eq!(failure.to_bytes(), expect);
    assert_eq!(failure.get_id(), 5);
    assert_eq!(failure.get_name(), "a.b");

    let soa = SoaAnswer::default_soa(0x1234, "00-gov.cn".to_string());
    assert_eq!(soa.get_id(), 0x1234);
    assert_eq!(soa.get_flags(), 0x8180);
    assert_eq!(soa.get_authority_count(), 1);
    assert_eq!(soa.get_ttl(), 600);
    assert_eq!(soa.get_name(), "00-gov.cn");
    assert_eq!(soa.get_resource().get_data().get_name_server(), "dns17.hichina.com");
    assert_eq!(soa.get_resource().get_data().get_mailbox(), "hostmaster.hichina.com");
    let bytes = soa.to_bytes();
    // 19 + 24 bytes of names and five numbers
    let rdlength = &bytes[bytes.len() - 63 - 2..bytes.len() - 63];
    assert_eq!(rdlength, &[0, 63]);
    let numbers: Vec<u8> = [1u32, 3600, 1200, 3600, 600].iter().flat_map(|n| n.to_be_bytes()).collect();
    assert_eq!(&bytes[bytes.len() - 20..], numbers.as_slice());
    assert!(matches!(DnsAnswer::from(bytes), Ok(DnsAnswer::Soa(_))));

    let empty = Ipv4Answer::empty_answer(3, "x".to_string());
    assert!(empty.is_empty());
    assert!(empty.to_cache(0).is_none());
}

#[test]
fn queries_are_read_checked_and_passed_on() {
    let mut packet = header(0x4242, 0x0100, 1, 0, 0, 1);
    packet.extend(question_www_example_com());
    let query = DNSQuery::from(packet.clone()).unwrap();
    assert_eq!(query.get_id(), 0x4242);
    assert!(query.is_supported());
    assert_eq!(query.get_readable_domain(), "www.example.com");
    assert_eq!(query.get_domain(), wrap_dns_domain("www.example.com"));
    let mut expect = header(77, 0x0100, 1, 0, 0, 0);
    expect.extend(question_www_example_com());
    assert_eq!(query.to_u8_with_id(77), expect);
    let single = query.to_single().unwrap();
    assert!(single.is_supported());
    assert_eq!(single.get_name(), "www.example.com");

    let mut aaaa = header(1, 0x0100, 1, 0, 0, 0);
    let mut q = question_www_example_com();
    let n = q.len();
    q[n - 3] = 28;
    aaaa.extend(q);
    assert!(!DNSQuery::from(aaaa).unwrap().is_supported());

    let mut two = header(1, 0x0100, 2, 0, 0, 0);
    two.extend(question_www_example_com());
    two.extend(question_www_example_com());
    let two_query = DNSQuery::from(two.clone()).unwrap();
    assert!(!two_query.is_supported());
    assert_eq!(two_query.question_count(), 2);
    assert!(two_query.to_single().is_none());
    assert_eq!(two_query.to_u8_with_id(1), two);
    assert_eq!(DnsQuery::from(two).unwrap_err(), ParseError::QuestionCount);

    let mut other_flags = header(1, 0x0000, 1, 0, 0, 0);
    other_flags.extend(question_www_example_com());
    assert!(!DNSQuery::from(other_flags).unwrap().is_supported());

    let none = DNSQuery::from(header(1, 0x0100, 0, 0, 0, 0)).unwrap();
    assert!(!none.is_supported());
    assert_eq!(none.question_count(), 0);
}

#[test]
fn probe_query_asks_for_an_address() {
    let query = DNSQuery::from_domain("www.baidu.com", 9);
    let mut expect = header(9, 0x0100, 1, 0, 0, 0);
    expect.extend_from_slice(&[3, 119, 119, 119, 5, 98, 97, 105, 100, 117, 3, 99, 111, 109, 0]);
    expect.extend_from_slice(&[0, 1, 0, 1]);
    assert_eq!(query.to_u8_with_id(9), expect);
    assert!(query.is_supported());
    let mut typed = DnsQuery::from_domain("www.baidu.com", 9);
    assert_eq!(typed.to_bytes(), expect);
    typed.set_id(10);
    assert_eq!(typed.get_id(), 10);
    assert_eq!(DnsQuery::from(expect).unwrap().get_name(), "www.baidu.com");
}

#[test]
fn combine_joins_addresses_in_order_without_repeats() {
    fn answer_with(addresses: &[[u8; 4]]) -> Ipv4Answer {
        let data = Builder::new().name("x.y".to_string()).flags(0x8180).build();
        let records = addresses
            .iter()
            .map(|a| {
                let basic = RecordBuilder::new().name("x.y".to_string())._type(1).ttl(5).build();
                Ipv4Resource::from(basic, *a)
            })
            .collect();
        Ipv4Answer::create(data, records)
    }
    let mut all = Ipv4Answer::empty_answer(1, "x.y".to_string());
    all.combine(answer_with(&[[1, 1, 1, 1], [2, 2, 2, 2]]));
    all.combine(answer_with(&[[2, 2, 2, 2], [3, 3, 3, 3], [1, 1, 1, 1]]));
    assert_eq!(all.get_all_ips(), vec![[1, 1, 1, 1], [2, 2, 2, 2], [3, 3, 3, 3]]);
    assert_eq!(all.get_answer_count(), 3);
    assert!(all.holds(&[3, 3, 3, 3]));
    assert!(!all.holds(&[4, 4, 4, 4]));

    let mut other_name = Ipv4Answer::empty_answer(1, "z".to_string());
    other_name.combine(answer_with(&[[1, 1, 1, 1]]));
    assert!(other_name.is_empty());

    all.retain_ip(&[2, 2, 2, 2]);
    assert_eq!(all.get_all_ips(), vec![[2, 2, 2, 2]]);
    assert_eq!(all.get_answer_count(), 1);
    all.retain_ip(&[9, 9, 9, 9]);
    assert!(all.is_empty());
    assert_eq!(all.get_answer_count(), 0);
}
