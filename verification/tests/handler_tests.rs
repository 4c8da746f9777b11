use std::sync::Arc;

use easydns::cache::cache_record::{CacheRecord, IpCacheRecord};
use easydns::cache::strategy::CacheAction;
use easydns::cache::{
    create_map_by_vec_u8, CachePool, CacheStrategy, ExpiredCacheStrategy, TimeoutCacheStrategy,
};
use easydns::config::{Config, ConfigOptions};
use easydns::filter::Filter;
use easydns::handler::cache_handler::CacheHandler;
use easydns::handler::domain_filter::DomainFilter;
use easydns::handler::ip_maker::{IpChoiceMaker, IpFirstMaker};
use easydns::handler::legal_checker::LegalChecker;
use easydns::handler::server_group::{
    CombineServerSender, FastServerSender, PreferServerSender, QueryExecutor, ServerGroup,
    ServerSender,
};
use easydns::handler::{after_flight, Choice, Clain, HandlerContext, Stage, Step};
use easydns::protocol::answer::resource::basic::Builder as RecordBuilder;
use easydns::protocol::answer::resource::{Ipv4Resource, Resource};
use easydns::protocol::answer::{Answer, DnsAnswer, FailureAnswer, Ipv4Answer};
use easydns::protocol::basic::Builder;
use easydns::protocol::query::DNSQuery;
use easydns::system::{next_id, TimeNow};

fn options() -> ConfigOptions {
    ConfigOptions {
        cache: None,
        cache_file: None,
        cache_num: None,
        port: None,
        servers: None,
        filters: None,
        log_level: None,
        ip_choose_strategy: None,
        cache_get_strategy: None,
        cache_ttl_timeout_ms: None,
        server_choose_strategy: None,
        server_choose_duration_h: None,
    }
}

fn config(change: impl Fn(&mut ConfigOptions)) -> Config {
    let mut given = options();
    change(&mut given);
    Config::from(given).unwrap()
}

fn ip_answer(id: u16, name: &str, ttl: u32, addresses: &[[u8; 4]]) -> DnsAnswer {
    let data = Builder::new().id(id).name(name.to_string()).flags(0x8180).build();
    let records = addresses
        .iter()
        .map(|a| {
            let basic =
                RecordBuilder::new().name(name.to_string())._type(1).ttl(ttl).data_len(4).build();
            Ipv4Resource::from(basic, *a)
        })
        .collect();
    DnsAnswer::Ipv4(Ipv4Answer::create(data, records))
}

fn ips_of(answer: &DnsAnswer) -> Vec<[u8; 4]> {
    match answer {
        DnsAnswer::Ipv4(inner) => inner.get_all_ips(),
        _ => panic!("not an address answer"),
    }
}

fn blocking(names: &[&str]) -> DomainFilter {
    DomainFilter::new(Arc::new(Filter::from(names.iter().map(|n| n.to_string()).collect())))
}

fn query(id: u16, name: &str) -> DNSQuery {
    DNSQuery::from_domain(name, id)
}

#[test]
fn filter_hit_is_answered_with_the_default_authority_record() {
    let context = HandlerContext::from(&config(|o| o.cache = Some(false)), false);
    let filter = blocking(&["00-gov.cn"]);

    let step = context.handle_query(&filter, None, &query(0x1234, "00-gov.cn"), 0);

    match step {
        Step::Reply(DnsAnswer::Soa(answer)) => {
            assert_eq!(answer.get_id(), 0x1234);
            assert_eq!(answer.get_flags(), 0x8180);
            assert_eq!(answer.get_authority_count(), 1);
            assert_eq!(answer.get_name(), "00-gov.cn");
            assert_eq!(answer.get_ttl(), 600);
            assert_eq!(answer.get_resource().get_data().get_name_server(), "dns17.hichina.com");
        }
        other => panic!("expected the made-up answer, got {:?}", other),
    }
}

#[test]
fn blocked_name_is_answered_whatever_the_cache_holds() {
    let conf = config(|_| {});
    let context = HandlerContext::from(&conf, true);
    let mut pool = CachePool::from(&conf, None, 0);
    pool.store("sub.00-gov.cn".to_string(), &ip_answer(1, "sub.00-gov.cn", 60, &[[1, 2, 3, 4]]), 0);
    let filter = blocking(&["00-gov.cn"]);

    let step = context.handle_query(&filter, Some(&pool), &query(7, "sub.00-gov.cn"), 1);

    match step {
        Step::Reply(DnsAnswer::Soa(answer)) => {
            assert_eq!(answer.get_id(), 7);
            assert_eq!(answer.get_name(), "sub.00-gov.cn");
        }
        other => panic!("expected the made-up answer, got {:?}", other),
    }
}

#[test]
fn chain_has_the_stages_that_the_configuration_asks_for() {
    let with_all = HandlerContext::from(&config(|o| o.ip_choose_strategy = Some(1)), true);
    assert_eq!(with_all.chain().funcs, vec![
        Stage::DomainFilter,
        Stage::LegalChecker,
        Stage::CacheHandler,
        Stage::IpChoiceMaker,
        Stage::QuerySender,
    ]);
    let no_pinger = HandlerContext::from(&config(|o| o.ip_choose_strategy = Some(1)), false);
    assert_eq!(no_pinger.chain().funcs[3], Stage::IpFirstMaker);
    let bare = HandlerContext::from(&config(|o| o.cache = Some(false)), true);
    assert_eq!(bare.chain().funcs, vec![
        Stage::DomainFilter,
        Stage::LegalChecker,
        Stage::IpFirstMaker,
        Stage::QuerySender,
    ]);
    let mut chain = Clain::new();
    assert_eq!(chain.next(), None);
    chain.add(Stage::QuerySender);
    let copy = chain.clone();
    assert_eq!(chain.next(), Some(Stage::QuerySender));
    assert_eq!(chain.next(), None);
    assert_eq!(copy.funcs, vec![Stage::QuerySender]);
}

#[test]
fn unsupported_query_goes_straight_upstream() {
    let conf = config(|_| {});
    let context = HandlerContext::from(&conf, false);
    let pool = CachePool::from(&conf, None, 0);
    let mut raw = query(5, "www.example.com").to_u8_with_id(5);
    let n = raw.len();
    raw[n - 3] = 28;
    let aaaa = DNSQuery::from(raw).unwrap();
    assert!(LegalChecker::new().handle(&aaaa));
    assert!(!LegalChecker::new().handle(&query(5, "www.example.com")));

    let step = context.handle_query(&blocking(&[]), Some(&pool), &aaaa, 0);

    assert!(matches!(step, Step::Forward));
}

#[test]
fn cache_miss_then_hit() {
    let conf = config(|_| {});
    let context = HandlerContext::from(&conf, false);
    let mut pool = CachePool::from(&conf, None, 0);
    let filter = blocking(&[]);
    let asked = query(0x0101, "www.example.com");

    let first = context.handle_query(&filter, Some(&pool), &asked, 1_000);
    let choose = match first {
        Step::Ask { keep: true, choose } => choose,
        other => panic!("a miss asks upstream and keeps the answer, got {:?}", other),
    };
    assert_eq!(choose, Some(Stage::IpFirstMaker));
    let upstream = ip_answer(0x0101, "www.example.com", 30, &[[93, 184, 216, 34]]);
    let answer = match context.after_upstream(choose, upstream) {
        Choice::Done(answer) => answer,
        other => panic!("nothing to probe, got {:?}", other),
    };
    let sent = CacheHandler::new().finish(&mut pool, &asked, answer, 1_000);
    match &sent {
        DnsAnswer::Ipv4(inner) => assert_eq!(inner.get_ttl(), 30),
        _ => panic!("an address answer"),
    }
    assert_eq!(pool.len(), 1);

    let again = query(0x0202, "www.example.com");
    let second = context.handle_query(&filter, Some(&pool), &again, 1_900);
    match second {
        Step::Reply(DnsAnswer::Ipv4(inner)) => {
            assert_eq!(inner.get_id(), 0x0202);
            assert_eq!(inner.get_ttl(), 29);
            assert_eq!(inner.get_all_ips(), vec![[93, 184, 216, 34]]);
        }
        other => panic!("a hit is served from the cache, got {:?}", other),
    }
}

#[test]
fn stale_record_is_served_and_refreshed_within_the_grace_window() {
    let conf = config(|o| {
        o.cache_get_strategy = Some(1);
        o.cache_ttl_timeout_ms = Some(5000);
    });
    let context = HandlerContext::from(&conf, false);
    let mut pool = CachePool::from(&conf, None, 0);
    let filter = blocking(&[]);
    pool.store("a.b".to_string(), &ip_answer(1, "a.b", 1, &[[1, 2, 3, 4]]), 0);

    let step = context.handle_query(&filter, Some(&pool), &query(9, "a.b"), 2_000);
    let choose = match step {
        Step::ReplyAndRefresh { answer, choose } => {
            assert_eq!(answer.get_id(), 9);
            assert_eq!(ips_of(&answer), vec![[1, 2, 3, 4]]);
            choose
        }
        other => panic!("a stale record is served and refreshed, got {:?}", other),
    };
    assert_eq!(choose, Some(Stage::IpFirstMaker));

    // the refresh comes back and is kept: the record is fresh again
    let fresh = ip_answer(0, "a.b", 1, &[[1, 2, 3, 4]]);
    CacheHandler::new().finish(&mut pool, &query(9, "a.b"), fresh, 2_050);
    assert!(matches!(pool.get(&"a.b".to_string(), 2_060), CacheAction::Serve(_)));

    // past the grace window the record is not served any more
    assert!(matches!(pool.get(&"a.b".to_string(), 2_050 + 1_000 + 5_001), CacheAction::Fetch));
    assert!(matches!(
        pool.get(&"a.b".to_string(), 2_050 + 1_000 + 5_000),
        CacheAction::ServeAndRefresh(_)
    ));
}

#[test]
fn strategies_decide_by_the_age_of_the_record() {
    let record = CacheRecord::Ip(IpCacheRecord {
        domain: "www.baidu.com".to_string(),
        address: [1, 1, 1, 1],
        create_time: 0,
        ttl_ms: 1000,
    });
    let strict = ExpiredCacheStrategy::from();
    assert!(matches!(strict.handle(&record, 1000), CacheAction::Serve(_)));
    assert!(matches!(strict.handle(&record, 1001), CacheAction::Fetch));

    let lenient = TimeoutCacheStrategy::from(800);
    assert_eq!(lenient.get_timeout(), 800);
    match lenient.handle(&record, 999) {
        CacheAction::Serve(DnsAnswer::Ipv4(answer)) => assert_eq!(answer.get_ttl(), 0),
        other => panic!("a live record is served, got {:?}", other),
    }
    assert!(matches!(lenient.handle(&record, 1001), CacheAction::ServeAndRefresh(_)));
    assert!(matches!(lenient.handle(&record, 1800), CacheAction::ServeAndRefresh(_)));
    assert!(matches!(lenient.handle(&record, 1801), CacheAction::Fetch));
    let longer = TimeoutCacheStrategy::from(1000);
    assert!(matches!(longer.handle(&record, 1999), CacheAction::ServeAndRefresh(_)));
    assert!(matches!(longer.handle(&record, 2001), CacheAction::Fetch));
}

#[test]
fn errors_are_not_kept_in_the_cache() {
    let conf = config(|_| {});
    let mut pool = CachePool::from(&conf, None, 0);
    let failure = DnsAnswer::Failure(FailureAnswer::new(1, "a".to_string()));
    pool.store("a".to_string(), &failure, 0);
    assert_eq!(pool.len(), 0);
    assert!(pool.write_to_file(0).is_none());
}

#[test]
fn first_address_is_kept_without_a_pinger() {
    let answer = ip_answer(1, "a", 5, &[[1, 1, 1, 1], [2, 2, 2, 2], [3, 3, 3, 3]]);
    let kept = IpFirstMaker.handle(answer);
    assert_eq!(ips_of(&kept), vec![[1, 1, 1, 1]]);
    match &kept {
        DnsAnswer::Ipv4(inner) => assert_eq!(inner.get_answer_count(), 1),
        _ => panic!("an address answer"),
    }
    let failure = IpFirstMaker.handle(DnsAnswer::Failure(FailureAnswer::new(1, "a".to_string())));
    assert!(matches!(failure, DnsAnswer::Failure(_)));
}

#[test]
fn probed_address_is_kept_with_a_pinger() {
    let context = HandlerContext::from(&config(|o| o.ip_choose_strategy = Some(1)), true);
    let answer = ip_answer(1, "a", 5, &[[1, 1, 1, 1], [2, 2, 2, 2], [3, 3, 3, 3]]);
    let (answer, ips) = match context.after_upstream(Some(Stage::IpChoiceMaker), answer) {
        Choice::Probe(answer, ips) => (answer, ips),
        other => panic!("several addresses are probed, got {:?}", other),
    };
    assert_eq!(ips, vec![[1, 1, 1, 1], [2, 2, 2, 2], [3, 3, 3, 3]]);
    let kept = IpChoiceMaker::new().handle(answer, 1);
    assert_eq!(ips_of(&kept), vec![[2, 2, 2, 2]]);

    let single = ip_answer(1, "a", 5, &[[7, 7, 7, 7]]);
    assert!(IpChoiceMaker::new().candidates(&single).is_empty());
    assert!(matches!(
        context.after_upstream(Some(Stage::IpChoiceMaker), single),
        Choice::Done(_)
    ));
}

#[test]
fn answer_goes_back_under_the_id_of_the_caller() {
    let executor = QueryExecutor::create();
    let asked = query(0x0BAD, "www.example.com");
    let mut counter = 41u16;
    let (id, bytes) = executor.exec(&asked, &mut counter);
    assert_eq!(id, 41);
    assert_eq!(counter, 42);
    assert_eq!(&bytes[..2], &[0, 41]);
    assert_eq!(&bytes[2..], &asked.to_u8_with_id(0)[2..]);

    let reply = ip_answer(41, "www.example.com", 30, &[[1, 2, 3, 4]]);
    let (routed, read) = executor.recv(reply.to_bytes()).unwrap();
    assert_eq!(routed, 41);
    let delivered = executor.conclude(&asked, Some(read));
    assert_eq!(delivered.get_id(), 0x0BAD);
    assert_eq!(ips_of(&delivered), vec![[1, 2, 3, 4]]);
}

#[test]
fn timeout_is_answered_with_a_failure_that_echoes_the_query() {
    let executor = QueryExecutor::create();
    let asked = query(0x0BAD, "www.example.com");

    let delivered = executor.conclude(&asked, None);

    match &delivered {
        DnsAnswer::Failure(inner) => {
            assert_eq!(inner.get_flags(), 0x8182);
            assert_eq!(inner.get_name(), "www.example.com");
        }
        other => panic!("a failure, got {:?}", other),
    }
    assert_eq!(delivered.get_id(), 0x0BAD);
    let bytes = delivered.to_bytes();
    assert_eq!(&bytes[..12], &[0x0B, 0xAD, 0x81, 0x82, 0, 1, 0, 0, 0, 0, 0, 0]);
    assert!(executor.recv(vec![1, 2, 3]).is_err());
}

#[test]
fn id_allocator_wraps_ten_thousand_below_the_end() {
    let mut counter = 0u16;
    assert_eq!(next_id(&mut counter), 0);
    assert_eq!(next_id(&mut counter), 1);
    counter = 55535;
    assert_eq!(next_id(&mut counter), 55535);
    assert_eq!(counter, 55536);
    assert_eq!(next_id(&mut counter), 55536);
    assert_eq!(counter, 0);
    counter = u16::MAX;
    assert_eq!(next_id(&mut counter), u16::MAX);
    assert_eq!(counter, 0);
}

#[test]
fn race_takes_the_first_answer_that_came() {
    let servers = vec!["a:53".to_string(), "b:53".to_string(), "c:53".to_string()];
    let group = ServerGroup::from(servers.clone(), 1).unwrap();
    assert_eq!(group.targets(), servers);
    let asked = query(3, "x");
    let replies = vec![
        None,
        Some(ip_answer(3, "x", 5, &[[5, 0, 0, 1]])),
        Some(ip_answer(3, "x", 5, &[[2, 0, 0, 1]])),
    ];
    let answer = group.send_query(&asked, replies).unwrap();
    assert_eq!(ips_of(&answer), vec![[5, 0, 0, 1]]);

    let none = PreferServerSender::from(servers).send(&asked, vec![None, None, None]).unwrap();
    assert!(matches!(none, DnsAnswer::Failure(_)));
    assert_eq!(none.get_id(), 3);
}

#[test]
fn combine_joins_what_the_servers_answer() {
    let servers = vec!["a:53".to_string(), "b:53".to_string()];
    let group = ServerGroup::from(servers.clone(), 2).unwrap();
    assert_eq!(group.targets(), servers);
    let asked = query(3, "x");
    let replies = vec![
        Some(ip_answer(3, "x", 5, &[[1, 1, 1, 1]])),
        None,
        Some(ip_answer(3, "x", 5, &[[2, 2, 2, 2], [1, 1, 1, 1]])),
        Some(DnsAnswer::Failure(FailureAnswer::new(3, "x".to_string()))),
    ];
    let answer = group.send_query(&asked, replies).unwrap();
    assert_eq!(ips_of(&answer), vec![[1, 1, 1, 1], [2, 2, 2, 2]]);
    assert_eq!(answer.get_id(), 3);
    match &answer {
        DnsAnswer::Ipv4(inner) => assert_eq!(inner.get_answer_count(), 2),
        _ => panic!("an address answer"),
    }

    let failed = CombineServerSender::from(servers).send(&asked, vec![None, None]).unwrap();
    match &failed {
        DnsAnswer::Failure(inner) => assert_eq!(inner.get_name(), "x"),
        other => panic!("a failure, got {:?}", other),
    }
}

#[test]
fn fastest_server_gets_the_query_until_another_is_measured_faster() {
    let servers = vec!["a:53".to_string(), "b:53".to_string()];
    assert!(FastServerSender::from(vec![]).is_none());
    assert!(ServerGroup::from(vec![], 0).is_none());
    assert!(ServerGroup::from(servers.clone(), 3).is_none());
    let mut sender = FastServerSender::from(servers.clone()).unwrap();
    assert_eq!(sender.targets(), vec!["a:53".to_string()]);
    assert_eq!(sender.benchmark_targets(), servers);
    assert_eq!(sender.probe_query(4).get_readable_domain(), "www.baidu.com");
    sender.preferred_dns_server(1);
    assert_eq!(sender.targets(), vec!["b:53".to_string()]);
    sender.preferred_dns_server(2);
    assert_eq!(sender.targets(), vec!["b:53".to_string()]);
    let asked = query(3, "x");
    assert!(sender.send(&asked, vec![None]).is_none());
    let answer = sender.send(&asked, vec![Some(ip_answer(3, "x", 5, &[[1, 1, 1, 1]]))]).unwrap();
    assert_eq!(ips_of(&answer), vec![[1, 1, 1, 1]]);
}

#[test]
fn cache_file_round_trip_keeps_what_had_time_left() {
    let conf = config(|_| {});
    let mut pool = CachePool::from(&conf, None, 0);
    for (name, ttl) in [("a", 10u32), ("b", 20), ("c", 30), ("d", 40), ("e", 50)] {
        pool.store(name.to_string(), &ip_answer(1, name, ttl, &[[1, 2, 3, ttl as u8]]), 0);
    }
    assert_eq!(pool.get_file_name(), "cache");

    // written 25 s later: a and b have nothing left
    let image = pool.write_to_file(25_000).unwrap();
    assert_eq!(*image.last().unwrap(), 0);
    let loaded = CachePool::from(&conf, Some(image.clone()), 1_000_000);

    assert_eq!(loaded.len(), 3);
    let map = create_map_by_vec_u8(1000, image, 1_000_000).unwrap();
    for (name, left) in [("c", 5_000u128), ("d", 15_000), ("e", 25_000)] {
        match map.get(&name.to_string()).unwrap() {
            CacheRecord::Ip(record) => {
                assert_eq!(record.create_time, 1_000_000);
                assert_eq!(record.ttl_ms, left);
            }
            _ => panic!("an address record"),
        }
    }
    assert!(map.get(&"a".to_string()).is_none());
    assert!(map.get(&"b".to_string()).is_none());
}

#[test]
fn broken_cache_file_counts_as_no_file() {
    let conf = config(|_| {});
    assert!(create_map_by_vec_u8(10, vec![], 0).is_err());
    assert!(create_map_by_vec_u8(10, vec![3, 42, 0], 0).is_err());
    assert!(create_map_by_vec_u8(10, vec![1, 99, 0], 0).is_err());
    assert_eq!(create_map_by_vec_u8(10, vec![0], 0).unwrap().len(), 0);
    assert_eq!(CachePool::from(&conf, Some(vec![3, 42, 0]), 0).len(), 0);
}

#[test]
fn clock_can_be_set_and_read_with_an_offset() {
    let mut clock = TimeNow::new();
    clock.set_timestamp(1_000);
    assert_eq!(clock.get(), 1_000);
    clock.sub(300);
    assert_eq!(clock.get(), 700);
    assert_eq!(clock.get(), 1_000);
    clock.sub(2_000);
    assert_eq!(clock.get(), 0);
    clock.add(5);
    assert_eq!(clock.get(), 1_005);
    let mut real = TimeNow::new();
    assert!(real.get() > 1_600_000_000_000);
    assert!(easydns::system::get_now() >= easydns::system::get_sub_now(1_000));
}

#[test]
fn should_return_answer_when_call_handle_given_no_expired_record() {
    let strategy = TimeoutCacheStrategy::from(800);
    let record = CacheRecord::Ip(IpCacheRecord {
        domain: "www.baidu.com".to_string(),
        address: [1, 1, 1, 1],
        create_time: 0,
        ttl_ms: 1000,
    });

    let result = strategy.handle(&record, 999);

    match result {
        CacheAction::Serve(answer) => {
            let expected = ip_answer(0, "www.baidu.com", 0, &[[1, 1, 1, 1]]);
            assert_eq!(expected.to_bytes(), answer.to_bytes());
        }
        other => panic!("upstream must not be asked, got {:?}", other),
    }
}

#[test]
fn should_return_answer_and_insert_to_map_when_call_handle_given_expired_record() {
    let conf = config(|o| {
        o.cache_get_strategy = Some(1);
        o.cache_ttl_timeout_ms = Some(1000);
    });
    let mut pool = CachePool::from(&conf, None, 0);
    pool.store("www.baidu.com".to_string(), &ip_answer(0, "www.baidu.com", 1, &[[1, 1, 1, 1]]), 0);
    let asked = query(0, "www.baidu.com");

    let action = CacheHandler::new().handle(&pool, &asked, 2001);

    assert!(matches!(action, CacheAction::Fetch));
    let upstream = ip_answer(0, "www.baidu.com", 1, &[[1, 1, 1, 1]]);
    let result = CacheHandler::new().finish(&mut pool, &asked, upstream, 2001);
    assert_eq!(ip_answer(0, "www.baidu.com", 1, &[[1, 1, 1, 1]]).to_bytes(), result.to_bytes());
    match pool.get(&"www.baidu.com".to_string(), 2001) {
        CacheAction::Serve(DnsAnswer::Ipv4(answer)) => assert_eq!(answer.get_ttl(), 1),
        other => panic!("the fresh record is served, got {:?}", other),
    }
}

#[test]
fn should_return_answer_and_insert_to_map_when_call_handle_given_no_expired_but_timeout_record() {
    let strategy = TimeoutCacheStrategy::from(1000);
    let record = CacheRecord::Ip(IpCacheRecord {
        domain: "www.baidu.com".to_string(),
        address: [1, 1, 1, 1],
        create_time: 0,
        ttl_ms: 1000,
    });

    let result = strategy.handle(&record, 1999);

    match result {
        CacheAction::ServeAndRefresh(answer) => {
            let expected = ip_answer(0, "www.baidu.com", 0, &[[1, 1, 1, 1]]);
            assert_eq!(expected.to_bytes(), answer.to_bytes());
        }
        other => panic!("the stale record is served and refreshed, got {:?}", other),
    }
}

#[test]
fn should_return_none_when_get_answer_given_cache_on_is_false() {
    let conf = config(|o| o.cache = Some(false));
    let context = HandlerContext::from(&conf, false);
    let asked = query(1, "www.baidu.com");

    let result = context.handle_query(&blocking(&[]), None, &asked, 0);

    assert!(matches!(result, Step::Ask { keep: false, .. }));
}

#[test]
fn should_return_answer_when_get_answer_given_cache_is_enable_and_has_cache() {
    let conf = config(|o| {
        o.cache = Some(true);
        o.cache_get_strategy = Some(0);
    });
    let context = HandlerContext::from(&conf, false);
    let mut pool = CachePool::from(&conf, None, 0);
    pool.store("www.baidu.com".to_string(), &ip_answer(0, "www.baidu.com", 1, &[[1, 1, 1, 1]]), 0);
    let asked = query(5, "www.baidu.com");

    let result = context.handle_query(&blocking(&[]), Some(&pool), &asked, 1000);

    let expected = ip_answer(5, "www.baidu.com", 0, &[[1, 1, 1, 1]]);
    match result {
        Step::Reply(answer) => assert_eq!(expected.to_bytes(), answer.to_bytes()),
        other => panic!("the record is served, got {:?}", other),
    }
}

#[test]
fn should_return_answer_and_call_async_method_when_get_answer_given_cache_strategy_is_1_and_record_is_in_timeout(
) {
    let conf = config(|o| {
        o.cache = Some(true);
        o.cache_get_strategy = Some(1);
        o.cache_ttl_timeout_ms = Some(1000);
    });
    let context = HandlerContext::from(&conf, false);
    let mut pool = CachePool::from(&conf, None, 0);
    pool.store("www.baidu.com".to_string(), &ip_answer(0, "www.baidu.com", 1, &[[1, 1, 1, 1]]), 0);
    let asked = query(5, "www.baidu.com");

    let result = context.handle_query(&blocking(&[]), Some(&pool), &asked, 1001);

    let expected = ip_answer(5, "www.baidu.com", 0, &[[1, 1, 1, 1]]);
    match result {
        Step::ReplyAndRefresh { answer, .. } => assert_eq!(expected.to_bytes(), answer.to_bytes()),
        other => panic!("the record is served and refreshed, got {:?}", other),
    }
}

#[test]
fn should_no_record_in_context_when_store_answer_given_cache_on_is_false() {
    let conf = config(|o| o.cache = Some(false));
    let context = HandlerContext::from(&conf, false);
    let asked = query(1, "www.baidu.com");

    let step = context.handle_query(&blocking(&[]), None, &asked, 0);

    // without the cache stage nothing asks for the answer to be kept
    assert!(matches!(step, Step::Ask { keep: false, .. }));
    assert!(!context.chain().funcs.contains(&Stage::CacheHandler));
}

#[test]
fn should_store_record_in_context_when_store_answer_given_cache_on_is_true() {
    let conf = config(|o| o.cache = Some(true));
    let mut pool = CachePool::from(&conf, None, 0);
    let asked = query(1, "www.baidu.com");
    let answer = ip_answer(1, "www.baidu.com", 1, &[[1, 1, 1, 1]]);

    CacheHandler::new().finish(&mut pool, &asked, answer, 0);

    assert_eq!(1, pool.len());
    let map = create_map_by_vec_u8(1000, pool.to_file_bytes(0), 0).unwrap();
    match map.get(&"www.baidu.com".to_string()) {
        Some(CacheRecord::Ip(record)) => {
            assert_eq!(record.domain, "www.baidu.com");
            assert_eq!(record.address, [1, 1, 1, 1]);
            assert_eq!(record.ttl_ms, 1000);
        }
        other => panic!("expected the record of the answer, got {:?}", other),
    }
}

#[test]
fn time_ago_is_held_at_zero() {
    assert_eq!(easydns::system::get_sub_now(u128::MAX), 0);
    let before = easydns::system::get_now();
    let ago = easydns::system::get_sub_now(60_000);
    assert!(ago + 60_000 >= before);
    assert!(ago <= easydns::system::get_now());
}

#[test]
fn only_the_race_stops_at_the_first_answer() {
    let servers = vec!["a:53".to_string(), "b:53".to_string(), "c:53".to_string()];
    let race = ServerGroup::from(servers.clone(), 1).unwrap();
    assert!(!race.enough(&vec![]));
    assert!(!race.enough(&vec![None, None]));
    assert!(race.enough(&vec![None, Some(ip_answer(3, "x", 5, &[[5, 0, 0, 1]]))]));
    assert!(race.enough(&vec![Some(ip_answer(3, "x", 5, &[[5, 0, 0, 1]])), None]));
    assert!(PreferServerSender::from(servers.clone())
        .enough(&vec![Some(DnsAnswer::Failure(FailureAnswer::new(3, "x".to_string())))]));

    let join = ServerGroup::from(servers.clone(), 2).unwrap();
    assert!(!join.enough(&vec![Some(ip_answer(3, "x", 5, &[[5, 0, 0, 1]]))]));
    let fast = ServerGroup::from(servers, 0).unwrap();
    assert!(!fast.enough(&vec![Some(ip_answer(3, "x", 5, &[[5, 0, 0, 1]]))]));
}

#[test]
fn query_that_waited_does_what_the_cache_calls_for() {
    let choose = Some(Stage::IpFirstMaker);
    // the first query for a name goes upstream, whatever it is handed
    assert!(matches!(
        after_flight(true, None, choose),
        Step::Ask { keep: true, choose: Some(Stage::IpFirstMaker) }
    ));
    let served = CacheAction::Serve(ip_answer(9, "x", 5, &[[1, 1, 1, 1]]));
    assert!(matches!(after_flight(true, Some(served), None), Step::Ask { keep: true, choose: None }));

    // a query that waited is served what has landed
    let served = CacheAction::Serve(ip_answer(9, "x", 5, &[[1, 1, 1, 1]]));
    match after_flight(false, Some(served), choose) {
        Step::Reply(answer) => {
            assert_eq!(answer.get_id(), 9);
            assert_eq!(ips_of(&answer), vec![[1, 1, 1, 1]]);
        }
        other => panic!("a reply, got {:?}", other),
    }
    let stale = CacheAction::ServeAndRefresh(ip_answer(9, "x", 0, &[[2, 2, 2, 2]]));
    match after_flight(false, Some(stale), choose) {
        Step::ReplyAndRefresh { answer, choose: Some(Stage::IpFirstMaker) } => {
            assert_eq!(ips_of(&answer), vec![[2, 2, 2, 2]]);
        }
        other => panic!("a reply and a refresh, got {:?}", other),
    }
    // and asks itself where nothing has landed
    assert!(matches!(
        after_flight(false, Some(CacheAction::Fetch), choose),
        Step::Ask { keep: true, choose: Some(Stage::IpFirstMaker) }
    ));
    assert!(matches!(after_flight(false, None, None), Step::Ask { keep: true, choose: None }));
}
