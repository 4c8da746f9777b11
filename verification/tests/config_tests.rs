use easydns::buffer::PacketBuffer;
use easydns::config::{init_from_toml, read_options, Config, ConfigError, ConfigOptions};
use easydns::system::PanicError;

fn nothing() -> ConfigOptions {
    ConfigOptions {
        cache: None,
        cache_file: None,
        cache_num: None,
        port: None,
        servers: None,
        filters: None,
        log_level: None,
        ip_choose_strategy: None,
        cache_get_strategy: None,
        cache_ttl_timeout_ms: None,
        server_choose_strategy: None,
        server_choose_duration_h: None,
    }
}

#[test]
fn every_option_has_its_default() {
    let config = Config::from(nothing()).unwrap();
    assert!(config.cache_on);
    assert_eq!(config.cache_file, "cache");
    assert_eq!(config.cache_num, 1000);
    assert_eq!(config.port, 2053);
    assert!(config.servers.is_empty());
    assert!(config.filters.is_empty());
    assert_eq!(config.log_level, "error");
    assert_eq!(config.ip_choose_strategy, 0);
    assert_eq!(config.cache_get_strategy, 0);
    assert_eq!(config.cache_ttl_timeout_ms, 0);
    assert_eq!(config.server_choose_strategy, 0);
    assert_eq!(config.server_choose_duration_h, 12);
}

#[test]
fn document_is_read_option_by_option() {
    let text = r#"
cache = false
cache-file = "records"
cache-num = 50
port = 53
servers = ["114.114.114.114:53", "8.8.8.8:53"]
filters = ["list.txt"]
log-level = "info"
ip-choose-strategy = 1
cache-get-strategy = 1
cache-ttl-timeout-ms = 5000
server-choose-strategy = 2
server-choose-duration-h = 6
"#;
    let config = init_from_toml(text).unwrap();
    assert!(!config.cache_on);
    assert_eq!(config.cache_file, "records");
    assert_eq!(config.cache_num, 50);
    assert_eq!(config.port, 53);
    assert_eq!(config.servers, vec!["114.114.114.114:53", "8.8.8.8:53"]);
    assert_eq!(config.filters, vec!["list.txt"]);
    assert_eq!(config.log_level, "info");
    assert_eq!(config.ip_choose_strategy, 1);
    assert_eq!(config.cache_get_strategy, 1);
    assert_eq!(config.cache_ttl_timeout_ms, 5000);
    assert_eq!(config.server_choose_strategy, 2);
    assert_eq!(config.server_choose_duration_h, 6);
}

#[test]
fn option_of_another_type_counts_as_not_given() {
    let table = "port = \"high\"\ncache = 1\nservers = 5".parse::<toml::Table>().unwrap();
    let options = read_options(&table);
    assert_eq!(options.port, None);
    assert_eq!(options.cache, None);
    assert!(options.servers.is_none());
    let config = Config::from(options).unwrap();
    assert_eq!(config.port, 2053);
    assert!(config.cache_on);
}

#[test]
fn each_fault_of_a_configuration_has_its_error() {
    assert_eq!(init_from_toml("port = ").unwrap_err(), ConfigError::Syntax);
    assert_eq!(init_from_toml("servers = [\"a:53\", 5]").unwrap_err(), ConfigError::NotText);
    assert_eq!(init_from_toml("port = 70000").unwrap_err(), ConfigError::OutOfRange);
    assert_eq!(init_from_toml("cache-num = -1").unwrap_err(), ConfigError::OutOfRange);
    assert_eq!(init_from_toml("server-choose-strategy = 3").unwrap_err(), ConfigError::UnknownStrategy);
    assert_eq!(init_from_toml("cache-get-strategy = 2").unwrap_err(), ConfigError::UnknownStrategy);
    assert_eq!(init_from_toml("ip-choose-strategy = -1").unwrap_err(), ConfigError::UnknownStrategy);
    assert!(init_from_toml("").is_ok());
}

#[test]
fn packet_buffer_is_written_and_read() {
    let mut buffer = PacketBuffer::new();
    assert_eq!(buffer.as_mut_slice().len(), 512);
    buffer.as_mut_slice()[..4].copy_from_slice(&[9, 8, 7, 6]);
    assert_eq!(buffer.peek(), 9);
    assert_eq!(buffer.take(), 9);
    assert_eq!(buffer.take_slice(2), &[8, 7]);
    assert_eq!(buffer.get_current_index(), 3);
    let mut seen = 0;
    buffer.tmp_at(0, |b: &mut PacketBuffer| {
        b.move_to(1);
        b.at(1);
    });
    assert_eq!(buffer.get_current_index(), 3);
    buffer.at(3);
    seen += buffer.take();
    assert_eq!(seen, 6);
    assert_eq!(buffer.to_vec().len(), 512);
    assert_eq!(PanicError.description(), "thread panic error");
}
