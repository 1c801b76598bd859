//! Settings, their defaults and the environment.
use cyclone_dds_ws_bridge::bridge::domain_of;
use cyclone_dds_ws_bridge::config::{
    parse_number, Config, ConfigError, ConfigFile, EnvOverrides,
};
use cyclone_dds_ws_bridge::dds::participant::domain_to_join;
use cyclone_dds_ws_bridge::protocol::DEFAULT_MAX_PAYLOAD_SIZE;

fn no_env() -> EnvOverrides {
    EnvOverrides { ws_addr: None, ws_port: None, dds_domain: None, cyclonedds_uri: None }
}

fn empty_file() -> ConfigFile {
    ConfigFile {
        addr: None,
        port: None,
        max_connections: None,
        idle_timeout_secs: None,
        domain_id: None,
        cyclonedds_uri: None,
        max_payload_size: None,
        session_buffer_size: None,
        level: None,
    }
}

/// What a TOML text says.
fn read_toml(text: &str) -> ConfigFile {
    let table = text.parse::<toml::Table>().unwrap();
    let value = |section: &str, key: &str| table.get(section).and_then(|s| s.get(key)).cloned();
    let word = |section: &str, key: &str| value(section, key).and_then(|v| v.as_str().map(String::from));
    let number = |section: &str, key: &str| value(section, key).and_then(|v| v.as_integer());
    ConfigFile {
        addr: word("websocket", "addr"),
        port: number("websocket", "port").map(|n| n as u16),
        max_connections: number("websocket", "max_connections").map(|n| n as usize),
        idle_timeout_secs: number("websocket", "idle_timeout_secs").map(|n| n as u64),
        domain_id: number("dds", "domain_id").map(|n| n as u32),
        cyclonedds_uri: word("dds", "cyclonedds_uri"),
        max_payload_size: number("bridge", "max_payload_size").map(|n| n as usize),
        session_buffer_size: number("bridge", "session_buffer_size").map(|n| n as usize),
        level: word("logging", "level"),
    }
}

#[test]
fn test_parse_toml() {
    let toml_str = r#"
[websocket]
addr = "0.0.0.0"
port = 8080

[dds]
domain_id = 42

[bridge]
max_payload_size = 1048576
session_buffer_size = 128

[logging]
level = "debug"
"#;
    let config = Config::from_file(read_toml(toml_str));
    assert_eq!(config.websocket.addr, "0.0.0.0");
    assert_eq!(config.websocket.port, 8080);
    assert_eq!(config.dds.domain_id, 42);
    assert_eq!(config.bridge.max_payload_size, 1048576);
    assert_eq!(config.bridge.session_buffer_size, 128);
    assert_eq!(config.logging.level, "debug");
}

#[test]
fn test_partial_toml_uses_defaults() {
    let toml_str = r#"
[websocket]
port = 1234
"#;
    let config = Config::from_file(read_toml(toml_str));
    assert_eq!(config.websocket.port, 1234);
    assert_eq!(config.websocket.addr, "127.0.0.1");
    assert_eq!(config.dds.domain_id, 0);
}

#[test]
fn test_empty_toml_uses_defaults() {
    let config = Config::from_file(read_toml(""));
    assert_eq!(config.websocket.port, 9876);
    assert_eq!(config.bridge.max_payload_size, DEFAULT_MAX_PAYLOAD_SIZE);
}

#[test]
fn test_defaults() {
    let config = Config::default();
    assert_eq!(config.websocket.addr, "127.0.0.1");
    assert_eq!(config.websocket.port, 9876);
    assert_eq!(config.dds.domain_id, 0);
    assert_eq!(config.bridge.max_payload_size, 4 * 1024 * 1024);
    assert_eq!(config.bridge.session_buffer_size, 256);
}

#[test]
fn the_other_defaults() {
    let config = Config::default();
    assert_eq!(config.websocket.max_connections, 64);
    assert_eq!(config.websocket.idle_timeout_secs, 30);
    assert_eq!(config.dds.cyclonedds_uri, None);
    assert_eq!(config.logging.level, "info");
}

#[test]
fn test_env_override_addr() {
    let env = EnvOverrides { ws_addr: Some("0.0.0.0".to_string()), ..no_env() };
    let config = Config::from_defaults(&env).ok().unwrap();
    assert_eq!(config.websocket.addr, "0.0.0.0");
}

#[test]
fn test_env_override_invalid_port() {
    let env = EnvOverrides { ws_port: Some("banana".to_string()), ..no_env() };
    let err = Config::from_defaults(&env).err().unwrap();
    assert!(matches!(err, ConfigError::InvalidEnvVar(_, _)));
    assert_eq!(
        err.message(),
        "invalid value for environment variable DDS_BRIDGE_WS_PORT: 'banana'"
    );
}

#[test]
fn test_env_override_invalid_domain() {
    let env = EnvOverrides { dds_domain: Some("not_a_number".to_string()), ..no_env() };
    let err = Config::from_defaults(&env).err().unwrap();
    assert!(matches!(err, ConfigError::InvalidEnvVar(_, _)));
    assert_eq!(
        err.message(),
        "invalid value for environment variable DDS_BRIDGE_DDS_DOMAIN: 'not_a_number'"
    );
}

#[test]
fn every_override_reaches_its_setting() {
    let env = EnvOverrides {
        ws_addr: Some("::1".to_string()),
        ws_port: Some("65535".to_string()),
        dds_domain: Some("4294967295".to_string()),
        cyclonedds_uri: Some("file:///c.xml".to_string()),
    };
    let file = ConfigFile {
        addr: Some("10.0.0.1".to_string()),
        level: Some("debug".to_string()),
        ..empty_file()
    };
    let config = Config::load(file, &env).ok().unwrap();
    assert_eq!(config.websocket.addr, "::1");
    assert_eq!(config.websocket.port, 65535);
    assert_eq!(config.dds.domain_id, 4294967295);
    assert_eq!(config.dds.cyclonedds_uri, Some("file:///c.xml".to_string()));
    assert_eq!(config.logging.level, "debug");
    assert_eq!(config.websocket.max_connections, 64);
}

#[test]
fn without_overrides_nothing_changes() {
    let file = ConfigFile { port: Some(1234), ..empty_file() };
    let config = Config::load(file, &no_env()).ok().unwrap();
    assert_eq!(config.websocket.port, 1234);
    assert_eq!(config.websocket.addr, "127.0.0.1");
}

#[test]
fn numbers_are_read_as_rust_reads_them() {
    for text in ["0", "9876", "+5", "007", "65535", "65536", "", "+", "-1", "1 ", "1_0", "\u{0661}"] {
        assert_eq!(parse_number(text, 65535), text.parse::<u16>().ok().map(u32::from), "{text}");
    }
    assert_eq!(parse_number("4294967296", u32::MAX), None);
    assert_eq!(parse_number("99999999999999999999999", u32::MAX), None);
}

#[test]
fn config_errors_say_what_went_wrong() {
    let read = ConfigError::FileRead("/etc/b.toml".to_string(), "no such file".to_string());
    assert_eq!(read.message(), "failed to read config file '/etc/b.toml': no such file");
    let parse = ConfigError::Parse("bad key".to_string());
    assert_eq!(parse.message(), "failed to parse config: bad key");
}

#[test]
fn domain_zero_is_left_to_the_dds_layer() {
    let mut config = Config::default();
    assert_eq!(domain_of(&config), 0xFFFFFFFF);
    config.dds.domain_id = 42;
    assert_eq!(domain_of(&config), 42);
    assert_eq!(domain_to_join(None), 0xFFFFFFFF);
    assert_eq!(domain_to_join(Some(3)), 3);
}
