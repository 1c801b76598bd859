//! Frames, the server and the command line.
use cyclone_dds_ws_bridge::cli::{config_path, healthcheck_address, is_healthcheck};
use cyclone_dds_ws_bridge::config::Config;
use cyclone_dds_ws_bridge::protocol::{
    build_message, parse_error, parse_header, ErrorCode, MsgType, HEADER_SIZE,
};
use cyclone_dds_ws_bridge::ws::server::{
    admits, health_response, is_health_request, listen_address, Admission, Connections,
};
use cyclone_dds_ws_bridge::ws::session::{make_parse_error, read_frame, Frame};

fn refusal(data: &[u8], max: usize) -> (u32, String) {
    match read_frame(data, max) {
        Frame::Refused(Some(msg)) => {
            let header = parse_header(&msg).unwrap();
            assert_eq!(header.msg_type, MsgType::Error);
            let error = parse_error(&msg[HEADER_SIZE..]).unwrap();
            assert_eq!(error.error_code, ErrorCode::InvalidMessage);
            (header.request_id, error.error_message)
        }
        _ => panic!("expected a refusal"),
    }
}

fn words(args: &[&str]) -> Vec<String> {
    args.iter().map(|s| s.to_string()).collect()
}

#[test]
fn a_message_is_read_from_its_frame() {
    let mut data = build_message(MsgType::Write, 7, &[1, 2, 3]);
    data.push(99);
    match read_frame(&data, 3) {
        Frame::Request { msg_type, request_id, payload } => {
            assert_eq!(msg_type, MsgType::Write);
            assert_eq!(request_id, 7);
            assert_eq!(payload, &[1, 2, 3]);
        }
        _ => panic!("expected a request"),
    }
}

#[test]
fn frames_that_hold_no_request_are_refused() {
    assert_eq!(refusal(&[0x44, 0x42], 10), (0, "message too short".to_string()));
    assert_eq!(
        refusal(&[0; 12], 10),
        (0, "bad magic: expected [0x44, 0x42], got [0x00, 0x00]".to_string())
    );
    let data = build_message(MsgType::Write, 7, &[1, 2, 3]);
    assert_eq!(
        refusal(&data, 2),
        (7, "payload too large: 3 bytes exceeds maximum 2".to_string())
    );
    assert_eq!(
        refusal(&data[..14], 10),
        (7, "incomplete message: expected 15 bytes, got 14".to_string())
    );
    let unsolicited = build_message(MsgType::Ping, 0, &[]);
    assert_eq!(
        refusal(&unsolicited, 10),
        (0, "request_id 0 is reserved for bridge-initiated messages".to_string())
    );
}

#[test]
fn an_unknown_type_is_answered_under_its_request_id() {
    let data = [0x44, 0x42, 0x01, 0xFF, 7, 0, 0, 0, 0, 0, 0, 0];
    assert_eq!(refusal(&data, 10), (7, "invalid msg_type: 0xff".to_string()));
    let later = [0x44, 0x42, 0x03, 0xFF, 7, 1, 0, 0, 0, 0, 0, 0];
    assert_eq!(
        refusal(&later, 10),
        (263, "unsupported protocol version 3; bridge supports up to version 1".to_string())
    );
    let magic = [0x44, 0x43, 0x01, 0xFF, 7, 0, 0, 0, 0, 0, 0, 0];
    assert_eq!(refusal(&magic, 10).0, 0);
    assert_eq!(refusal(&data[..11], 10), (0, "message too short".to_string()));
}

#[test]
fn parse_errors_echo_the_request() {
    let msg = make_parse_error(8, "no").unwrap();
    assert_eq!(parse_header(&msg).unwrap().request_id, 8);
    assert_eq!(parse_error(&msg[HEADER_SIZE..]).unwrap().error_message, "no");
}

#[test]
fn connections_are_limited() {
    assert!(admits(63, 64));
    assert!(!admits(64, 64));
    assert!(!admits(0, 0));
}

#[test]
fn served_connections_are_counted() {
    let mut connections = Connections::new(2);
    assert_eq!(connections.decide(b"GET /health"), Admission::Health);
    assert_eq!(connections.decide(b"GET / HTTP/"), Admission::Served);
    assert!(connections.has_room());
    assert_eq!(connections.decide(b""), Admission::Served);
    assert!(!connections.has_room());
    assert_eq!(connections.decide(b"GET / HTTP/"), Admission::Rejected);
    assert_eq!(connections.decide(b"GET /health"), Admission::Rejected);
    connections.connection_ended();
    assert_eq!(connections.decide(b"GET /health"), Admission::Health);
    assert_eq!(connections.decide(b"GET / HTTP/"), Admission::Served);
    connections.connection_ended();
    connections.connection_ended();
    connections.connection_ended();
    assert_eq!(connections.decide(b""), Admission::Served);
    assert_eq!(Connections::new(0).decide(b""), Admission::Rejected);
}

#[test]
fn health_requests_are_told_by_their_first_bytes() {
    assert!(is_health_request(b"GET /health"));
    assert!(is_health_request(b"GET /health HTTP/1.1"));
    assert!(!is_health_request(b"GET /healt"));
    assert!(!is_health_request(b"GET / HTTP/1.1"));
    assert_eq!(
        health_response(),
        "HTTP/1.1 200 OK\r\nContent-Length: 2\r\nConnection: close\r\n\r\nOK"
    );
}

#[test]
fn addresses() {
    assert_eq!(listen_address("0.0.0.0", 9876), "0.0.0.0:9876");
    let mut config = Config::default();
    assert_eq!(healthcheck_address(&config), "127.0.0.1:9876");
    config.websocket.addr = "0.0.0.0".to_string();
    config.websocket.port = 1;
    assert_eq!(healthcheck_address(&config), "127.0.0.1:1");
    config.websocket.addr = "10.0.0.1".to_string();
    assert_eq!(healthcheck_address(&config), "10.0.0.1:1");
}

#[test]
fn the_command_line() {
    assert_eq!(config_path(&words(&["bridge"])), None);
    assert_eq!(config_path(&words(&["bridge", "--config"])), None);
    assert_eq!(
        config_path(&words(&["bridge", "--config", "a.toml", "--config", "b.toml"])),
        Some("a.toml".to_string())
    );
    assert_eq!(
        config_path(&words(&["bridge", "--config", "--config"])),
        Some("--config".to_string())
    );
    assert!(is_healthcheck(&words(&["bridge", "healthcheck"])));
    assert!(!is_healthcheck(&words(&["bridge", "--config", "healthcheck"])));
    assert!(!is_healthcheck(&words(&["bridge"])));
}
