//! The texts of errors, and the inputs that give them.
use cyclone_dds_ws_bridge::dds::DdsError;
use cyclone_dds_ws_bridge::protocol::{
    check_no_trailing, parse_error, parse_header, parse_key_descriptors, parse_subscribe,
    parse_write, read_bool, read_string, validate_client_header, Header, MsgType, ProtocolError,
    DEFAULT_MAX_PAYLOAD_SIZE, VERSION,
};
use cyclone_dds_ws_bridge::qos::codec::{validate_bool, validate_range};
use cyclone_dds_ws_bridge::qos::parse_qos;

fn header(version: u8, request_id: u32, payload_length: u32) -> Header {
    Header { version, msg_type: MsgType::Write, request_id, payload_length }
}

fn refusal(h: Header) -> String {
    validate_client_header(&h, VERSION, DEFAULT_MAX_PAYLOAD_SIZE).unwrap_err().message()
}

#[test]
fn header_errors() {
    assert_eq!(
        parse_header(&[0xFF, 0x42, 1, 1, 0, 0, 0, 0, 0, 0, 0, 0]).unwrap_err().message(),
        "bad magic: expected [0x44, 0x42], got [0xff, 0x42]"
    );
    assert_eq!(
        parse_header(&[0x44, 0x42, 1, 0, 0, 0, 0, 0, 0, 0, 0, 0]).unwrap_err().message(),
        "invalid msg_type: 0x00"
    );
    assert_eq!(
        parse_header(&[0x44, 0x42, 1]).unwrap_err().message(),
        "truncated message: expected 12 bytes, got 3"
    );
    assert_eq!(
        refusal(header(3, 1, 0)),
        "unsupported protocol version 3; bridge supports up to version 1"
    );
    assert_eq!(
        refusal(header(1, 1, 4194305)),
        "payload too large: 4194305 bytes exceeds maximum 4194304"
    );
    assert_eq!(refusal(header(1, 0, 0)), "request_id 0 is reserved for bridge-initiated messages");
}

#[test]
fn the_first_fault_of_a_header_is_told() {
    let all = header(9, 0, 4194305);
    assert!(refusal(all).starts_with("unsupported protocol version 9"));
    assert!(refusal(header(1, 0, 4194305)).starts_with("payload too large"));
}

#[test]
fn payload_errors() {
    assert_eq!(parse_write(&[7]).unwrap_err().message(), "invalid write mode: 0x07");
    assert_eq!(
        parse_write(&[]).unwrap_err().message(),
        "truncated message: expected 1 bytes, got 0"
    );
    assert_eq!(parse_error(&[0xEE, 0xFF]).unwrap_err().message(), "invalid error code: 0xffee");
    assert_eq!(check_no_trailing(&[1, 2]).unwrap_err().message(), "unexpected 2 trailing bytes");
    assert!(check_no_trailing(&[]).is_ok());
    let mut keys: &[u8] = &[1, 0, 0, 0, 0, 4, 0, 0, 0, 0xAA];
    assert_eq!(
        parse_key_descriptors(&mut keys).unwrap_err().message(),
        "invalid key type hint: 0xaa"
    );
}

#[test]
fn string_errors() {
    let mut long: &[u8] = &[1, 0, 0x10, 0];
    assert!(matches!(
        read_string(&mut long),
        Err(ProtocolError::StringTooLong { length: 1048577, max: 1048576 })
    ));
    let text = ProtocolError::StringTooLong { length: 1048577, max: 1048576 }.message();
    assert_eq!(text, "string too long: 1048577 bytes exceeds maximum 1048576");
    let mut short: &[u8] = &[3, 0, 0, 0, b'a'];
    assert!(matches!(
        read_string(&mut short),
        Err(ProtocolError::Truncated { expected: 3, got: 1 })
    ));
    let mut bad: &[u8] = &[2, 0, 0, 0, b'a', 0xFF];
    let reason = std::str::from_utf8(&[b'a', 0xFF]).unwrap_err().to_string();
    assert_eq!(read_string(&mut bad).unwrap_err().message(), format!("invalid UTF-8: {reason}"));
}

#[test]
fn a_string_is_taken_off_the_front() {
    let mut bytes: &[u8] = &[2, 0, 0, 0, 0xC3, 0xA9, 5, 6];
    assert_eq!(read_string(&mut bytes).unwrap(), "\u{e9}");
    assert_eq!(bytes, &[5, 6]);
}

#[test]
fn booleans() {
    let mut two: &[u8] = &[0, 1];
    assert_eq!(read_bool(&mut two).unwrap(), false);
    assert_eq!(read_bool(&mut two).unwrap(), true);
    assert!(matches!(read_bool(&mut two), Err(ProtocolError::Truncated { expected: 1, got: 0 })));
}

#[test]
fn qos_errors() {
    let mut unknown: &[u8] = &[1, 0x0E];
    assert_eq!(parse_qos(&mut unknown).unwrap_err().message(), "invalid QoS policy id: 0x0e");
    let mut kind: &[u8] = &[1, 0x02, 4];
    assert_eq!(
        parse_qos(&mut kind).unwrap_err().message(),
        "invalid QoS value: durability kind: 4 not in 0..=3"
    );
    let mut flag: &[u8] = &[1, 0x0C, 2];
    assert_eq!(
        parse_qos(&mut flag).unwrap_err().message(),
        "invalid QoS value: autodispose_unregistered_instances: expected 0 or 1, got 2"
    );
    let mut twice: &[u8] = &[2, 0x02, 1, 0x02, 1];
    assert_eq!(parse_qos(&mut twice).unwrap_err().message(), "duplicate QoS policy id: 0x02");
    let mut short: &[u8] = &[1, 0x04, 0, 0];
    assert!(matches!(
        parse_qos(&mut short),
        Err(ProtocolError::Truncated { expected: 4, got: 2 })
    ));
    assert!(validate_range("k", 3, 3).is_ok());
    assert_eq!(
        validate_range("k", 4, 3).unwrap_err().message(),
        "invalid QoS value: k: 4 not in 0..=3"
    );
    assert!(validate_bool("b", 1).is_ok());
    assert_eq!(
        validate_bool("b", 3).unwrap_err().message(),
        "invalid QoS value: b: expected 0 or 1, got 3"
    );
}

#[test]
fn a_subscription_is_read_to_its_end() {
    assert!(matches!(parse_subscribe(&[0, 0, 0]), Err(ProtocolError::Truncated { .. })));
}

#[test]
fn dds_errors() {
    let texts = [
        (DdsError::CreateParticipant(-1), "failed to create DomainParticipant: DDS error code -1"),
        (DdsError::CreateTopic(-2), "failed to create topic: DDS error code -2"),
        (DdsError::CreateWriter(-3), "failed to create writer: DDS error code -3"),
        (DdsError::CreateReader(-4), "failed to create reader: DDS error code -4"),
        (DdsError::Write(-10), "DDS write failed: error code -10"),
        (DdsError::Dispose(-11), "DDS dispose failed: error code -11"),
        (DdsError::WriteDispose(i32::MIN), "DDS writedispose failed: error code -2147483648"),
        (DdsError::Read(0), "DDS read/take failed: error code 0"),
        (DdsError::InvalidName("n".to_string()), "invalid name: n"),
        (DdsError::WriterNotFound(42), "writer not found: 42"),
        (
            DdsError::WriterOwnership(4294967295),
            "writer ownership violation: writer 4294967295 belongs to another session",
        ),
    ];
    for (error, text) in texts {
        assert_eq!(error.message(), text);
    }
}
