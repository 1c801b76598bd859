//! Headers and payloads, one message kind at a time.
use bytes::{BufMut, BytesMut};
use cyclone_dds_ws_bridge::protocol::{
    build_message, parse_create_writer, parse_data, parse_data_disposed, parse_data_no_writers,
    parse_delete_writer, parse_dispose, parse_error, parse_header, parse_key_descriptors,
    parse_subscribe, parse_unsubscribe, parse_write, read_string, serialize_create_writer,
    serialize_data, serialize_data_disposed, serialize_data_no_writers, serialize_delete_writer,
    serialize_dispose, serialize_error, serialize_header, serialize_key_descriptors,
    serialize_subscribe, serialize_unsubscribe, serialize_write, validate_client_header,
    write_string, CreateWriterPayload, DataDisposedPayload, DataNoWritersPayload, DataPayload,
    DeleteWriterPayload, DisposePayload, ErrorCode, ErrorPayload, Header, KeyDescriptors,
    KeyField, KeyTypeHint, MsgType, ProtocolError, SubscribePayload, UnsubscribePayload,
    WriteMode, WritePayload, DEFAULT_MAX_PAYLOAD_SIZE, HEADER_SIZE, MAX_STRING_LENGTH, VERSION,
};
use cyclone_dds_ws_bridge::qos::QosSet;

#[test]
fn test_header_round_trip() {
    let header = Header {
        version: VERSION,
        msg_type: MsgType::Subscribe,
        request_id: 42,
        payload_length: 100,
    };
    let bytes = serialize_header(&header);
    let parsed = parse_header(&bytes).unwrap();
    assert_eq!(header, parsed);
}

#[test]
fn test_header_all_msg_types() {
    let types = [
        MsgType::Subscribe,
        MsgType::Unsubscribe,
        MsgType::Write,
        MsgType::Dispose,
        MsgType::WriteDispose,
        MsgType::CreateWriter,
        MsgType::DeleteWriter,
        MsgType::Ping,
        MsgType::Okay,
        MsgType::Data,
        MsgType::DataDisposed,
        MsgType::DataNoWriters,
        MsgType::Error,
        MsgType::Pong,
    ];
    for msg_type in types {
        let header = Header {
            version: VERSION,
            msg_type,
            request_id: 1,
            payload_length: 0,
        };
        let bytes = serialize_header(&header);
        let parsed = parse_header(&bytes).unwrap();
        assert_eq!(parsed.msg_type, msg_type);
    }
}

#[test]
fn test_bad_magic() {
    let mut bytes = serialize_header(&Header {
        version: VERSION,
        msg_type: MsgType::Ping,
        request_id: 1,
        payload_length: 0,
    });
    bytes[0] = 0xFF;
    assert!(matches!(
        parse_header(&bytes),
        Err(ProtocolError::BadMagic(_))
    ));
}

#[test]
fn test_truncated_header() {
    let err = parse_header(&[0x44, 0x42, 0x01]).unwrap_err();
    assert!(matches!(err, ProtocolError::Truncated { .. }));
}

#[test]
fn test_invalid_msg_type() {
    let mut bytes = serialize_header(&Header {
        version: VERSION,
        msg_type: MsgType::Ping,
        request_id: 1,
        payload_length: 0,
    });
    bytes[3] = 0xFF;
    assert!(matches!(
        parse_header(&bytes),
        Err(ProtocolError::InvalidMsgType(0xFF))
    ));
}

#[test]
fn test_unsupported_version() {
    let header = Header {
        version: 99,
        msg_type: MsgType::Ping,
        request_id: 1,
        payload_length: 0,
    };
    let err = validate_client_header(&header, VERSION, DEFAULT_MAX_PAYLOAD_SIZE).unwrap_err();
    assert!(matches!(
        err,
        ProtocolError::UnsupportedVersion { got: 99, max: 1 }
    ));
}

#[test]
fn test_payload_too_large() {
    let header = Header {
        version: VERSION,
        msg_type: MsgType::Write,
        request_id: 1,
        payload_length: 10_000_000,
    };
    let err = validate_client_header(&header, VERSION, DEFAULT_MAX_PAYLOAD_SIZE).unwrap_err();
    assert!(matches!(err, ProtocolError::PayloadTooLarge { .. }));
}

#[test]
fn test_reserved_request_id() {
    let header = Header {
        version: VERSION,
        msg_type: MsgType::Subscribe,
        request_id: 0,
        payload_length: 0,
    };
    let err = validate_client_header(&header, VERSION, DEFAULT_MAX_PAYLOAD_SIZE).unwrap_err();
    assert!(matches!(err, ProtocolError::ReservedRequestId));
}

#[test]
fn test_string_round_trip() {
    let mut buf = BytesMut::new();
    write_string(&mut buf, "hello");
    let bytes = buf.freeze();
    let mut slice: &[u8] = &bytes;
    let s = read_string(&mut slice).unwrap();
    assert_eq!(s, "hello");
    assert!(slice.is_empty());
}

#[test]
fn test_string_empty() {
    let mut buf = BytesMut::new();
    write_string(&mut buf, "");
    let bytes = buf.freeze();
    let mut slice: &[u8] = &bytes;
    let s = read_string(&mut slice).unwrap();
    assert_eq!(s, "");
}

#[test]
fn test_string_too_long() {
    // Craft a buffer with a length prefix exceeding MAX_STRING_LENGTH
    let mut buf = BytesMut::new();
    buf.put_u32_le((MAX_STRING_LENGTH + 1) as u32);
    buf.put_slice(&vec![0x41; MAX_STRING_LENGTH + 1]);
    let bytes = buf.freeze();
    let mut slice: &[u8] = &bytes;
    assert!(matches!(
        read_string(&mut slice),
        Err(ProtocolError::StringTooLong { .. })
    ));
}

#[test]
fn test_subscribe_round_trip() {
    let payload = SubscribePayload {
        topic_name: "test_topic".into(),
        typename: "TestType".into(),
        qos: QosSet::default(),
        is_keyed: true,
        key_descriptors: KeyDescriptors { keys: vec![] },
    };
    let bytes = serialize_subscribe(&payload);
    let parsed = parse_subscribe(&bytes).unwrap();
    assert_eq!(payload, parsed);
}

#[test]
fn test_unsubscribe_round_trip() {
    let payload = UnsubscribePayload {
        topic_name: "test_topic".into(),
        typename: "TestType".into(),
    };
    let bytes = serialize_unsubscribe(&payload);
    let parsed = parse_unsubscribe(&bytes).unwrap();
    assert_eq!(payload, parsed);
}

#[test]
fn test_write_topic_mode_round_trip() {
    let payload = WritePayload(WriteMode::TopicName {
        topic_name: "t".into(),
        typename: "T".into(),
        qos: QosSet::default(),
        key_descriptors: KeyDescriptors { keys: vec![] },
        data: vec![1, 2, 3, 4],
    });
    let bytes = serialize_write(&payload);
    let parsed = parse_write(&bytes).unwrap();
    assert_eq!(payload, parsed);
}

#[test]
fn test_write_writer_id_mode_round_trip() {
    let payload = WritePayload(WriteMode::WriterId {
        writer_id: 42,
        key_bytes: vec![],
        data: vec![0xDE, 0xAD],
    });
    let bytes = serialize_write(&payload);
    let parsed = parse_write(&bytes).unwrap();
    assert_eq!(payload, parsed);
}

#[test]
fn test_dispose_round_trip() {
    let payload = DisposePayload(WriteMode::WriterId {
        writer_id: 7,
        key_bytes: vec![],
        data: vec![0xFF],
    });
    let bytes = serialize_dispose(&payload);
    let parsed = parse_dispose(&bytes).unwrap();
    assert_eq!(payload, parsed);
}

#[test]
fn test_create_writer_round_trip() {
    let payload = CreateWriterPayload {
        topic_name: "my_topic".into(),
        typename: "MyType".into(),
        qos: QosSet::default(),
        is_keyed: true,
        key_descriptors: KeyDescriptors {
            keys: vec![KeyField {
                offset: 4,
                size: 8,
                type_hint: KeyTypeHint::Int64,
            }],
        },
    };
    let bytes = serialize_create_writer(&payload);
    let parsed = parse_create_writer(&bytes).unwrap();
    assert_eq!(payload, parsed);
}

#[test]
fn test_delete_writer_round_trip() {
    let payload = DeleteWriterPayload { writer_id: 123 };
    let bytes = serialize_delete_writer(&payload);
    let parsed = parse_delete_writer(&bytes).unwrap();
    assert_eq!(payload, parsed);
}

#[test]
fn test_error_round_trip() {
    let payload = ErrorPayload {
        error_code: ErrorCode::DdsError,
        error_message: "something went wrong".into(),
    };
    let bytes = serialize_error(&payload);
    let parsed = parse_error(&bytes).unwrap();
    assert_eq!(payload, parsed);
}

#[test]
fn test_data_round_trip() {
    let payload = DataPayload {
        topic_name: "sensor".into(),
        source_timestamp: 1234567890_000_000_000,
        data: vec![10, 20, 30],
    };
    let bytes = serialize_data(&payload);
    let parsed = parse_data(&bytes).unwrap();
    assert_eq!(payload, parsed);
}

#[test]
fn test_data_disposed_round_trip() {
    let payload = DataDisposedPayload {
        topic_name: "sensor".into(),
        source_timestamp: 999,
        key_data: vec![1, 2],
    };
    let bytes = serialize_data_disposed(&payload);
    let parsed = parse_data_disposed(&bytes).unwrap();
    assert_eq!(payload, parsed);
}

#[test]
fn test_data_no_writers_round_trip() {
    let payload = DataNoWritersPayload {
        topic_name: "sensor".into(),
        key_data: vec![5, 6, 7],
    };
    let bytes = serialize_data_no_writers(&payload);
    let parsed = parse_data_no_writers(&bytes).unwrap();
    assert_eq!(payload, parsed);
}

#[test]
fn test_key_descriptors_round_trip() {
    let kd = KeyDescriptors {
        keys: vec![
            KeyField {
                offset: 0,
                size: 4,
                type_hint: KeyTypeHint::Int32,
            },
            KeyField {
                offset: 8,
                size: 0,
                type_hint: KeyTypeHint::String,
            },
        ],
    };
    let mut buf = BytesMut::new();
    serialize_key_descriptors(&kd, &mut buf);
    let bytes = buf.freeze();
    let mut slice: &[u8] = &bytes;
    let parsed = parse_key_descriptors(&mut slice).unwrap();
    assert_eq!(kd, parsed);
}

#[test]
fn test_key_descriptors_empty() {
    let kd = KeyDescriptors { keys: vec![] };
    let mut buf = BytesMut::new();
    serialize_key_descriptors(&kd, &mut buf);
    let bytes = buf.freeze();
    let mut slice: &[u8] = &bytes;
    let parsed = parse_key_descriptors(&mut slice).unwrap();
    assert_eq!(kd, parsed);
}

#[test]
fn test_build_message() {
    let payload = serialize_error(&ErrorPayload {
        error_code: ErrorCode::InvalidMessage,
        error_message: "bad".into(),
    });
    let msg = build_message(MsgType::Error, 5, &payload);
    let header = parse_header(&msg).unwrap();
    assert_eq!(header.msg_type, MsgType::Error);
    assert_eq!(header.request_id, 5);
    assert_eq!(header.payload_length as usize, payload.len());
    let parsed = parse_error(&msg[HEADER_SIZE..]).unwrap();
    assert_eq!(parsed.error_code, ErrorCode::InvalidMessage);
    assert_eq!(parsed.error_message, "bad");
}

#[test]
fn test_invalid_write_mode() {
    let data = [0x02]; // invalid mode
    assert!(matches!(
        parse_write(&data),
        Err(ProtocolError::InvalidWriteMode(0x02))
    ));
}

#[test]
fn test_trailing_bytes_unsubscribe() {
    let mut bytes = serialize_unsubscribe(&UnsubscribePayload {
        topic_name: "t".into(),
        typename: "T".into(),
    });
    bytes.put_u8(0xFF); // trailing garbage
    assert!(matches!(
        parse_unsubscribe(&bytes),
        Err(ProtocolError::TrailingBytes(1))
    ));
}

#[test]
fn test_trailing_bytes_delete_writer() {
    let mut bytes = serialize_delete_writer(&DeleteWriterPayload { writer_id: 1 });
    bytes.put_u8(0xFF);
    assert!(matches!(
        parse_delete_writer(&bytes),
        Err(ProtocolError::TrailingBytes(1))
    ));
}

#[test]
fn test_trailing_bytes_subscribe() {
    let mut bytes = serialize_subscribe(&SubscribePayload {
        topic_name: "t".into(),
        typename: "T".into(),
        qos: QosSet::default(),
        is_keyed: false,
        key_descriptors: KeyDescriptors { keys: vec![] },
    });
    bytes.put_u8(0xFF);
    assert!(matches!(
        parse_subscribe(&bytes),
        Err(ProtocolError::TrailingBytes(1))
    ));
}

#[test]
fn test_trailing_bytes_error() {
    let mut bytes = serialize_error(&ErrorPayload {
        error_code: ErrorCode::DdsError,
        error_message: "oops".into(),
    });
    bytes.put_u8(0xFF);
    assert!(matches!(
        parse_error(&bytes),
        Err(ProtocolError::TrailingBytes(1))
    ));
}
