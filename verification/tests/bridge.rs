//! Requests and deliveries, end to end over the library.
use cyclone_dds_ws_bridge::bridge::{
    create_bridge, execute_write_op, make_error_response, next_session_id, sample_fits,
    sample_to_message, BridgeInner, OutboundMessage, Outcome, SessionBuffer, FIRST_SESSION_ID,
};
use cyclone_dds_ws_bridge::config::Config;
use cyclone_dds_ws_bridge::dds::reader::TakenSample;
use cyclone_dds_ws_bridge::dds::{DdsError, InstanceState, ReceivedSample, WriteOp};
use cyclone_dds_ws_bridge::protocol::{
    build_message, parse_data, parse_data_disposed, parse_data_no_writers, parse_error,
    parse_header, serialize_create_writer, serialize_delete_writer, serialize_subscribe,
    serialize_unsubscribe, serialize_write_mode, CreateWriterPayload, DeleteWriterPayload,
    ErrorCode, ErrorPayload, Header, KeyDescriptors, KeyField, KeyTypeHint, MsgType,
    SubscribePayload, UnsubscribePayload, WriteMode, HEADER_SIZE,
};
use cyclone_dds_ws_bridge::qos::{QosPolicy, QosSet};
use cyclone_dds_ws_bridge::ws::session::{
    process_binary_frame, session_event, SessionEvent, SessionStep,
};

const MAX: usize = 4 * 1024 * 1024;

fn bridge() -> BridgeInner {
    create_bridge(Config::default(), 100).ok().unwrap()
}

fn small_bridge(session_buffer_size: usize) -> BridgeInner {
    let mut config = Config::default();
    config.bridge.session_buffer_size = session_buffer_size;
    create_bridge(config, 100).ok().unwrap()
}

fn send(b: &mut BridgeInner, session: u64, msg_type: MsgType, id: u32, payload: &[u8]) -> Outcome {
    process_binary_frame(b, session, &build_message(msg_type, id, payload), MAX)
}

fn header_of(msg: &[u8]) -> Header {
    parse_header(msg).unwrap()
}

/// The answer that an outcome holds.
fn answer(outcome: Outcome) -> Vec<u8> {
    match outcome {
        Outcome::Done(Some(msg)) => msg,
        _ => panic!("expected an answer"),
    }
}

fn assert_ok(msg: &[u8], id: u32) -> Vec<u8> {
    let header = header_of(msg);
    assert_eq!(header.msg_type, MsgType::Okay);
    assert_eq!(header.request_id, id);
    assert_eq!(header.payload_length as usize, msg.len() - HEADER_SIZE);
    msg[HEADER_SIZE..].to_vec()
}

fn assert_error(msg: &[u8], id: u32, code: ErrorCode, text: &str) {
    let header = header_of(msg);
    assert_eq!(header.msg_type, MsgType::Error);
    assert_eq!(header.request_id, id);
    let error = parse_error(&msg[HEADER_SIZE..]).unwrap();
    assert_eq!(error, ErrorPayload { error_code: code, error_message: text.to_string() });
}

fn subscription(topic: &str, qos: QosSet) -> Vec<u8> {
    serialize_subscribe(&SubscribePayload {
        topic_name: topic.to_string(),
        typename: "T".to_string(),
        qos,
        is_keyed: false,
        key_descriptors: KeyDescriptors { keys: vec![] },
    })
    .to_vec()
}

fn writer_request(topic: &str) -> Vec<u8> {
    serialize_create_writer(&CreateWriterPayload {
        topic_name: topic.to_string(),
        typename: "T".to_string(),
        qos: QosSet::default(),
        is_keyed: true,
        key_descriptors: KeyDescriptors { keys: vec![] },
    })
    .to_vec()
}

fn topic_write(topic: &str, data: &[u8]) -> Vec<u8> {
    serialize_write_mode(&WriteMode::TopicName {
        topic_name: topic.to_string(),
        typename: "T".to_string(),
        qos: QosSet::default(),
        key_descriptors: KeyDescriptors { keys: vec![] },
        data: data.to_vec(),
    })
    .to_vec()
}

fn id_write(writer_id: u32, key: &[u8], data: &[u8]) -> Vec<u8> {
    serialize_write_mode(&WriteMode::WriterId {
        writer_id,
        key_bytes: key.to_vec(),
        data: data.to_vec(),
    })
    .to_vec()
}

/// Carries a request through, with the given handles for what DDS creates.
fn run(b: &mut BridgeInner, first: Outcome, topic: i32, entity: i32) -> Outcome {
    let mut outcome = first;
    loop {
        outcome = match outcome {
            Outcome::CreateTopic(_, pending) => b.topic_created(pending, topic),
            Outcome::CreateReader(_, pending, t) => b.reader_created(pending, t, entity),
            Outcome::CreateWriter(_, pending, t) => b.writer_created(pending, t, entity),
            done => return done,
        };
    }
}

fn subscribe(b: &mut BridgeInner, session: u64, topic: &str, reader: i32) {
    let first = send(b, session, MsgType::Subscribe, 1, &subscription(topic, QosSet::default()));
    let done = run(b, first, 10, reader);
    assert!(assert_ok(&answer(done), 1).is_empty());
}

fn create_writer(b: &mut BridgeInner, session: u64, topic: &str, writer: i32) -> u32 {
    let first = send(b, session, MsgType::CreateWriter, 2, &writer_request(topic));
    let payload = assert_ok(&answer(run(b, first, 10, writer)), 2);
    u32::from_le_bytes([payload[0], payload[1], payload[2], payload[3]])
}

fn alive(data: &[u8]) -> TakenSample {
    TakenSample { instance_state: 1, valid_data: true, source_timestamp: 77, data: data.to_vec() }
}

#[test]
fn a_bridge_needs_a_participant() {
    assert!(matches!(
        create_bridge(Config::default(), -1),
        Err(DdsError::CreateParticipant(-1))
    ));
    assert_eq!(bridge().config().websocket.port, 9876);
}

#[test]
fn sessions_are_numbered() {
    let mut counter: u64 = FIRST_SESSION_ID;
    assert_eq!(next_session_id(&mut counter), 1);
    assert_eq!(next_session_id(&mut counter), 2);
    counter = u64::MAX;
    assert_eq!(next_session_id(&mut counter), u64::MAX);
    assert_eq!(counter, 0);
}

#[test]
fn ping_is_answered_with_pong() {
    let mut b = bridge();
    let msg = answer(send(&mut b, 1, MsgType::Ping, 99, &[]));
    assert_eq!(msg, build_message(MsgType::Pong, 99, &[]));
}

#[test]
fn messages_of_the_bridge_are_refused() {
    let mut b = bridge();
    let msg = answer(send(&mut b, 1, MsgType::Okay, 5, &[]));
    assert_error(&msg, 5, ErrorCode::InvalidMessage, "unexpected message type: Ok");
    let msg = answer(send(&mut b, 1, MsgType::DataNoWriters, 6, &[]));
    assert_error(&msg, 6, ErrorCode::InvalidMessage, "unexpected message type: DataNoWriters");
}

#[test]
fn malformed_requests_are_refused() {
    let mut b = bridge();
    for msg_type in [
        MsgType::Subscribe,
        MsgType::Unsubscribe,
        MsgType::CreateWriter,
        MsgType::DeleteWriter,
    ] {
        let msg = answer(send(&mut b, 1, msg_type, 5, &[]));
        let text = "truncated message: expected 4 bytes, got 0";
        assert_error(&msg, 5, ErrorCode::InvalidMessage, text);
    }
    for msg_type in [MsgType::Write, MsgType::Dispose, MsgType::WriteDispose] {
        let msg = answer(send(&mut b, 1, msg_type, 6, &[9]));
        assert_error(&msg, 6, ErrorCode::InvalidMessage, "invalid write mode: 0x09");
    }
}

#[test]
fn a_subscription_asks_for_topic_and_reader() {
    let mut b = bridge();
    let qos = QosSet { policies: vec![QosPolicy::Durability { kind: 1 }] };
    let (topic, pending) = match send(&mut b, 1, MsgType::Subscribe, 7, &subscription("t", qos)) {
        Outcome::CreateTopic(topic, pending) => (topic, pending),
        _ => panic!("expected a topic to be asked for"),
    };
    assert_eq!(topic.participant, 100);
    assert_eq!(topic.topic_name, "t");
    assert_eq!(topic.sertype.typename, "T");
    assert!(topic.sertype.no_key);
    let (reader, pending, topic) = match b.topic_created(pending, 10) {
        Outcome::CreateReader(reader, pending, topic) => (reader, pending, topic),
        _ => panic!("expected a reader to be asked for"),
    };
    assert_eq!((reader.participant, reader.topic), (100, 10));
    assert_eq!(reader.qos.unwrap().settings.len(), 1);
    assert_ok(&answer(b.reader_created(pending, topic, 20)), 7);
    assert_eq!(b.reader_ids(), vec![1]);
    assert_eq!(b.reader(1).unwrap().handle, 20);
}

#[test]
fn a_shared_reader_is_not_created_again() {
    let mut b = bridge();
    subscribe(&mut b, 1, "t", 20);
    let msg = send(&mut b, 2, MsgType::Subscribe, 8, &subscription("t", QosSet::default()));
    assert_ok(&answer(msg), 8);
    assert_eq!(b.reader_ids(), vec![1]);
    assert_eq!(b.reader(1).unwrap().ref_count(), 2);
}

#[test]
fn dds_failures_are_told() {
    let mut b = bridge();
    let first = send(&mut b, 1, MsgType::Subscribe, 3, &subscription("t", QosSet::default()));
    let msg = answer(run(&mut b, first, -7, 20));
    assert_error(&msg, 3, ErrorCode::DdsError, "failed to create topic: DDS error code -7");
    let first = send(&mut b, 1, MsgType::Subscribe, 4, &subscription("t", QosSet::default()));
    let msg = answer(run(&mut b, first, 10, -8));
    assert_error(&msg, 4, ErrorCode::DdsError, "failed to create reader: DDS error code -8");
    let first = send(&mut b, 1, MsgType::CreateWriter, 5, &writer_request("t"));
    let msg = answer(run(&mut b, first, 10, -9));
    assert_error(&msg, 5, ErrorCode::DdsError, "failed to create writer: DDS error code -9");
    assert!(b.reader_ids().is_empty());
    let msg = execute_write_op(6, WriteOp::Dispose, -10).unwrap();
    assert_error(&msg, 6, ErrorCode::DdsError, "DDS dispose failed: error code -10");
    assert_ok(&execute_write_op(7, WriteOp::Write, 0).unwrap(), 7);
}

#[test]
fn a_name_with_a_nul_is_refused() {
    let mut b = bridge();
    let msg = answer(send(&mut b, 1, MsgType::CreateWriter, 3, &writer_request("a\0b")));
    assert_error(&msg, 3, ErrorCode::DdsError, "invalid name: a\0b");
}

#[test]
fn writers_are_used_by_id() {
    let mut b = bridge();
    let id = create_writer(&mut b, 1, "t", 30);
    assert_eq!(id, 1);
    match send(&mut b, 1, MsgType::Write, 9, &id_write(id, &[1], &[2, 3])) {
        Outcome::Perform(op) => {
            assert_eq!(op.request_id, 9);
            assert_eq!(op.writer, 30);
            assert_eq!(op.op, WriteOp::Write);
            assert_eq!(op.sample.data, vec![2, 3]);
            assert_eq!(op.sample.key_data, vec![1]);
        }
        _ => panic!("expected an operation"),
    }
    for (msg_type, op) in
        [(MsgType::Dispose, WriteOp::Dispose), (MsgType::WriteDispose, WriteOp::WriteDispose)]
    {
        match send(&mut b, 1, msg_type, 9, &id_write(id, &[], &[2])) {
            Outcome::Perform(request) => assert_eq!(request.op, op),
            _ => panic!("expected an operation"),
        }
    }
}

#[test]
fn a_writer_of_another_session_cannot_be_used() {
    let mut b = bridge();
    let id = create_writer(&mut b, 1, "t", 30);
    let text = "writer ownership violation: writer 1 belongs to another session";
    let msg = answer(send(&mut b, 2, MsgType::Write, 9, &id_write(id, &[], &[2])));
    assert_error(&msg, 9, ErrorCode::WriterNotFound, text);
    let delete = serialize_delete_writer(&DeleteWriterPayload { writer_id: id });
    let msg = answer(send(&mut b, 2, MsgType::DeleteWriter, 10, &delete));
    assert_error(&msg, 10, ErrorCode::WriterNotFound, text);
    assert!(b.take_released().is_empty());
    assert_ok(&answer(send(&mut b, 1, MsgType::DeleteWriter, 11, &delete)), 11);
    assert_eq!(b.take_released(), vec![30]);
    let msg = answer(send(&mut b, 1, MsgType::DeleteWriter, 12, &delete));
    assert_error(&msg, 12, ErrorCode::WriterNotFound, "writer not found: 1");
}

#[test]
fn a_write_by_topic_creates_its_writer_once() {
    let mut b = bridge();
    let first = send(&mut b, 1, MsgType::Write, 3, &topic_write("t", &[5]));
    match run(&mut b, first, 10, 30) {
        Outcome::Perform(op) => {
            assert_eq!((op.request_id, op.writer, op.op), (3, 30, WriteOp::Write));
            assert_eq!(op.sample.data, vec![5]);
        }
        _ => panic!("expected an operation"),
    }
    match send(&mut b, 1, MsgType::Dispose, 4, &topic_write("t", &[6])) {
        Outcome::Perform(op) => assert_eq!((op.writer, op.op), (30, WriteOp::Dispose)),
        _ => panic!("expected the writer to be used again"),
    }
    assert!(matches!(
        send(&mut b, 2, MsgType::Write, 5, &topic_write("t", &[5])),
        Outcome::CreateWriter(_, _, _)
    ));
}

#[test]
fn key_descriptors_reach_the_type() {
    let mut b = bridge();
    let keys = vec![KeyField { offset: 4, size: 4, type_hint: KeyTypeHint::Int32 }];
    let write = serialize_write_mode(&WriteMode::TopicName {
        topic_name: "t".to_string(),
        typename: "T".to_string(),
        qos: QosSet::default(),
        key_descriptors: KeyDescriptors { keys: keys.clone() },
        data: vec![1],
    });
    match send(&mut b, 1, MsgType::Write, 3, &write) {
        Outcome::CreateTopic(topic, _) => {
            assert_eq!(topic.sertype.key_fields, keys);
            assert!(!topic.sertype.no_key);
        }
        _ => panic!("expected a topic to be asked for"),
    }
}

#[test]
fn samples_reach_the_subscribers_alone() {
    let mut b = bridge();
    for session in [1, 2, 3] {
        b.register_session(session);
    }
    subscribe(&mut b, 1, "t", 20);
    subscribe(&mut b, 2, "t", 20);
    subscribe(&mut b, 3, "u", 21);
    b.deliver(1, &vec![alive(&[1]), alive(&[2])]);
    for session in [1, 2] {
        for byte in [1, 2] {
            let msg = b.next_outbound(session).unwrap();
            assert_eq!(header_of(&msg).msg_type, MsgType::Data);
            assert_eq!(header_of(&msg).request_id, 0);
            let data = parse_data(&msg[HEADER_SIZE..]).unwrap();
            assert_eq!((data.topic_name.as_str(), data.source_timestamp), ("t", 77));
            assert_eq!(data.data, vec![byte]);
        }
        assert!(b.next_outbound(session).is_none());
    }
    assert!(b.next_outbound(3).is_none());
    b.deliver(9, &vec![alive(&[1])]);
    assert!(b.next_outbound(1).is_none());
}

#[test]
fn a_round_brings_the_samples_reader_by_reader() {
    let mut b = bridge();
    b.register_session(1);
    b.register_session(2);
    subscribe(&mut b, 1, "t", 20);
    subscribe(&mut b, 1, "u", 21);
    subscribe(&mut b, 2, "u", 21);
    b.deliver_round(&vec![(2, vec![alive(&[1])]), (1, vec![alive(&[2])]), (9, vec![alive(&[3])])]);
    let data = |msg: Vec<u8>| parse_data(&msg[HEADER_SIZE..]).unwrap();
    let first = data(b.next_outbound(1).unwrap());
    assert_eq!((first.topic_name.as_str(), first.data), ("u", vec![1]));
    let second = data(b.next_outbound(1).unwrap());
    assert_eq!((second.topic_name.as_str(), second.data), ("t", vec![2]));
    assert!(b.next_outbound(1).is_none());
    assert_eq!(data(b.next_outbound(2).unwrap()).data, vec![1]);
    assert!(b.next_outbound(2).is_none());
}

#[test]
fn an_ended_subscription_brings_no_more_samples() {
    let mut b = bridge();
    b.register_session(1);
    b.register_session(2);
    subscribe(&mut b, 1, "t", 20);
    subscribe(&mut b, 2, "t", 20);
    let end = serialize_unsubscribe(&UnsubscribePayload {
        topic_name: "t".to_string(),
        typename: "T".to_string(),
    });
    assert_ok(&answer(send(&mut b, 1, MsgType::Unsubscribe, 4, &end)), 4);
    b.deliver(1, &vec![alive(&[1])]);
    assert!(b.next_outbound(1).is_none());
    assert!(b.next_outbound(2).is_some());
    let msg = answer(send(&mut b, 1, MsgType::Unsubscribe, 5, &end));
    assert_error(&msg, 5, ErrorCode::ReaderNotFound, "no subscription for topic='t' type='T'");
    assert_ok(&answer(send(&mut b, 2, MsgType::Unsubscribe, 6, &end)), 6);
    assert_eq!(b.take_released(), vec![20]);
}

#[test]
fn a_session_that_ends_leaves_nothing() {
    let mut b = bridge();
    b.register_session(1);
    b.register_session(2);
    subscribe(&mut b, 1, "t", 20);
    create_writer(&mut b, 1, "t", 30);
    let kept = create_writer(&mut b, 2, "t", 31);
    b.unregister_session(1);
    assert!(b.reader_ids().is_empty());
    assert_eq!(b.take_released(), vec![30, 20]);
    assert!(b.next_outbound(1).is_none());
    assert!(matches!(
        send(&mut b, 2, MsgType::Write, 9, &id_write(kept, &[], &[2])),
        Outcome::Perform(_)
    ));
}

#[test]
fn a_slow_session_loses_the_oldest_messages() {
    let mut b = small_bridge(2);
    b.register_session(1);
    subscribe(&mut b, 1, "t", 20);
    b.deliver(1, &vec![alive(&[1]), alive(&[2]), alive(&[3]), alive(&[4])]);
    let notice = b.next_outbound(1).unwrap();
    assert_error(&notice, 0, ErrorCode::BufferOverflow, "dropped 2 messages for topic 't'");
    for byte in [3, 4] {
        let msg = b.next_outbound(1).unwrap();
        assert_eq!(parse_data(&msg[HEADER_SIZE..]).unwrap().data, vec![byte]);
    }
    assert!(b.next_outbound(1).is_none());
}

#[test]
fn buffers_count_what_they_drop_by_topic() {
    let mut buffer = SessionBuffer::new(1);
    let message = |topic: &str, byte: u8| OutboundMessage {
        topic_name: topic.to_string(),
        data: vec![byte],
    };
    assert!(buffer.pop().is_none());
    buffer.push(message("a", 1));
    buffer.push(message("b", 2));
    buffer.push(message("a", 3));
    buffer.push(message("c", 4));
    let first = buffer.pop().unwrap();
    assert_error(&first, 0, ErrorCode::BufferOverflow, "dropped 2 messages for topic 'a'");
    let second = buffer.pop().unwrap();
    assert_error(&second, 0, ErrorCode::BufferOverflow, "dropped 1 messages for topic 'b'");
    assert_eq!(buffer.pop(), Some(vec![4]));
    assert!(buffer.pop().is_none());
}

#[test]
fn samples_are_sent_by_their_state() {
    let sample = |instance_state: InstanceState, source_timestamp: i64| ReceivedSample {
        topic_name: "t".to_string(),
        instance_state,
        source_timestamp,
        data: vec![9],
    };
    let msg = sample_to_message(&sample(InstanceState::Disposed, -1));
    assert_eq!(header_of(&msg).msg_type, MsgType::DataDisposed);
    let disposed = parse_data_disposed(&msg[HEADER_SIZE..]).unwrap();
    assert_eq!(disposed.source_timestamp, u64::MAX);
    assert_eq!(disposed.key_data, vec![9]);
    let msg = sample_to_message(&sample(InstanceState::NoWriters, 5));
    assert_eq!(header_of(&msg).msg_type, MsgType::DataNoWriters);
    let gone = parse_data_no_writers(&msg[HEADER_SIZE..]).unwrap();
    assert_eq!((gone.topic_name.as_str(), gone.key_data), ("t", vec![9]));
}

#[test]
fn ordinary_samples_fit() {
    assert!(sample_fits("t", &alive(&[1, 2, 3])));
    assert!(sample_fits("", &alive(&[])));
}

#[test]
fn an_unknown_type_changes_nothing() {
    let mut b = bridge();
    let data = [0x44, 0x42, 0x01, 0xFF, 7, 0, 0, 0, 0, 0, 0, 0];
    let msg = answer(process_binary_frame(&mut b, 1, &data, MAX));
    assert_error(&msg, 7, ErrorCode::InvalidMessage, "invalid msg_type: 0xff");
    assert!(b.reader_ids().is_empty());
    assert!(b.take_released().is_empty());
}

#[test]
fn long_error_texts_are_sent_too() {
    let text = "x".repeat(2 * 1024 * 1024);
    let msg = make_error_response(3, ErrorCode::DdsError, &text).unwrap();
    assert_eq!(header_of(&msg).payload_length as usize, 6 + text.len());
    assert_error(
        &make_error_response(3, ErrorCode::InternalError, "why").unwrap(),
        3,
        ErrorCode::InternalError,
        "why",
    );
}

#[test]
fn only_the_end_of_the_connection_ends_a_session() {
    let mut b = bridge();
    b.register_session(1);
    subscribe(&mut b, 1, "t", 20);
    let frames: [&[u8]; 4] = [
        &[],
        &[0xFF; 40],
        &[0x44, 0x42, 0x01, 0xFF, 7, 0, 0, 0, 0, 0, 0, 0],
        &build_message(MsgType::Ping, 3, &[]),
    ];
    for frame in frames {
        match session_event(&mut b, 1, SessionEvent::Binary(frame), MAX) {
            SessionStep::Answer(outcome) => assert!(header_of(&answer(outcome)).payload_length < 100),
            _ => panic!("expected an answer"),
        }
        assert!(matches!(session_event(&mut b, 1, SessionEvent::Other, MAX), SessionStep::Ignore));
    }
    assert_eq!(b.reader_ids(), vec![1]);
    b.deliver(1, &vec![alive(&[1])]);
    assert!(b.next_outbound(1).is_some());
}

#[test]
fn a_session_is_cleaned_up_when_it_ends() {
    let ends = [
        SessionEvent::Close,
        SessionEvent::ReadError,
        SessionEvent::EndOfStream,
        SessionEvent::Silence,
    ];
    for end in ends {
        let mut b = bridge();
        b.register_session(1);
        b.register_session(2);
        subscribe(&mut b, 1, "t", 20);
        subscribe(&mut b, 2, "u", 21);
        assert!(matches!(session_event(&mut b, 1, end, MAX), SessionStep::Finish));
        assert_eq!(b.take_released(), vec![20]);
        assert_eq!(b.reader_ids(), vec![2]);
        b.deliver(2, &vec![alive(&[1])]);
        assert!(b.next_outbound(2).is_some());
    }
}
