//! Clients that publish and subscribe, over a DDS layer that hands what is
//! written to the readers of the same topic.
use std::collections::HashMap;

use cyclone_dds_ws_bridge::bridge::{
    create_bridge, execute_write_op, next_session_id, BridgeInner, OpRequest, Outcome,
    FIRST_SESSION_ID,
};
use cyclone_dds_ws_bridge::config::Config;
use cyclone_dds_ws_bridge::dds::reader::TakenSample;
use cyclone_dds_ws_bridge::dds::sertype::OpaqueSerdata;
use cyclone_dds_ws_bridge::dds::WriteOp;
use cyclone_dds_ws_bridge::protocol::{
    build_message, parse_data, parse_data_disposed, parse_error, parse_header,
    serialize_create_writer, serialize_delete_writer, serialize_dispose, serialize_subscribe,
    serialize_unsubscribe, serialize_write, CreateWriterPayload, DataDisposedPayload, DataPayload,
    DeleteWriterPayload, DisposePayload, ErrorCode, KeyDescriptors, MsgType, SubscribePayload,
    UnsubscribePayload, WriteMode, WritePayload, HEADER_SIZE,
};
use cyclone_dds_ws_bridge::qos::QosSet;
use cyclone_dds_ws_bridge::ws::session::process_binary_frame;

struct TestBridge {
    inner: BridgeInner,
    sessions: u64,
    next_handle: i32,
    /// The topic of each writer, by their handles.
    writers: HashMap<i32, i32>,
}

struct Client {
    session_id: u64,
    next_request_id: u32,
}

impl TestBridge {
    fn start() -> Self {
        TestBridge {
            inner: create_bridge(Config::default(), 1).ok().unwrap(),
            sessions: FIRST_SESSION_ID,
            next_handle: 2,
            writers: HashMap::new(),
        }
    }

    fn connect(&mut self) -> Client {
        let session_id = next_session_id(&mut self.sessions);
        self.inner.register_session(session_id);
        Client { session_id, next_request_id: 1 }
    }

    fn new_handle(&mut self) -> i32 {
        self.next_handle += 1;
        self.next_handle
    }

    /// Writes a sample to the readers on the topic of the writer.
    fn perform(&mut self, request: &OpRequest) -> i32 {
        let written = OpaqueSerdata::from_sample(&request.sample);
        let sent = written.to_ser(0, written.size() as usize);
        let topic = self.writers[&request.writer];
        for reader_id in self.inner.reader_ids() {
            if self.inner.reader(reader_id).unwrap().topic.handle != topic {
                continue;
            }
            let received = OpaqueSerdata::from_ser(sent.clone());
            let taken = TakenSample {
                instance_state: if request.op == WriteOp::Write { 1 } else { 2 },
                valid_data: request.op != WriteOp::Dispose,
                source_timestamp: 1,
                data: received.to_sample().data,
            };
            self.inner.deliver(reader_id, &vec![taken]);
        }
        0
    }

    /// Answers a frame.
    fn frame(&mut self, session_id: u64, data: &[u8]) -> Vec<u8> {
        let mut outcome = process_binary_frame(&mut self.inner, session_id, data, 4 * 1024 * 1024);
        loop {
            outcome = match outcome {
                Outcome::Done(reply) => return reply.unwrap(),
                Outcome::CreateTopic(_, pending) => {
                    let handle = self.new_handle();
                    self.inner.topic_created(pending, handle)
                }
                Outcome::CreateReader(_, pending, topic) => {
                    let handle = self.new_handle();
                    self.inner.reader_created(pending, topic, handle)
                }
                Outcome::CreateWriter(request, pending, topic) => {
                    let handle = self.new_handle();
                    self.writers.insert(handle, request.topic);
                    self.inner.writer_created(pending, topic, handle)
                }
                Outcome::Perform(request) => {
                    let rc = self.perform(&request);
                    return execute_write_op(request.request_id, request.op, rc).unwrap();
                }
            };
        }
    }
}

impl Client {
    /// Sends a request; the answer is to have its request id.
    fn request(
        &mut self,
        bridge: &mut TestBridge,
        msg_type: MsgType,
        payload: &[u8],
    ) -> (MsgType, Vec<u8>) {
        let rid = self.next_request_id;
        self.next_request_id += 1;
        let reply = bridge.frame(self.session_id, &build_message(msg_type, rid, payload));
        let header = parse_header(&reply).unwrap();
        assert_eq!(header.request_id, rid);
        (header.msg_type, reply[HEADER_SIZE..].to_vec())
    }

    /// The next unsolicited message of a kind.
    fn recv(&mut self, bridge: &mut TestBridge, msg_type: MsgType) -> Vec<u8> {
        let msg = bridge.inner.next_outbound(self.session_id).expect("no message");
        let header = parse_header(&msg).unwrap();
        assert_eq!(header.msg_type, msg_type);
        assert_eq!(header.request_id, 0);
        msg[HEADER_SIZE..].to_vec()
    }

    fn recv_data(&mut self, bridge: &mut TestBridge) -> DataPayload {
        parse_data(&self.recv(bridge, MsgType::Data)).unwrap()
    }

    fn recv_data_disposed(&mut self, bridge: &mut TestBridge) -> DataDisposedPayload {
        parse_data_disposed(&self.recv(bridge, MsgType::DataDisposed)).unwrap()
    }

    fn subscribe(&mut self, bridge: &mut TestBridge, topic: &str, typename: &str) {
        let payload = serialize_subscribe(&SubscribePayload {
            is_keyed: true,
            topic_name: topic.into(),
            typename: typename.into(),
            qos: QosSet::default(),
            key_descriptors: KeyDescriptors { keys: vec![] },
        });
        let (msg_type, _) = self.request(bridge, MsgType::Subscribe, &payload);
        assert_eq!(msg_type, MsgType::Okay, "subscribe failed");
    }

    fn unsubscribe(&mut self, bridge: &mut TestBridge, topic: &str, typename: &str) {
        let payload = serialize_unsubscribe(&UnsubscribePayload {
            topic_name: topic.into(),
            typename: typename.into(),
        });
        let (msg_type, _) = self.request(bridge, MsgType::Unsubscribe, &payload);
        assert_eq!(msg_type, MsgType::Okay, "unsubscribe failed");
    }

    fn write_topic_mode(
        &mut self,
        bridge: &mut TestBridge,
        topic: &str,
        typename: &str,
        data: &[u8],
    ) {
        let payload = serialize_write(&WritePayload(WriteMode::TopicName {
            topic_name: topic.into(),
            typename: typename.into(),
            qos: QosSet::default(),
            key_descriptors: KeyDescriptors { keys: vec![] },
            data: data.to_vec(),
        }));
        let (msg_type, _) = self.request(bridge, MsgType::Write, &payload);
        assert_eq!(msg_type, MsgType::Okay, "write failed");
    }

    fn dispose_topic_mode(
        &mut self,
        bridge: &mut TestBridge,
        topic: &str,
        typename: &str,
        key_data: &[u8],
    ) {
        let payload = serialize_dispose(&DisposePayload(WriteMode::TopicName {
            topic_name: topic.into(),
            typename: typename.into(),
            qos: QosSet::default(),
            key_descriptors: KeyDescriptors { keys: vec![] },
            data: key_data.to_vec(),
        }));
        let (msg_type, _) = self.request(bridge, MsgType::Dispose, &payload);
        assert_eq!(msg_type, MsgType::Okay, "dispose failed");
    }

    fn create_writer(&mut self, bridge: &mut TestBridge, topic: &str, typename: &str) -> u32 {
        let payload = serialize_create_writer(&CreateWriterPayload {
            is_keyed: true,
            topic_name: topic.into(),
            typename: typename.into(),
            qos: QosSet::default(),
            key_descriptors: KeyDescriptors { keys: vec![] },
        });
        let (msg_type, resp) = self.request(bridge, MsgType::CreateWriter, &payload);
        assert_eq!(msg_type, MsgType::Okay, "create_writer failed");
        u32::from_le_bytes(resp[0..4].try_into().unwrap())
    }

    fn delete_writer(&mut self, bridge: &mut TestBridge, writer_id: u32) {
        let payload = serialize_delete_writer(&DeleteWriterPayload { writer_id });
        let (msg_type, _) = self.request(bridge, MsgType::DeleteWriter, &payload);
        assert_eq!(msg_type, MsgType::Okay, "delete_writer failed");
    }

    fn write_writer_id(&mut self, bridge: &mut TestBridge, writer_id: u32, data: &[u8]) {
        let payload = serialize_write(&WritePayload(WriteMode::WriterId {
            writer_id,
            key_bytes: vec![],
            data: data.to_vec(),
        }));
        let (msg_type, _) = self.request(bridge, MsgType::Write, &payload);
        assert_eq!(msg_type, MsgType::Okay, "write (writer_id) failed");
    }
}

#[test]
fn test_ping_pong() {
    let mut bridge = TestBridge::start();
    let mut client = bridge.connect();
    let (msg_type, _) = client.request(&mut bridge, MsgType::Ping, &[]);
    assert_eq!(msg_type, MsgType::Pong);
}

#[test]
fn test_write_subscribe_data_round_trip() {
    let mut bridge = TestBridge::start();
    let mut client = bridge.connect();
    let topic = "IntegPubSub";
    let typename = "test::Opaque";

    client.subscribe(&mut bridge, topic, typename);

    let test_data = vec![0x00, 0x01, 0x00, 0x00, 0xAA, 0xBB, 0xCC, 0xDD];
    client.write_topic_mode(&mut bridge, topic, typename, &test_data);

    let data = client.recv_data(&mut bridge);
    assert_eq!(data.topic_name, topic);
    assert_eq!(data.data, test_data);
}

#[test]
fn test_dispose_propagation() {
    let mut bridge = TestBridge::start();
    let mut client = bridge.connect();
    let topic = "IntegDispose";
    let typename = "test::Opaque";

    client.subscribe(&mut bridge, topic, typename);

    // Write first
    let test_data = vec![0x00, 0x01, 0x00, 0x00, 0x01, 0x02, 0x03, 0x04];
    client.write_topic_mode(&mut bridge, topic, typename, &test_data);
    let _ = client.recv_data(&mut bridge);

    // Dispose
    let key_data = vec![0x00, 0x01, 0x00, 0x00, 0x01, 0x02, 0x03, 0x04];
    client.dispose_topic_mode(&mut bridge, topic, typename, &key_data);
    let disposed = client.recv_data_disposed(&mut bridge);
    assert_eq!(disposed.topic_name, topic);
}

#[test]
fn test_multiple_clients_fan_out() {
    let mut bridge = TestBridge::start();
    let topic = "IntegFanOut";
    let typename = "test::Opaque";

    let mut sub1 = bridge.connect();
    let mut sub2 = bridge.connect();
    let mut writer = bridge.connect();

    sub1.subscribe(&mut bridge, topic, typename);
    sub2.subscribe(&mut bridge, topic, typename);

    let test_data = vec![0x00, 0x01, 0x00, 0x00, 0xFA, 0xCE];
    writer.write_topic_mode(&mut bridge, topic, typename, &test_data);

    let d1 = sub1.recv_data(&mut bridge);
    let d2 = sub2.recv_data(&mut bridge);
    assert_eq!(d1.data, test_data);
    assert_eq!(d2.data, test_data);
}

#[test]
fn test_writer_id_mode() {
    let mut bridge = TestBridge::start();
    let mut client = bridge.connect();
    let topic = "IntegWriterId";
    let typename = "test::Opaque";

    client.subscribe(&mut bridge, topic, typename);
    let writer_id = client.create_writer(&mut bridge, topic, typename);

    let test_data = vec![0x00, 0x01, 0x00, 0x00, 0x11, 0x22];
    client.write_writer_id(&mut bridge, writer_id, &test_data);

    let data = client.recv_data(&mut bridge);
    assert_eq!(data.data, test_data);

    client.delete_writer(&mut bridge, writer_id);
}

#[test]
fn test_writer_ownership_violation() {
    let mut bridge = TestBridge::start();
    let mut client_a = bridge.connect();
    let mut client_b = bridge.connect();
    let topic = "IntegOwnership";
    let typename = "test::Opaque";

    let writer_id = client_a.create_writer(&mut bridge, topic, typename);

    // Client B tries to use client A's writer
    let payload = serialize_write(&WritePayload(WriteMode::WriterId {
        writer_id,
        key_bytes: vec![],
        data: vec![0x00, 0x01, 0x00, 0x00, 0xFF],
    }));
    let (msg_type, resp) = client_b.request(&mut bridge, MsgType::Write, &payload);
    assert_eq!(msg_type, MsgType::Error, "should reject cross-session writer use");
    let err = parse_error(&resp).unwrap();
    assert_eq!(err.error_code, ErrorCode::WriterNotFound);

    // Client B tries to delete client A's writer
    let dw_payload = serialize_delete_writer(&DeleteWriterPayload { writer_id });
    let (msg_type, _) = client_b.request(&mut bridge, MsgType::DeleteWriter, &dw_payload);
    assert_eq!(msg_type, MsgType::Error, "should reject cross-session delete");
}

#[test]
fn test_unsubscribe_stops_delivery() {
    let mut bridge = TestBridge::start();
    let topic = "IntegUnsub";
    let typename = "test::Opaque";

    let mut sub1 = bridge.connect();
    let mut sub2 = bridge.connect();
    let mut writer = bridge.connect();

    sub1.subscribe(&mut bridge, topic, typename);
    sub2.subscribe(&mut bridge, topic, typename);

    // Both receive first message
    let data1 = vec![0x00, 0x01, 0x00, 0x00, 0x01];
    writer.write_topic_mode(&mut bridge, topic, typename, &data1);
    let _ = sub1.recv_data(&mut bridge);
    let _ = sub2.recv_data(&mut bridge);

    // sub1 unsubscribes
    sub1.unsubscribe(&mut bridge, topic, typename);

    // Only sub2 should receive
    let data2 = vec![0x00, 0x01, 0x00, 0x00, 0x02];
    writer.write_topic_mode(&mut bridge, topic, typename, &data2);
    let received = sub2.recv_data(&mut bridge);
    assert_eq!(received.data, data2);

    let next = bridge.inner.next_outbound(sub1.session_id);
    assert!(next.is_none(), "sub1 should not receive data after unsubscribe");
}

#[test]
fn test_invalid_message_returns_error() {
    let mut bridge = TestBridge::start();
    let client = bridge.connect();

    // Send a message with bad magic
    let mut bad_msg = build_message(MsgType::Ping, 1, &[]);
    bad_msg[0] = 0xFF;
    let data = bridge.frame(client.session_id, &bad_msg);
    let header = parse_header(&data).unwrap();
    assert_eq!(header.msg_type, MsgType::Error);
}

#[test]
fn test_request_id_zero_rejected() {
    let mut bridge = TestBridge::start();
    let client = bridge.connect();

    // Send a message with request_id=0 (reserved)
    let msg = build_message(MsgType::Ping, 0, &[]);
    let data = bridge.frame(client.session_id, &msg);
    let header = parse_header(&data).unwrap();
    assert_eq!(header.msg_type, MsgType::Error);
}
