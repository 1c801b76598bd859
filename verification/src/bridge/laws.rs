//! What holds of the bridge across requests.
use vstd::prelude::*;

use crate::bridge::buffer::{BufferView, OutboundView};
use crate::bridge::reply::{error_reply, ok_message};
use crate::bridge::request::{JobView, OpRequestView, OutcomeView, PendingView};
use crate::bridge::state::{
    new_bridge, no_subscription_text, outbound_of, performed_reply, writer_error_code, BridgeView,
    FIRST_SESSION_ID,
};
use crate::bridge::texts::{
    lemma_dds_message, lemma_delete_writer_modest, lemma_endpoint_modest, lemma_modest_message,
    lemma_text_fits, lemma_unsubscribe_modest, lemma_utf8_length, lemma_write_mode_modest,
};
use crate::config::ConfigView;
use crate::dds::error::DdsErrorView;
use crate::dds::laws::{
    law_delete, law_find_by_topic, law_readers_of_ended_session, law_register,
    law_registered_writer_is_found, law_subscribe, law_unsubscribe, law_writers_of_ended_session,
    readers_consistent, writers_consistent,
};
use crate::dds::participant::{
    name_error, spec_get_or_create_topic, ParticipantView, TopicEntityView,
};
use crate::dds::reader::{forwarding, next_id, ReaderRegistryView, TakenSample};
use crate::dds::writer::{WriteOp, WriterRegistryView, WriterView};
use crate::protocol::codec::string_fits;
use crate::protocol::error::ProtocolErrorView;
use crate::protocol::header::{law_built_message, message_bytes, spec_parse_header, MsgType};
use crate::protocol::laws::{law_write_mode_round_trip, write_mode_valid};
use crate::protocol::payload::{
    error_bytes, spec_parse_delete_writer, spec_parse_endpoint, spec_parse_unsubscribe,
    spec_parse_write_mode, write_mode_bytes, ErrorCode, ErrorPayloadView, WriteModeView,
};
use crate::qos::laws::law_normalized_same_reflexive;
use crate::qos::policy::normal_form;
use crate::wire::le32_bytes;

verus! {

// ---------------------------------------------------------------------------
// Answers
// ---------------------------------------------------------------------------

/// Whether a message is an answer to the request with the given id: an OK, an
/// ERROR or a PONG that echoes the id.
pub open spec fn answers(request_id: u32, msg: Seq<u8>) -> bool {
    spec_parse_header(msg) matches Ok(h) && h.request_id == request_id && (h.msg_type
        == MsgType::Okay || h.msg_type == MsgType::Error || h.msg_type == MsgType::Pong)
}

/// Whether an outcome is about the request with the given id, of the given
/// session: an answer to it, or something to do for it.
pub open spec fn is_about(outcome: OutcomeView, session_id: u64, request_id: u32) -> bool {
    match outcome {
        OutcomeView::Done(Some(msg)) => answers(request_id, msg),
        OutcomeView::Done(None) => false,
        OutcomeView::CreateTopic(_, p) => p.session_id == session_id && p.request_id == request_id,
        OutcomeView::CreateReader(_, p, _) => p.session_id == session_id && p.request_id
            == request_id,
        OutcomeView::CreateWriter(_, p, _) => p.session_id == session_id && p.request_id
            == request_id,
        OutcomeView::Perform(op) => op.request_id == request_id,
    }
}

proof fn lemma_dds_error_answers(request_id: u32, code: ErrorCode, e: DdsErrorView)
    requires
        e matches DdsErrorView::InvalidName(name) ==> string_fits(name),
    ensures
        error_reply(request_id, code, e.message()) matches Some(msg) && answers(request_id, msg),
{
    lemma_dds_message(e);
    lemma_error_answers(request_id, code, e.message());
}

proof fn lemma_ok_answers(request_id: u32, payload: Seq<u8>)
    ensures
        answers(request_id, ok_message(request_id, payload)),
{
    law_built_message(MsgType::Okay, request_id, payload);
}

proof fn lemma_error_answers(request_id: u32, code: ErrorCode, text: Seq<char>)
    requires
        text.len() <= 4_000_000,
    ensures
        error_reply(request_id, code, text) matches Some(msg) && answers(request_id, msg),
{
    lemma_text_fits(text);
    law_built_message(
        MsgType::Error,
        request_id,
        error_bytes(ErrorPayloadView { error_code: code, error_message: text }),
    );
}

/// A subscription that has its reader, or the error that kept it from one, is
/// answered under the id of its request.
pub proof fn law_on_reader_answers(
    b: BridgeView,
    p: PendingView,
    topic: TopicEntityView,
    created: i32,
)
    ensures
        is_about(b.on_reader(p, topic, created).0, p.session_id, p.request_id),
{
    lemma_ok_answers(p.request_id, seq![]);
    match b.readers.subscribe(topic, p.job.qos(), p.session_id, created).0 {
        Err(e) => lemma_dds_error_answers(p.request_id, ErrorCode::DdsError, e),
        Ok(_) => {},
    }
}

/// A job that has its writer, or the error that kept it from one, is answered
/// or goes on under the id of its request.
pub proof fn law_on_writer_answers(
    b: BridgeView,
    p: PendingView,
    topic: TopicEntityView,
    created: i32,
)
    ensures
        is_about(b.on_writer(p, topic, created).0, p.session_id, p.request_id),
{
    lemma_ok_answers(p.request_id, le32_bytes(b.next_writer_id as int));
    lemma_dds_error_answers(
        p.request_id,
        ErrorCode::DdsError,
        DdsErrorView::CreateWriter(created),
    );
    reveal_strlit("writer disappeared after creation");
    lemma_error_answers(
        p.request_id,
        ErrorCode::InternalError,
        "writer disappeared after creation"@,
    );
}

/// A job that has its topic, or the error that kept it from one, is answered or
/// goes on under the id of its request.
pub proof fn law_topic_created_answers(b: BridgeView, p: PendingView, created: i32)
    requires
        string_fits(p.job.topic_name()),
        string_fits(p.job.typename()),
    ensures
        is_about(b.topic_created(p, created).0, p.session_id, p.request_id),
        is_about(b.with_topic(p).0, p.session_id, p.request_id),
{
    let (r, participant) = spec_get_or_create_topic(
        b.participant,
        p.job.topic_name(),
        p.job.typename(),
        p.job.key_descriptors(),
        created,
    );
    let after = BridgeView { participant, ..b };
    match r {
        Err(e) => lemma_dds_error_answers(p.request_id, ErrorCode::DdsError, e),
        Ok(topic) => {
            law_on_reader_answers(after, p, topic, 0);
        },
    }
    let key = (p.job.topic_name(), p.job.typename());
    if b.participant.topics.contains_key(key) {
        law_on_reader_answers(b, p, b.participant.topics[key], 0);
    } else {
        match name_error(p.job.topic_name(), p.job.typename()) {
            Some(e) => lemma_dds_error_answers(p.request_id, ErrorCode::DdsError, e),
            None => {},
        }
    }
}

/// The answer to an operation that was carried out echoes the id of its
/// request.
pub proof fn law_performed_answers(request_id: u32, op: WriteOp, rc: i32)
    ensures
        performed_reply(request_id, op, rc) matches Some(msg) && answers(request_id, msg),
        rc >= 0 ==> performed_reply(request_id, op, rc) == Some(ok_message(request_id, seq![])),
{
    lemma_ok_answers(request_id, seq![]);
    match op.spec_outcome(rc) {
        Err(e) => lemma_dds_error_answers(request_id, ErrorCode::DdsError, e),
        Ok(_) => {},
    }
}

/// What is wrong with the payload of a request.
pub open spec fn payload_error(msg_type: MsgType, payload: Seq<u8>) -> Option<ProtocolErrorView> {
    match msg_type {
        MsgType::Subscribe | MsgType::CreateWriter => match spec_parse_endpoint(payload) {
            Err(e) => Some(e),
            Ok(_) => None,
        },
        MsgType::Unsubscribe => match spec_parse_unsubscribe(payload) {
            Err(e) => Some(e),
            Ok(_) => None,
        },
        MsgType::Write | MsgType::Dispose | MsgType::WriteDispose => match spec_parse_write_mode(
            payload,
        ) {
            Err(e) => Some(e),
            Ok(_) => None,
        },
        MsgType::DeleteWriter => match spec_parse_delete_writer(payload) {
            Err(e) => Some(e),
            Ok(_) => None,
        },
        _ => None,
    }
}

/// A request whose payload cannot be read is answered with INVALID_MESSAGE and
/// the reason, and changes nothing.
pub proof fn law_malformed_request_changes_nothing(
    b: BridgeView,
    session_id: u64,
    msg_type: MsgType,
    request_id: u32,
    payload: Seq<u8>,
)
    ensures
        payload_error(msg_type, payload) matches Some(e) ==> b.handle(
            session_id,
            msg_type,
            request_id,
            payload,
        ) == (
            OutcomeView::Done(
                error_reply(request_id, ErrorCode::InvalidMessage, e.message()),
            ),
            b,
        ),
{
}

proof fn lemma_write_answers(
    b: BridgeView,
    session_id: u64,
    request_id: u32,
    mode: WriteModeView,
    op: WriteOp,
)
    requires
        mode matches WriteModeView::TopicName { topic_name, typename, .. } ==> string_fits(
            topic_name,
        ) && string_fits(typename),
    ensures
        is_about(b.write(session_id, request_id, mode, op).0, session_id, request_id),
{
    match mode {
        WriteModeView::TopicName { topic_name, typename, qos, key_descriptors, data } => {
            let p = PendingView {
                session_id,
                request_id,
                job: JobView::Write { op, topic_name, typename, qos, key_descriptors, data },
            };
            law_topic_created_answers(b, p, 0);
        },
        WriteModeView::WriterId { writer_id, .. } => {
            match b.writers.get(writer_id, session_id) {
                Err(e) => lemma_dds_error_answers(
                    request_id,
                    writer_error_code(e),
                    e,
                ),
                Ok(_) => {},
            }
        },
    }
}

/// Every request is answered under its own id, or leads to something that is
/// done for it and then answered under that id. Where a string is not UTF-8,
/// what is said of it has to fit into the answer.
pub proof fn law_requests_are_answered(
    b: BridgeView,
    session_id: u64,
    msg_type: MsgType,
    request_id: u32,
    payload: Seq<u8>,
)
    requires
        payload.len() <= usize::MAX,
    ensures
        (payload_error(msg_type, payload) matches Some(ProtocolErrorView::InvalidUtf8(text))
            ==> text.len() <= 3_000_000) ==> is_about(
            b.handle(session_id, msg_type, request_id, payload).0,
            session_id,
            request_id,
        ),
{
    lemma_endpoint_modest(payload);
    lemma_unsubscribe_modest(payload);
    lemma_write_mode_modest(payload);
    lemma_delete_writer_modest(payload);
    match payload_error(msg_type, payload) {
        Some(e) => {
            law_malformed_request_changes_nothing(b, session_id, msg_type, request_id, payload);
            match e {
                ProtocolErrorView::InvalidUtf8(text) => {
                    reveal_strlit("invalid UTF-8: ");
                    if text.len() <= 3_000_000 {
                        lemma_error_answers(request_id, ErrorCode::InvalidMessage, e.message());
                    }
                },
                _ => {
                    lemma_modest_message(e);
                    lemma_error_answers(request_id, ErrorCode::InvalidMessage, e.message());
                },
            }
        },
        None => lemma_readable_request_answered(b, session_id, msg_type, request_id, payload),
    }
}

proof fn lemma_readable_request_answered(
    b: BridgeView,
    session_id: u64,
    msg_type: MsgType,
    request_id: u32,
    payload: Seq<u8>,
)
    requires
        payload.len() <= usize::MAX,
        payload_error(msg_type, payload) is None,
    ensures
        is_about(
            b.handle(session_id, msg_type, request_id, payload).0,
            session_id,
            request_id,
        ),
{
    lemma_ok_answers(request_id, seq![]);
    law_built_message(MsgType::Pong, request_id, seq![]);
    match msg_type {
        MsgType::Subscribe => {
            lemma_endpoint_modest(payload);
            let p = spec_parse_endpoint(payload)->Ok_0;
            law_topic_created_answers(
                b,
                PendingView { session_id, request_id, job: JobView::Subscribe(p) },
                0,
            );
        },
        MsgType::CreateWriter => {
            lemma_endpoint_modest(payload);
            let p = spec_parse_endpoint(payload)->Ok_0;
            law_topic_created_answers(
                b,
                PendingView { session_id, request_id, job: JobView::CreateWriter(p) },
                0,
            );
        },
        MsgType::Unsubscribe => {
            lemma_unsubscribe_modest(payload);
            let p = spec_parse_unsubscribe(payload)->Ok_0;
            lemma_utf8_length(p.topic_name);
            lemma_utf8_length(p.typename);
            reveal_strlit("no subscription for topic='");
            reveal_strlit("' type='");
            reveal_strlit("'");
            lemma_error_answers(
                request_id,
                ErrorCode::ReaderNotFound,
                no_subscription_text(p.topic_name, p.typename),
            );
        },
        MsgType::Write => {
            lemma_write_mode_modest(payload);
            let mode = spec_parse_write_mode(payload)->Ok_0;
            lemma_write_answers(b, session_id, request_id, mode, WriteOp::Write);
        },
        MsgType::Dispose => {
            lemma_write_mode_modest(payload);
            let mode = spec_parse_write_mode(payload)->Ok_0;
            lemma_write_answers(b, session_id, request_id, mode, WriteOp::Dispose);
        },
        MsgType::WriteDispose => {
            lemma_write_mode_modest(payload);
            let mode = spec_parse_write_mode(payload)->Ok_0;
            lemma_write_answers(b, session_id, request_id, mode, WriteOp::WriteDispose);
        },
        MsgType::DeleteWriter => {
            let id = spec_parse_delete_writer(payload)->Ok_0;
            match b.writers.delete(id, session_id).0 {
                Err(e) => lemma_dds_error_answers(request_id, writer_error_code(e), e),
                Ok(_) => {},
            }
        },
        MsgType::Ping => {},
        _ => {
            lemma_name_short(msg_type);
            reveal_strlit("unexpected message type: ");
            lemma_error_answers(
                request_id,
                ErrorCode::InvalidMessage,
                "unexpected message type: "@ + msg_type.name(),
            );
        },
    }
}

proof fn lemma_name_short(msg_type: MsgType)
    ensures
        msg_type.name().len() <= 20,
{
    reveal_strlit("Subscribe");
    reveal_strlit("Unsubscribe");
    reveal_strlit("Write");
    reveal_strlit("Dispose");
    reveal_strlit("WriteDispose");
    reveal_strlit("CreateWriter");
    reveal_strlit("DeleteWriter");
    reveal_strlit("Ping");
    reveal_strlit("Ok");
    reveal_strlit("Data");
    reveal_strlit("DataDisposed");
    reveal_strlit("DataNoWriters");
    reveal_strlit("Error");
    reveal_strlit("Pong");
}

/// A PING is answered with a PONG that has the id of the request and an empty
/// payload, and changes nothing.
pub proof fn law_ping_pong(b: BridgeView, session_id: u64, request_id: u32, payload: Seq<u8>)
    ensures
        b.handle(session_id, MsgType::Ping, request_id, payload) == (
            OutcomeView::Done(Some(message_bytes(MsgType::Pong, request_id, seq![]))),
            b,
        ),
{
}

// ---------------------------------------------------------------------------
// Ownership
// ---------------------------------------------------------------------------

/// A session that does not own a writer can neither use nor delete it: it is
/// answered with WRITER_NOT_FOUND, the DDS layer is asked for nothing, and
/// nothing changes.
pub proof fn law_writer_of_another_session(
    b: BridgeView,
    session_id: u64,
    request_id: u32,
    writer_id: u32,
    key_bytes: Seq<u8>,
    data: Seq<u8>,
    op: WriteOp,
)
    requires
        b.writers.writers.contains_key(writer_id) ==> b.writers.writers[writer_id].1 != session_id,
    ensures
        ({
            let e = if b.writers.writers.contains_key(writer_id) {
                DdsErrorView::WriterOwnership(writer_id)
            } else {
                DdsErrorView::WriterNotFound(writer_id)
            };
            let refusal = (
                OutcomeView::Done(
                    error_reply(request_id, ErrorCode::WriterNotFound, e.message()),
                ),
                b,
            );
            &&& b.write(
                session_id,
                request_id,
                WriteModeView::WriterId { writer_id, key_bytes, data },
                op,
            ) == refusal
            &&& b.delete_writer(session_id, request_id, writer_id) == refusal
        }),
{
    assert(BridgeView { writers: b.writers, ..b } == b);
}

/// A client that creates a writer is told its id, and from then on the id
/// stands for that writer: a write that names it is carried out on it, with the
/// bytes of the request. For any other session it does not exist.
pub proof fn law_created_writer_is_used(
    b: BridgeView,
    p: PendingView,
    topic: TopicEntityView,
    created: i32,
    other: u64,
    request_id: u32,
    key_bytes: Seq<u8>,
    data: Seq<u8>,
    op: WriteOp,
)
    requires
        sound(b),
        created >= 0,
        p.job is CreateWriter,
        other != p.session_id,
    ensures
        ({
            let (outcome, after) = b.on_writer(p, topic, created);
            let mode = WriteModeView::WriterId { writer_id: b.next_writer_id, key_bytes, data };
            &&& outcome == OutcomeView::Done(
                Some(ok_message(p.request_id, le32_bytes(b.next_writer_id as int))),
            )
            &&& after.write(p.session_id, request_id, mode, op) == (
                OutcomeView::Perform(
                    OpRequestView { request_id, writer: created, op, data, key_bytes },
                ),
                after,
            )
            &&& after.write(other, request_id, mode, op) == (
                OutcomeView::Done(
                    error_reply(
                        request_id,
                        ErrorCode::WriterNotFound,
                        DdsErrorView::WriterOwnership(b.next_writer_id).message(),
                    ),
                ),
                after,
            )
        }),
{
    assert(!b.writers.writers.contains_key(b.next_writer_id));
    let w = WriterView {
        handle: created,
        writer_id: b.next_writer_id,
        topic,
        qos_normalized: normal_form(p.job.qos()),
    };
    law_register(b.writers, w, p.session_id);
}

/// The bytes of a write, a dispose or a write-dispose reach the DDS layer
/// unchanged: of a request that a client has put into a message, every
/// operation that follows carries its bytes.
pub proof fn law_written_bytes_pass_unchanged(
    b: BridgeView,
    session_id: u64,
    msg_type: MsgType,
    request_id: u32,
    mode: WriteModeView,
    topic: i32,
    writer: i32,
)
    requires
        msg_type == MsgType::Write || msg_type == MsgType::Dispose || msg_type
            == MsgType::WriteDispose,
        write_mode_valid(mode),
    ensures
        ({
            let (first, b1) = b.handle(session_id, msg_type, request_id, write_mode_bytes(mode));
            &&& carries(first, mode)
            &&& first matches OutcomeView::CreateTopic(_, p) ==> {
                let (second, b2) = b1.topic_created(p, topic);
                &&& carries(second, mode)
                &&& second matches OutcomeView::CreateWriter(_, q, t) ==> carries(
                    b2.on_writer(q, t, writer).0,
                    mode,
                )
            }
            &&& first matches OutcomeView::CreateWriter(_, p, t) ==> carries(
                b1.on_writer(p, t, writer).0,
                mode,
            )
        }),
{
    law_write_mode_round_trip(mode);
}

/// Whether an outcome that is an operation, or leads to one, carries the bytes
/// of a write.
pub open spec fn carries(outcome: OutcomeView, mode: WriteModeView) -> bool {
    let data = match mode {
        WriteModeView::TopicName { data, .. } => data,
        WriteModeView::WriterId { data, .. } => data,
    };
    match outcome {
        OutcomeView::Done(_) => true,
        OutcomeView::CreateTopic(_, p) => p.job matches JobView::Write { data: d, .. } && d == data,
        OutcomeView::CreateReader(_, _, _) => false,
        OutcomeView::CreateWriter(_, p, _) => p.job matches JobView::Write { data: d, .. } && d
            == data,
        OutcomeView::Perform(op) => op.data == data && op.key_bytes == (match mode {
            WriteModeView::TopicName { .. } => seq![],
            WriteModeView::WriterId { key_bytes, .. } => key_bytes,
        }),
    }
}

// ---------------------------------------------------------------------------
// Soundness
// ---------------------------------------------------------------------------

/// Whether cached topics are filed under their own names.
pub open spec fn topics_filed(p: ParticipantView) -> bool {
    forall|k: (Seq<char>, Seq<char>)| #[trigger]
        p.topics.contains_key(k) ==> p.topics[k].topic_name == k.0 && p.topics[k].typename == k.1
}

/// Whether the next IDs have not been given yet.
pub open spec fn ids_fresh(b: BridgeView) -> bool {
    &&& forall|id: u32| #[trigger] b.writers.writers.contains_key(id) ==> id < b.next_writer_id
    &&& forall|id: u64| #[trigger]
        b.readers.readers.contains_key(id) ==> id < b.readers.next_reader_id
}

/// Whether all that the bridge keeps fits together.
pub open spec fn sound(b: BridgeView) -> bool {
    &&& topics_filed(b.participant)
    &&& writers_consistent(b.writers)
    &&& readers_consistent(b.readers)
    &&& ids_fresh(b)
}

/// Whether IDs are left: those of writers have 32 bits and those of readers 64,
/// and they come round when they are used up.
pub open spec fn ids_left(b: BridgeView) -> bool {
    b.next_writer_id < u32::MAX && b.readers.next_reader_id < u64::MAX
}

/// Whether a topic is the one that a job asks for.
pub open spec fn topic_of(p: PendingView, topic: TopicEntityView) -> bool {
    topic.topic_name == p.job.topic_name() && topic.typename == p.job.typename()
}

/// Whether the topic that an outcome carries is the one that its job asks for.
pub open spec fn topic_carried(outcome: OutcomeView) -> bool {
    match outcome {
        OutcomeView::CreateReader(_, p, t) => topic_of(p, t),
        OutcomeView::CreateWriter(_, p, t) => topic_of(p, t),
        _ => true,
    }
}

/// A bridge starts sound.
pub proof fn law_new_bridge_is_sound(handle: i32, config: ConfigView)
    ensures
        sound(new_bridge(handle, config)),
        ids_left(new_bridge(handle, config)),
{
}

/// A subscription keeps the bridge sound while IDs are left.
pub proof fn law_on_reader_keeps_sound(
    b: BridgeView,
    p: PendingView,
    topic: TopicEntityView,
    created: i32,
)
    requires
        sound(b),
        ids_left(b),
    ensures
        sound(b.on_reader(p, topic, created).1),
{
    assert(!b.readers.readers.contains_key(b.readers.next_reader_id));
    law_subscribe(b.readers, topic, p.job.qos(), p.session_id, created);
    let q = b.on_reader(p, topic, created).1;
    assert forall|id: u64| #[trigger] q.readers.readers.contains_key(id) implies id
        < q.readers.next_reader_id by {
        if b.readers.readers.contains_key(id) {
            assert(id < b.readers.next_reader_id);
        }
    }
}

/// The creation of a writer keeps the bridge sound while IDs are left. A writer
/// that is created for a write is there to be used: the write goes on with a
/// writer of the session.
pub proof fn law_on_writer_keeps_sound(
    b: BridgeView,
    p: PendingView,
    topic: TopicEntityView,
    created: i32,
)
    requires
        sound(b),
        ids_left(b),
        topic_of(p, topic),
    ensures
        sound(b.on_writer(p, topic, created).1),
        created >= 0 && p.job is Write ==> b.on_writer(p, topic, created).0 is Perform,
{
    if created >= 0 {
        let id = b.next_writer_id;
        let w = WriterView {
            handle: created,
            writer_id: id,
            topic,
            qos_normalized: normal_form(p.job.qos()),
        };
        assert(!b.writers.writers.contains_key(id));
        law_register(b.writers, w, p.session_id);
        law_normalized_same_reflexive(normal_form(p.job.qos()));
        law_registered_writer_is_found(b.writers, w, p.session_id, normal_form(p.job.qos()));
        let q = b.on_writer(p, topic, created).1;
        assert(q.writers == b.writers.register(w, p.session_id));
        assert forall|other: u32| #[trigger] q.writers.writers.contains_key(other) implies other
            < q.next_writer_id by {
            if other != id {
                assert(b.writers.writers.contains_key(other));
            }
        }
    }
}

/// A job that has its topic keeps the bridge sound while IDs are left, and what
/// it asks for next is on that topic.
pub proof fn law_with_topic_keeps_sound(b: BridgeView, p: PendingView, created: i32)
    requires
        sound(b),
        ids_left(b),
    ensures
        sound(b.with_topic(p).1),
        topic_carried(b.with_topic(p).0),
        sound(b.topic_created(p, created).1),
        topic_carried(b.topic_created(p, created).0),
{
    let key = (p.job.topic_name(), p.job.typename());
    let (r, participant) = spec_get_or_create_topic(
        b.participant,
        p.job.topic_name(),
        p.job.typename(),
        p.job.key_descriptors(),
        created,
    );
    let after = BridgeView { participant, ..b };
    assert(topics_filed(participant)) by {
        assert forall|k: (Seq<char>, Seq<char>)| #[trigger]
            participant.topics.contains_key(k) implies participant.topics[k].topic_name == k.0
            && participant.topics[k].typename == k.1 by {
            if k != key || b.participant.topics.contains_key(k) {
                assert(b.participant.topics.contains_key(k));
            }
        }
    }
    assert(sound(after));
    match r {
        Ok(topic) => {
            if b.participant.topics.contains_key(key) {
                assert(b.participant.topics[key].topic_name == key.0);
            }
            law_on_reader_keeps_sound(after, p, topic, 0);
        },
        Err(_) => {},
    }
    if b.participant.topics.contains_key(key) {
        law_on_reader_keeps_sound(b, p, b.participant.topics[key], 0);
    }
}

/// Every request keeps the bridge sound while IDs are left, and what it asks
/// for next is on the topic that it names.
pub proof fn law_handle_keeps_sound(
    b: BridgeView,
    session_id: u64,
    msg_type: MsgType,
    request_id: u32,
    payload: Seq<u8>,
)
    requires
        sound(b),
        ids_left(b),
    ensures
        sound(b.handle(session_id, msg_type, request_id, payload).1),
        topic_carried(b.handle(session_id, msg_type, request_id, payload).0),
{
    if payload_error(msg_type, payload) is None {
        match msg_type {
            MsgType::Subscribe => {
                let p = spec_parse_endpoint(payload)->Ok_0;
                law_with_topic_keeps_sound(
                    b,
                    PendingView { session_id, request_id, job: JobView::Subscribe(p) },
                    0,
                );
            },
            MsgType::CreateWriter => {
                let p = spec_parse_endpoint(payload)->Ok_0;
                law_with_topic_keeps_sound(
                    b,
                    PendingView { session_id, request_id, job: JobView::CreateWriter(p) },
                    0,
                );
            },
            MsgType::Unsubscribe => {
                let p = spec_parse_unsubscribe(payload)->Ok_0;
                lemma_unsubscribe_keeps_sound(b, session_id, request_id, p.topic_name, p.typename);
            },
            MsgType::Write => {
                let mode = spec_parse_write_mode(payload)->Ok_0;
                lemma_write_keeps_sound(b, session_id, request_id, mode, WriteOp::Write);
            },
            MsgType::Dispose => {
                let mode = spec_parse_write_mode(payload)->Ok_0;
                lemma_write_keeps_sound(b, session_id, request_id, mode, WriteOp::Dispose);
            },
            MsgType::WriteDispose => {
                let mode = spec_parse_write_mode(payload)->Ok_0;
                lemma_write_keeps_sound(b, session_id, request_id, mode, WriteOp::WriteDispose);
            },
            MsgType::DeleteWriter => {
                let id = spec_parse_delete_writer(payload)->Ok_0;
                lemma_delete_keeps_sound(b, session_id, request_id, id);
            },
            _ => {},
        }
    } else {
        law_malformed_request_changes_nothing(b, session_id, msg_type, request_id, payload);
    }
}

proof fn lemma_unsubscribe_keeps_sound(
    b: BridgeView,
    session_id: u64,
    request_id: u32,
    topic_name: Seq<char>,
    typename: Seq<char>,
)
    requires
        sound(b),
    ensures
        sound(b.unsubscribe(session_id, request_id, topic_name, typename).1),
{
    law_unsubscribe(b.readers, topic_name, typename, session_id);
    let q = b.unsubscribe(session_id, request_id, topic_name, typename).1;
    assert forall|id: u64| #[trigger] q.readers.readers.contains_key(id) implies id
        < q.readers.next_reader_id by {
        assert(b.readers.readers.contains_key(id));
    }
}

proof fn lemma_delete_keeps_sound(
    b: BridgeView,
    session_id: u64,
    request_id: u32,
    writer_id: u32,
)
    requires
        sound(b),
    ensures
        sound(b.delete_writer(session_id, request_id, writer_id).1),
{
    law_delete(b.writers, writer_id, session_id);
    let q = b.delete_writer(session_id, request_id, writer_id).1;
    assert forall|id: u32| #[trigger] q.writers.writers.contains_key(id) implies id
        < q.next_writer_id by {
        assert(b.writers.writers.contains_key(id));
    }
}

proof fn lemma_write_keeps_sound(
    b: BridgeView,
    session_id: u64,
    request_id: u32,
    mode: WriteModeView,
    op: WriteOp,
)
    requires
        sound(b),
        ids_left(b),
    ensures
        sound(b.write(session_id, request_id, mode, op).1),
        topic_carried(b.write(session_id, request_id, mode, op).0),
{
    match mode {
        WriteModeView::TopicName { topic_name, typename, qos, key_descriptors, data } => {
            let p = PendingView {
                session_id,
                request_id,
                job: JobView::Write { op, topic_name, typename, qos, key_descriptors, data },
            };
            law_with_topic_keeps_sound(b, p, 0);
        },
        WriteModeView::WriterId { .. } => {},
    }
}

/// New sessions, deliveries, messages that are sent and handles that are handed
/// out keep the bridge sound.
pub proof fn law_other_steps_keep_sound(
    b: BridgeView,
    session_id: u64,
    reader_id: u64,
    taken: Seq<TakenSample>,
)
    requires
        sound(b),
    ensures
        sound(b.session_registered(session_id)),
        sound(b.delivered(reader_id, taken)),
        sound(b.next_outbound(session_id).1),
        sound(
            BridgeView {
                writers: WriterRegistryView { released: Seq::empty(), ..b.writers },
                readers: ReaderRegistryView { released: Seq::empty(), ..b.readers },
                ..b
            },
        ),
{
    let w = WriterRegistryView { released: Seq::empty(), ..b.writers };
    assert forall|s: u64| #[trigger] w.ids_of(s) == b.writers.ids_of(s) by {}
    assert(writers_consistent(w)) by {
        assert forall|s: u64, id: u32| #[trigger]
            w.ids_of(s).contains(id) implies w.writers.contains_key(id) && w.writers[id].1
            == s by {
            assert(b.writers.ids_of(s).contains(id));
        }
    }
}

/// A write is carried out only on a writer that the session owns.
pub proof fn law_writes_use_own_writers(
    b: BridgeView,
    session_id: u64,
    request_id: u32,
    mode: WriteModeView,
    op: WriteOp,
)
    requires
        sound(b),
    ensures
        b.write(session_id, request_id, mode, op).0 matches OutcomeView::Perform(done) ==> exists|
            id: u32,
        | #[trigger]
            b.writers.get(id, session_id) matches Ok(w) && w.handle == done.writer,
{
    match mode {
        WriteModeView::TopicName { topic_name, typename, qos, .. } => {
            law_find_by_topic(b.writers, session_id, topic_name, typename, normal_form(qos));
            match b.writers.find_by_topic(session_id, topic_name, typename, normal_form(qos)) {
                Some(w) => {
                    assert(b.writers.get(w.writer_id, session_id) == Ok::<WriterView, DdsErrorView>(
                        w,
                    ));
                },
                None => {},
            }
        },
        WriteModeView::WriterId { writer_id, .. } => {
            assert(b.writers.get(writer_id, session_id) is Ok || b.writers.get(
                writer_id,
                session_id,
            ) is Err);
        },
    }
}

// ---------------------------------------------------------------------------
// Sessions
// ---------------------------------------------------------------------------

/// The ID that a call of `next_session_id` gives, when `earlier` calls have been
/// made on the counter before it.
pub open spec fn session_id_after(earlier: nat) -> u64
    decreases earlier,
{
    if earlier == 0 {
        FIRST_SESSION_ID
    } else {
        next_id(session_id_after((earlier - 1) as nat))
    }
}

/// Session IDs are unique: as long as fewer than 2^64 - 1 have been given, the
/// next one is greater than all before it, and none is 0.
pub proof fn law_session_ids_grow(earlier: nat, later: nat)
    requires
        earlier < later < u64::MAX,
    ensures
        0 < session_id_after(earlier) < session_id_after(later),
{
    lemma_session_id(earlier);
    lemma_session_id(later);
}

proof fn lemma_session_id(earlier: nat)
    requires
        earlier < u64::MAX,
    ensures
        session_id_after(earlier) == earlier + 1,
    decreases earlier,
{
    if earlier > 0 {
        lemma_session_id((earlier - 1) as nat);
    }
}

/// When a session has ended, it owns no writer, no reader has it as a
/// subscriber, and it has neither a subscription nor a buffer. Writers of other
/// sessions, readers that it was not subscribed to and the buffers of other
/// sessions are as they were, and the bridge stays sound.
pub proof fn law_ended_session(b: BridgeView, session_id: u64, after: BridgeView)
    requires
        sound(b),
        b.session_ended(session_id, after),
    ensures
        sound(after),
        !after.buffers.contains_key(session_id),
        forall|id: u32| #[trigger]
            after.writers.writers.contains_key(id) ==> after.writers.writers[id].1 != session_id,
        forall|id: u64| #[trigger]
            after.readers.readers.contains_key(id)
                ==> !after.readers.readers[id].subscribers.contains(session_id),
        forall|sub: (u64, Seq<char>, Seq<char>)| #[trigger]
            after.readers.subscriptions.contains_key(sub) ==> sub.0 != session_id,
        forall|id: u32| #[trigger]
            b.writers.writers.contains_key(id) && b.writers.writers[id].1 != session_id
                ==> after.writers.writers.contains_key(id) && after.writers.writers[id]
                == b.writers.writers[id],
        forall|s: u64|
            s != session_id && #[trigger] b.buffers.contains_key(s) ==> after.buffers.contains_key(
                s,
            ) && after.buffers[s] == b.buffers[s],
{
    law_writers_of_ended_session(b.writers, session_id);
    law_readers_of_ended_session(b.readers, session_id, after.readers);
    assert forall|id: u32| #[trigger] after.writers.writers.contains_key(id) implies id
        < after.next_writer_id by {
        assert(b.writers.writers.contains_key(id));
    }
    assert forall|id: u64| #[trigger] after.readers.readers.contains_key(id) implies id
        < after.readers.next_reader_id by {
        assert(b.readers.readers.contains_key(id));
    }
    assert forall|id: u32| #[trigger]
        b.writers.writers.contains_key(id) && b.writers.writers[id].1
            != session_id implies after.writers.writers.contains_key(id)
        && after.writers.writers[id] == b.writers.writers[id] by {
        assert(after.writers.writers.contains_key(id));
    }
}

/// The samples of a reader reach the sessions that are subscribed to it, and no
/// others: a slow session does not hold up another.
pub proof fn law_delivery_reaches_subscribers(
    b: BridgeView,
    reader_id: u64,
    taken: Seq<TakenSample>,
    session_id: u64,
)
    requires
        b.readers.readers.contains_key(reader_id),
        b.buffers.contains_key(session_id),
    ensures
        ({
            let reader = b.readers.readers[reader_id];
            let messages = outbound_of(taken.filter_map(forwarding(reader.topic.topic_name)));
            let after = b.delivered(reader_id, taken);
            &&& reader.subscribers.contains(session_id) ==> after.buffers[session_id]
                == b.buffers[session_id].push_all(messages)
            &&& !reader.subscribers.contains(session_id) ==> after.buffers[session_id]
                == b.buffers[session_id]
        }),
{
}

/// The messages that a round over the readers has for a session: those of the
/// readers that it is subscribed to, reader by reader.
pub open spec fn messages_for(
    b: BridgeView,
    session_id: u64,
    round: Seq<(u64, Vec<TakenSample>)>,
) -> Seq<OutboundView>
    decreases round.len(),
{
    if round.len() == 0 {
        seq![]
    } else {
        let (id, taken) = round.last();
        let before = messages_for(b, session_id, round.drop_last());
        if b.readers.readers.contains_key(id) && b.readers.readers[id].subscribers.contains(
            session_id,
        ) {
            before + outbound_of(
                taken@.filter_map(forwarding(b.readers.readers[id].topic.topic_name)),
            )
        } else {
            before
        }
    }
}

/// A round over the readers gives every session the messages that are for it,
/// in their order, and changes nothing else.
pub proof fn law_round_reaches_sessions(
    b: BridgeView,
    round: Seq<(u64, Vec<TakenSample>)>,
    session_id: u64,
)
    requires
        b.buffers.contains_key(session_id),
    ensures
        b.delivered_round(round).buffers.contains_key(session_id),
        b.delivered_round(round).buffers[session_id] == b.buffers[session_id].push_all(
            messages_for(b, session_id, round),
        ),
        b.delivered_round(round) == (BridgeView {
            buffers: b.delivered_round(round).buffers,
            ..b
        }),
    decreases round.len(),
{
    if round.len() > 0 {
        let most = round.drop_last();
        law_round_reaches_sessions(b, most, session_id);
        let (id, taken) = round.last();
        if b.readers.readers.contains_key(id) && b.readers.readers[id].subscribers.contains(
            session_id,
        ) {
            lemma_push_all_join(
                b.buffers[session_id],
                messages_for(b, session_id, most),
                outbound_of(
                    taken@.filter_map(forwarding(b.readers.readers[id].topic.topic_name)),
                ),
            );
        }
    }
}

proof fn lemma_push_all_join(b: BufferView, first: Seq<OutboundView>, second: Seq<OutboundView>)
    ensures
        b.push_all(first).push_all(second) == b.push_all(first + second),
    decreases second.len(),
{
    if second.len() == 0 {
        assert(first + second =~= first);
    } else {
        lemma_push_all_join(b, first, second.drop_last());
        assert((first + second).drop_last() =~= first + second.drop_last());
        assert((first + second).last() == second.last());
    }
}

/// A session that has subscribed gets the samples of its topic from then on.
pub proof fn law_subscriber_gets_samples(
    b: BridgeView,
    p: PendingView,
    topic: TopicEntityView,
    created: i32,
    taken: Seq<TakenSample>,
)
    requires
        sound(b),
        ids_left(b),
        b.buffers.contains_key(p.session_id),
        b.readers.subscribe(topic, p.job.qos(), p.session_id, created).0 is Ok,
    ensures
        ({
            let after = b.on_reader(p, topic, created).1;
            let id = b.readers.subscribe(topic, p.job.qos(), p.session_id, created).0->Ok_0;
            let messages = outbound_of(taken.filter_map(forwarding(topic.topic_name)));
            &&& b.on_reader(p, topic, created).0 == OutcomeView::Done(
                Some(ok_message(p.request_id, seq![])),
            )
            &&& after.delivered(id, taken).buffers[p.session_id]
                == b.buffers[p.session_id].push_all(messages)
        }),
{
    assert(!b.readers.readers.contains_key(b.readers.next_reader_id));
    law_subscribe(b.readers, topic, p.job.qos(), p.session_id, created);
    let after = b.on_reader(p, topic, created).1;
    let id = b.readers.subscribe(topic, p.job.qos(), p.session_id, created).0->Ok_0;
    law_delivery_reaches_subscribers(after, id, taken, p.session_id);
}

/// A session that has ended its subscription gets no samples of that reader any
/// more.
pub proof fn law_unsubscribed_gets_no_samples(
    b: BridgeView,
    session_id: u64,
    request_id: u32,
    topic_name: Seq<char>,
    typename: Seq<char>,
    taken: Seq<TakenSample>,
)
    requires
        sound(b),
        b.buffers.contains_key(session_id),
        b.readers.subscriptions.contains_key((session_id, topic_name, typename)),
    ensures
        ({
            let id = b.readers.subscriptions[(session_id, topic_name, typename)];
            let (outcome, after) = b.unsubscribe(session_id, request_id, topic_name, typename);
            &&& outcome == OutcomeView::Done(Some(ok_message(request_id, seq![])))
            &&& after.delivered(id, taken).buffers[session_id] == b.buffers[session_id]
        }),
{
    law_unsubscribe(b.readers, topic_name, typename, session_id);
}

} // verus!
