//! What requests are for, from the bytes of a message to what has come of it in
//! the end.
use vstd::prelude::*;

use crate::bridge::laws::{ids_left, law_with_topic_keeps_sound, sound};
use crate::bridge::reply::{error_reply, ok_message};
use crate::bridge::request::{JobView, OpRequestView, OutcomeView, PendingView};
use crate::bridge::state::{
    joined_domain, new_bridge, next_writer, no_subscription_text, performed_reply, BridgeView,
};
use crate::config::ConfigView;
use crate::dds::error::DdsErrorView;
use crate::dds::laws::{
    law_find_by_topic, law_register, law_registered_writer_is_found, law_subscribe, law_unsubscribe,
};
use crate::dds::participant::{contains_nul, domain_asked_for, TopicEntityView};
use crate::dds::qos_handle::{settings_of, QosSettingView};
use crate::dds::reader::reader_key;
use crate::dds::writer::{WriteOp, WriterView};
use crate::protocol::codec::{string_fits, KeyField};
use crate::protocol::header::{law_built_message, spec_parse_header, MsgType};
use crate::protocol::laws::{
    endpoint_valid, law_delete_writer_round_trip, law_endpoint_round_trip,
    law_unsubscribe_round_trip, law_write_mode_round_trip, write_mode_valid,
};
use crate::protocol::payload::{
    endpoint_bytes, unsubscribe_bytes, write_mode_bytes, EndpointView, ErrorCode, TopicView,
    WriteModeView,
};
use crate::qos::laws::law_normalized_same_reflexive;
use crate::qos::policy::{normal_form, normalized_same, QosPolicyView};
use crate::wire::{le32_bytes, lemma_le32_of_bytes};

verus! {

broadcast use crate::wire::group_le_lengths;

/// What has come of a request when all that it asks of the DDS layer has been
/// done, but for the operation on a writer: `topic` and `entity` are what the
/// creation of a topic, and of a reader or a writer, would give.
pub open spec fn driven(
    b: BridgeView,
    session_id: u64,
    msg_type: MsgType,
    request_id: u32,
    payload: Seq<u8>,
    topic: i32,
    entity: i32,
) -> (OutcomeView, BridgeView) {
    let (first, b1) = b.handle(session_id, msg_type, request_id, payload);
    let (second, b2) = match first {
        OutcomeView::CreateTopic(_, p) => b1.topic_created(p, topic),
        _ => (first, b1),
    };
    match second {
        OutcomeView::CreateReader(_, p, t) => b2.on_reader(p, t, entity),
        OutcomeView::CreateWriter(_, p, t) => b2.on_writer(p, t, entity),
        _ => (second, b2),
    }
}

// ---------------------------------------------------------------------------
// Writes
// ---------------------------------------------------------------------------

/// Whether an outcome is, or will lead to, no other operation than the given
/// one.
pub open spec fn leads_only_to(outcome: OutcomeView, op: WriteOp) -> bool {
    match outcome {
        OutcomeView::Perform(request) => request.op == op,
        OutcomeView::CreateTopic(_, p) => p.job matches JobView::Write { op: wanted, .. } && wanted
            == op,
        OutcomeView::CreateWriter(_, p, _) => p.job matches JobView::Write { op: wanted, .. }
            && wanted == op,
        OutcomeView::CreateReader(_, _, _) => false,
        OutcomeView::Done(_) => true,
    }
}

/// Every operation that follows from a WRITE writes, every one that follows from
/// a DISPOSE disposes, and every one that follows from a WRITE_DISPOSE does
/// both, whether it follows at once or when the topic and the writer have been
/// created. No other message leads to an operation.
#[verifier::rlimit(60)]
pub proof fn law_operations_are_those_of_the_message(
    b: BridgeView,
    session_id: u64,
    msg_type: MsgType,
    request_id: u32,
    payload: Seq<u8>,
    topic: i32,
    entity: i32,
)
    ensures
        ({
            let (first, b1) = b.handle(session_id, msg_type, request_id, payload);
            let last = driven(b, session_id, msg_type, request_id, payload, topic, entity).0;
            &&& msg_type == MsgType::Write ==> leads_only_to(first, WriteOp::Write)
                && leads_only_to(last, WriteOp::Write)
            &&& msg_type == MsgType::Dispose ==> leads_only_to(first, WriteOp::Dispose)
                && leads_only_to(last, WriteOp::Dispose)
            &&& msg_type == MsgType::WriteDispose ==> leads_only_to(first, WriteOp::WriteDispose)
                && leads_only_to(last, WriteOp::WriteDispose)
            &&& msg_type != MsgType::Write && msg_type != MsgType::Dispose && msg_type
                != MsgType::WriteDispose ==> first !is Perform && last !is Perform
            &&& last is Perform || last is Done
        }),
{
}

/// The operation that a message asks for.
pub open spec fn op_of(msg_type: MsgType) -> WriteOp {
    match msg_type {
        MsgType::Dispose => WriteOp::Dispose,
        MsgType::WriteDispose => WriteOp::WriteDispose,
        _ => WriteOp::Write,
    }
}

/// A write by writer ID: where the session owns the writer, the operation of the
/// message is carried out on it, with the key bytes and the data of the message,
/// and nothing else changes.
#[verifier::rlimit(60)]
pub proof fn law_write_by_writer_id(
    b: BridgeView,
    session_id: u64,
    msg_type: MsgType,
    request_id: u32,
    writer_id: u32,
    key_bytes: Seq<u8>,
    data: Seq<u8>,
)
    requires
        msg_type == MsgType::Write || msg_type == MsgType::Dispose || msg_type
            == MsgType::WriteDispose,
        key_bytes.len() < 0x1_0000_0000,
        b.writers.writers.contains_key(writer_id),
        b.writers.writers[writer_id].1 == session_id,
    ensures
        b.handle(
            session_id,
            msg_type,
            request_id,
            write_mode_bytes(WriteModeView::WriterId { writer_id, key_bytes, data }),
        ) == (
            OutcomeView::Perform(
                OpRequestView {
                    request_id,
                    writer: b.writers.writers[writer_id].0.handle,
                    op: op_of(msg_type),
                    data,
                    key_bytes,
                },
            ),
            b,
        ),
{
    law_write_mode_round_trip(WriteModeView::WriterId { writer_id, key_bytes, data });
}

/// A write by topic name, when the DDS layer creates what it is asked for: the
/// operation of the message is carried out with the data of the message, on a
/// writer that the session owns, on the topic and the type of the message and
/// with an equal QoS. Where the session had no such writer, it is the one that
/// was created for it; where it had one, nothing is created and nothing changes.
#[verifier::rlimit(60)]
pub proof fn law_write_by_topic_name(
    b: BridgeView,
    session_id: u64,
    msg_type: MsgType,
    request_id: u32,
    topic_name: Seq<char>,
    typename: Seq<char>,
    qos: Seq<QosPolicyView>,
    key_descriptors: Seq<KeyField>,
    data: Seq<u8>,
    topic: i32,
    entity: i32,
)
    requires
        sound(b),
        ids_left(b),
        msg_type == MsgType::Write || msg_type == MsgType::Dispose || msg_type
            == MsgType::WriteDispose,
        write_mode_valid(
            WriteModeView::TopicName { topic_name, typename, qos, key_descriptors, data },
        ),
        !contains_nul(topic_name),
        !contains_nul(typename),
        topic >= 0,
        entity >= 0,
    ensures
        ({
            let mode = WriteModeView::TopicName {
                topic_name,
                typename,
                qos,
                key_descriptors,
                data,
            };
            let (outcome, after) = driven(
                b,
                session_id,
                msg_type,
                request_id,
                write_mode_bytes(mode),
                topic,
                entity,
            );
            let had = exists|id: u32| #[trigger]
                b.writers.writers.contains_key(id) && b.writers.writers[id].1 == session_id
                    && suits(b.writers.writers[id].0, topic_name, typename, qos);
            &&& outcome matches OutcomeView::Perform(request)
            &&& request.request_id == request_id
            &&& request.op == op_of(msg_type)
            &&& request.data == data
            &&& request.key_bytes == Seq::<u8>::empty()
            &&& exists|id: u32| #[trigger]
                after.writers.writers.contains_key(id) && after.writers.writers[id].1
                    == session_id && suits(
                    after.writers.writers[id].0,
                    topic_name,
                    typename,
                    qos,
                ) && after.writers.writers[id].0.handle == request.writer
            &&& !had ==> request.writer == entity
            &&& had ==> after == b
        }),
{
    let mode = WriteModeView::TopicName { topic_name, typename, qos, key_descriptors, data };
    let nf = normal_form(qos);
    law_write_mode_round_trip(mode);
    law_find_by_topic(b.writers, session_id, topic_name, typename, nf);
    law_normalized_same_reflexive(qos);
    law_normalized_same_reflexive(nf);
    let p = PendingView {
        session_id,
        request_id,
        job: JobView::Write {
            op: op_of(msg_type),
            topic_name,
            typename,
            qos,
            key_descriptors,
            data,
        },
    };
    let found = b.writers.find_by_topic(session_id, topic_name, typename, nf);
    assert(found is Some <==> exists|id: u32| #[trigger]
        b.writers.writers.contains_key(id) && b.writers.writers[id].1 == session_id && suits(
            b.writers.writers[id].0,
            topic_name,
            typename,
            qos,
        )) by {
        if found is Some {
            let id = choose|id: u32| #[trigger]
                b.writers.fits(id, topic_name, typename, nf) && b.writers.writers[id].1
                    == session_id;
            assert(suits(b.writers.writers[id].0, topic_name, typename, qos));
            assert(b.writers.writers.contains_key(id));
        }
        if exists|id: u32| #[trigger]
            b.writers.writers.contains_key(id) && b.writers.writers[id].1 == session_id && suits(
                b.writers.writers[id].0,
                topic_name,
                typename,
                qos,
            ) {
            let id = choose|id: u32| #[trigger]
                b.writers.writers.contains_key(id) && b.writers.writers[id].1 == session_id
                    && suits(b.writers.writers[id].0, topic_name, typename, qos);
            assert(b.writers.fits(id, topic_name, typename, nf));
        }
    }
    match found {
        Some(w) => {
            assert(b.writers.get(w.writer_id, session_id) == Ok::<WriterView, DdsErrorView>(w));
            assert(b.writers.writers.contains_key(w.writer_id));
            assert(suits(w, topic_name, typename, qos));
        },
        None => {
            law_with_topic_keeps_sound(b, p, topic);
            let key = (topic_name, typename);
            let t = if b.participant.topics.contains_key(key) {
                b.participant.topics[key]
            } else {
                TopicEntityView { handle: topic, topic_name, typename, key_descriptors }
            };
            assert(t.topic_name == topic_name && t.typename == typename);
            let id = b.next_writer_id;
            let w = WriterView { handle: entity, writer_id: id, topic: t, qos_normalized: nf };
            assert(!b.writers.writers.contains_key(id));
            law_register(b.writers, w, session_id);
            law_registered_writer_is_found(b.writers, w, session_id, nf);
            let r = b.writers.register(w, session_id);
            law_find_by_topic(r, session_id, topic_name, typename, nf);
            let got = r.find_by_topic(session_id, topic_name, typename, nf)->0;
            assert(r.get(got.writer_id, session_id) == Ok::<WriterView, DdsErrorView>(got));
            if got.writer_id != id {
                assert(r.get(got.writer_id, session_id) == b.writers.get(
                    got.writer_id,
                    session_id,
                ));
                assert(b.writers.fits(got.writer_id, topic_name, typename, nf));
            }
            assert(got == w);
            assert(r.writers.contains_key(id));
            assert(suits(w, topic_name, typename, qos));
            let after = driven(
                b,
                session_id,
                msg_type,
                request_id,
                write_mode_bytes(mode),
                topic,
                entity,
            ).1;
            assert(after.writers == r);
        },
    }
}

/// Whether a writer is on a topic and a type, with an equal QoS.
pub open spec fn suits(
    w: WriterView,
    topic_name: Seq<char>,
    typename: Seq<char>,
    qos: Seq<QosPolicyView>,
) -> bool {
    &&& w.topic.topic_name == topic_name
    &&& w.topic.typename == typename
    &&& normalized_same(w.qos_normalized, qos)
}

/// The answer to an operation: OK without a payload where its return code is not
/// negative; otherwise an ERROR that says DDS_ERROR, with a text of its own for
/// each operation.
pub proof fn law_answer_to_an_operation(request_id: u32, op: WriteOp, rc: i32)
    ensures
        rc >= 0 ==> performed_reply(request_id, op, rc) == Some(ok_message(request_id, seq![])),
        rc < 0 && op == WriteOp::Write ==> performed_reply(request_id, op, rc) == error_reply(
            request_id,
            ErrorCode::DdsError,
            DdsErrorView::Write(rc).message(),
        ),
        rc < 0 && op == WriteOp::Dispose ==> performed_reply(request_id, op, rc) == error_reply(
            request_id,
            ErrorCode::DdsError,
            DdsErrorView::Dispose(rc).message(),
        ),
        rc < 0 && op == WriteOp::WriteDispose ==> performed_reply(request_id, op, rc)
            == error_reply(
            request_id,
            ErrorCode::DdsError,
            DdsErrorView::WriteDispose(rc).message(),
        ),
{
}

// ---------------------------------------------------------------------------
// What is asked of the DDS layer
// ---------------------------------------------------------------------------

/// The topic that a SUBSCRIBE or a CREATE_WRITER asks for is the one of the
/// message: its name, its type, its key fields, and with a key where the message
/// says so. Both data representations are allowed: XCDR1, bit 0, and XCDR2,
/// bit 2. It is asked for only where it is not there yet, and nothing changes.
#[verifier::rlimit(60)]
pub proof fn law_topics_are_asked_for_as_in_the_message(
    b: BridgeView,
    session_id: u64,
    msg_type: MsgType,
    request_id: u32,
    p: EndpointView,
)
    requires
        msg_type == MsgType::Subscribe || msg_type == MsgType::CreateWriter,
        endpoint_valid(p),
    ensures
        b.handle(session_id, msg_type, request_id, endpoint_bytes(p)).0
            matches OutcomeView::CreateTopic(request, _) ==> {
            &&& request.participant == b.participant.handle
            &&& request.allowed_data_representation == 0b101
            &&& request.topic_name == p.topic_name
            &&& request.typename == p.typename
            &&& request.key_fields == p.key_descriptors
            &&& request.no_key <==> !p.is_keyed
            &&& !b.participant.topics.contains_key((p.topic_name, p.typename))
            &&& b.handle(session_id, msg_type, request_id, endpoint_bytes(p)).1 == b
        },
{
    law_endpoint_round_trip(p);
}

/// The topic that a write by topic name asks for is the one of the message. The
/// message does not say whether the topic has a key: it has one if and only if it
/// has key fields.
#[verifier::rlimit(60)]
pub proof fn law_topics_of_writes_are_asked_for_as_in_the_message(
    b: BridgeView,
    session_id: u64,
    request_id: u32,
    op: WriteOp,
    topic_name: Seq<char>,
    typename: Seq<char>,
    qos: Seq<QosPolicyView>,
    key_descriptors: Seq<KeyField>,
    data: Seq<u8>,
)
    ensures
        ({
            let mode = WriteModeView::TopicName {
                topic_name,
                typename,
                qos,
                key_descriptors,
                data,
            };
            b.write(session_id, request_id, mode, op).0 matches OutcomeView::CreateTopic(
                request,
                _,
            ) ==> {
                &&& request.participant == b.participant.handle
                &&& request.allowed_data_representation == 0b101
                &&& request.topic_name == topic_name
                &&& request.typename == typename
                &&& request.key_fields == key_descriptors
                &&& request.no_key <==> key_descriptors.len() == 0
                &&& !b.participant.topics.contains_key((topic_name, typename))
                &&& b.write(session_id, request_id, mode, op).1 == b
            }
        }),
{
}

/// A reader or a writer is asked for on the topic that the job has got, of the
/// participant, and with a setting for each policy of the message: with none,
/// where the message has no policy.
#[verifier::rlimit(60)]
pub proof fn law_entities_are_asked_for_as_in_the_message(
    b: BridgeView,
    p: PendingView,
    topic: i32,
)
    ensures
        ({
            let key = (p.job.topic_name(), p.job.typename());
            let (first, b1) = b.with_topic(p);
            let (second, b2) = b.topic_created(p, topic);
            &&& first matches OutcomeView::CreateReader(r, q, t) ==> q == p && t
                == b.participant.topics[key] && asked_on(b, p, t, r.participant, r.topic, r.settings)
            &&& first matches OutcomeView::CreateWriter(r, q, t) ==> q == p && t
                == b.participant.topics[key] && asked_on(b, p, t, r.participant, r.topic, r.settings)
            &&& second matches OutcomeView::CreateReader(r, q, t) ==> q == p && t
                == b2.participant.topics[key] && asked_on(b, p, t, r.participant, r.topic, r.settings)
            &&& second matches OutcomeView::CreateWriter(r, q, t) ==> q == p && t
                == b2.participant.topics[key] && asked_on(b, p, t, r.participant, r.topic, r.settings)
            &&& second is CreateReader || second is CreateWriter ==> {
                &&& b.participant.topics.contains_key(key) ==> b2.participant == b.participant
                &&& !b.participant.topics.contains_key(key) ==> b2.participant.topics[key]
                    == (TopicEntityView {
                    handle: topic,
                    topic_name: p.job.topic_name(),
                    typename: p.job.typename(),
                    key_descriptors: p.job.key_descriptors(),
                })
            }
        }),
{
}

/// Whether an entity is asked for on a topic, with the QoS of a job.
pub open spec fn asked_on(
    b: BridgeView,
    p: PendingView,
    topic: TopicEntityView,
    participant: i32,
    topic_handle: i32,
    settings: Option<Seq<QosSettingView>>,
) -> bool {
    &&& participant == b.participant.handle
    &&& topic_handle == topic.handle
    &&& p.job.qos().len() == 0 ==> settings is None
    &&& p.job.qos().len() > 0 ==> settings == Some(settings_of(p.job.qos()))
}

// ---------------------------------------------------------------------------
// Subscriptions and writers
// ---------------------------------------------------------------------------

/// A subscription, when the DDS layer creates what it is asked for: it is
/// answered OK, and the session is then a subscriber of a reader on the topic
/// and the type of the message, with an equal QoS. No writer and no buffer
/// changes, and every reader that was there is there, with its subscribers.
#[verifier::rlimit(60)]
pub proof fn law_subscription_is_served(
    b: BridgeView,
    session_id: u64,
    request_id: u32,
    p: EndpointView,
    topic: i32,
    entity: i32,
)
    requires
        sound(b),
        ids_left(b),
        endpoint_valid(p),
        !contains_nul(p.topic_name),
        !contains_nul(p.typename),
        topic >= 0,
        entity >= 0,
    ensures
        ({
            let (outcome, after) = driven(
                b,
                session_id,
                MsgType::Subscribe,
                request_id,
                endpoint_bytes(p),
                topic,
                entity,
            );
            let sub = (session_id, p.topic_name, p.typename);
            &&& outcome == OutcomeView::Done(Some(ok_message(request_id, seq![])))
            &&& after.readers.subscriptions.contains_key(sub)
            &&& after.readers.readers.contains_key(after.readers.subscriptions[sub])
            &&& ({
                let reader = after.readers.readers[after.readers.subscriptions[sub]];
                &&& reader.topic.topic_name == p.topic_name
                &&& reader.topic.typename == p.typename
                &&& normalized_same(reader.qos_normalized, p.qos)
                &&& reader.subscribers.contains(session_id)
            })
            &&& after.writers == b.writers
            &&& after.next_writer_id == b.next_writer_id
            &&& after.buffers == b.buffers
            &&& after.config == b.config
            &&& forall|id: u64| #[trigger]
                b.readers.readers.contains_key(id) ==> after.readers.readers.contains_key(id) && (
                after.readers.readers[id] == b.readers.readers[id] || after.readers.readers[id]
                    == b.readers.readers[id].joined(session_id))
        }),
{
    law_endpoint_round_trip(p);
    let pending = PendingView { session_id, request_id, job: JobView::Subscribe(p) };
    let key = (p.topic_name, p.typename);
    let t = if b.participant.topics.contains_key(key) {
        b.participant.topics[key]
    } else {
        TopicEntityView {
            handle: topic,
            topic_name: p.topic_name,
            typename: p.typename,
            key_descriptors: p.key_descriptors,
        }
    };
    assert(t.topic_name == p.topic_name && t.typename == p.typename);
    assert(!b.readers.readers.contains_key(b.readers.next_reader_id));
    law_subscribe(b.readers, t, p.qos, session_id, 0);
    law_subscribe(b.readers, t, p.qos, session_id, entity);
}

/// A CREATE_WRITER, when the DDS layer creates what it is asked for: it is
/// answered OK with the ID of the new writer in four bytes, lowest first, and
/// the session then owns a writer of that ID, with the handle that was created,
/// on the topic and the type of the message and with an equal QoS. The writers
/// that were there are as they were.
#[verifier::rlimit(60)]
pub proof fn law_writer_is_created(
    b: BridgeView,
    session_id: u64,
    request_id: u32,
    p: EndpointView,
    topic: i32,
    entity: i32,
)
    requires
        sound(b),
        ids_left(b),
        endpoint_valid(p),
        !contains_nul(p.topic_name),
        !contains_nul(p.typename),
        topic >= 0,
        entity >= 0,
    ensures
        ({
            let (outcome, after) = driven(
                b,
                session_id,
                MsgType::CreateWriter,
                request_id,
                endpoint_bytes(p),
                topic,
                entity,
            );
            &&& outcome matches OutcomeView::Done(Some(msg))
            &&& spec_parse_header(msg) matches Ok(h) && h.msg_type == MsgType::Okay
                && h.request_id == request_id && h.payload_length == 4 && msg.len() == 16
            &&& ({
                let id = (msg[12] + 256 * (msg[13] + 256 * (msg[14] + 256 * msg[15]))) as u32;
                &&& !b.writers.writers.contains_key(id)
                &&& after.writers.writers.contains_key(id)
                &&& after.writers.writers[id].1 == session_id
                &&& after.writers.writers[id].0.handle == entity
                &&& suits(after.writers.writers[id].0, p.topic_name, p.typename, p.qos)
            })
            &&& forall|other: u32| #[trigger]
                b.writers.writers.contains_key(other) ==> after.writers.writers.contains_key(other)
                    && after.writers.writers[other] == b.writers.writers[other]
            &&& after.readers == b.readers
            &&& after.buffers == b.buffers
            &&& after.config == b.config
        }),
{
    law_endpoint_round_trip(p);
    law_normalized_same_reflexive(p.qos);
    let key = (p.topic_name, p.typename);
    let t = if b.participant.topics.contains_key(key) {
        b.participant.topics[key]
    } else {
        TopicEntityView {
            handle: topic,
            topic_name: p.topic_name,
            typename: p.typename,
            key_descriptors: p.key_descriptors,
        }
    };
    assert(t.topic_name == p.topic_name && t.typename == p.typename);
    let id = b.next_writer_id;
    assert(!b.writers.writers.contains_key(id));
    let bytes = le32_bytes(id as int);
    law_built_message(MsgType::Okay, request_id, bytes);
    let msg = ok_message(request_id, bytes);
    assert(msg.skip(12) =~= bytes);
    assert(msg[12] == msg.skip(12)[0] && msg[13] == msg.skip(12)[1]);
    assert(msg[14] == msg.skip(12)[2] && msg[15] == msg.skip(12)[3]);
    lemma_le32_of_bytes(id as int, Seq::empty());
    assert(bytes + Seq::<u8>::empty() =~= bytes);
}

/// Where the DDS layer fails to create what a request needs, the request is
/// answered with an ERROR that says DDS_ERROR and the code, and no reader, no
/// writer and no subscription comes of it.
#[verifier::rlimit(60)]
pub proof fn law_failed_creation_leaves_nothing(
    b: BridgeView,
    p: PendingView,
    t: TopicEntityView,
    rc: i32,
)
    requires
        rc < 0,
    ensures
        b.on_writer(p, t, rc) == (
            OutcomeView::Done(
                error_reply(
                    p.request_id,
                    ErrorCode::DdsError,
                    DdsErrorView::CreateWriter(rc).message(),
                ),
            ),
            b,
        ),
        b.readers.shared(
            reader_key(t.topic_name, t.typename, p.job.qos()),
        ) is None ==> b.on_reader(p, t, rc) == (
            OutcomeView::Done(
                error_reply(
                    p.request_id,
                    ErrorCode::DdsError,
                    DdsErrorView::CreateReader(rc).message(),
                ),
            ),
            b,
        ),
        !b.participant.topics.contains_key((p.job.topic_name(), p.job.typename()))
            && !contains_nul(p.job.topic_name()) && !contains_nul(p.job.typename())
            ==> b.topic_created(p, rc) == (
            OutcomeView::Done(
                error_reply(
                    p.request_id,
                    ErrorCode::DdsError,
                    DdsErrorView::CreateTopic(rc).message(),
                ),
            ),
            b,
        ),
{
}

/// A request that names a topic or a type with a NUL in it is answered with an
/// ERROR that says DDS_ERROR and the name, and nothing is asked of the DDS layer.
#[verifier::rlimit(60)]
pub proof fn law_names_with_nul_are_refused(b: BridgeView, p: PendingView)
    requires
        contains_nul(p.job.topic_name()) || contains_nul(p.job.typename()),
        !b.participant.topics.contains_key((p.job.topic_name(), p.job.typename())),
    ensures
        b.with_topic(p) == (
            OutcomeView::Done(
                error_reply(
                    p.request_id,
                    ErrorCode::DdsError,
                    DdsErrorView::InvalidName(
                        if contains_nul(p.job.topic_name()) {
                            p.job.topic_name()
                        } else {
                            p.job.typename()
                        },
                    ).message(),
                ),
            ),
            b,
        ),
{
}

/// An UNSUBSCRIBE: where the session has subscribed to the topic and the type,
/// it is answered OK, and the session is no subscriber of that reader any more;
/// otherwise it is answered with an ERROR that says READER_NOT_FOUND, and nothing
/// changes.
pub proof fn law_unsubscribe_is_served(
    b: BridgeView,
    session_id: u64,
    request_id: u32,
    p: TopicView,
)
    requires
        sound(b),
        string_fits(p.topic_name),
        string_fits(p.typename),
    ensures
        ({
            let sub = (session_id, p.topic_name, p.typename);
            let (outcome, after) = b.handle(
                session_id,
                MsgType::Unsubscribe,
                request_id,
                unsubscribe_bytes(p),
            );
            &&& b.readers.subscriptions.contains_key(sub) ==> {
                let id = b.readers.subscriptions[sub];
                &&& outcome == OutcomeView::Done(Some(ok_message(request_id, seq![])))
                &&& !after.readers.subscriptions.contains_key(sub)
                &&& after.readers.readers.contains_key(id)
                    ==> !after.readers.readers[id].subscribers.contains(session_id)
                &&& after.writers == b.writers
                &&& after.buffers == b.buffers
            }
            &&& !b.readers.subscriptions.contains_key(sub) ==> {
                &&& exists|text: Seq<char>|
                    outcome == OutcomeView::Done(
                        #[trigger] error_reply(request_id, ErrorCode::ReaderNotFound, text),
                    )
                &&& after == b
            }
        }),
{
    law_unsubscribe_round_trip(p);
    law_unsubscribe(b.readers, p.topic_name, p.typename, session_id);
    let text = no_subscription_text(p.topic_name, p.typename);
    assert(BridgeView { readers: b.readers, ..b } == b);
    if !b.readers.subscriptions.contains_key((session_id, p.topic_name, p.typename)) {
        assert(b.handle(
            session_id,
            MsgType::Unsubscribe,
            request_id,
            unsubscribe_bytes(p),
        ).0 == OutcomeView::Done(error_reply(request_id, ErrorCode::ReaderNotFound, text)));
    }
}

/// A DELETE_WRITER from the session that owns the writer: it is answered OK, the
/// writer is gone, its handle is the last that is released, and every other
/// writer is as it was.
pub proof fn law_delete_writer_is_served(
    b: BridgeView,
    session_id: u64,
    request_id: u32,
    writer_id: u32,
)
    requires
        b.writers.writers.contains_key(writer_id),
        b.writers.writers[writer_id].1 == session_id,
    ensures
        ({
            let (outcome, after) = b.handle(
                session_id,
                MsgType::DeleteWriter,
                request_id,
                le32_bytes(writer_id as int),
            );
            &&& outcome == OutcomeView::Done(Some(ok_message(request_id, seq![])))
            &&& after.writers.writers == b.writers.writers.remove(writer_id)
            &&& after.writers.released == b.writers.released.push(
                b.writers.writers[writer_id].0.handle,
            )
            &&& after.readers == b.readers
            &&& after.buffers == b.buffers
        }),
{
    law_delete_writer_round_trip(writer_id, Seq::empty());
}

/// Messages that only the bridge sends are refused with INVALID_MESSAGE, and
/// change nothing.
pub proof fn law_bridge_messages_are_refused(
    b: BridgeView,
    session_id: u64,
    msg_type: MsgType,
    request_id: u32,
    payload: Seq<u8>,
)
    requires
        msg_type == MsgType::Okay || msg_type == MsgType::Data || msg_type
            == MsgType::DataDisposed || msg_type == MsgType::DataNoWriters || msg_type
            == MsgType::Error || msg_type == MsgType::Pong,
    ensures
        b.handle(session_id, msg_type, request_id, payload).1 == b,
        exists|text: Seq<char>|
            b.handle(session_id, msg_type, request_id, payload).0 == OutcomeView::Done(
                #[trigger] error_reply(request_id, ErrorCode::InvalidMessage, text),
            ),
{
    let text = "unexpected message type: "@ + msg_type.name();
    assert(b.handle(session_id, msg_type, request_id, payload).0 == OutcomeView::Done(
        error_reply(request_id, ErrorCode::InvalidMessage, text),
    ));
}

/// An OK is read as one: it echoes the request id and has the payload that it was
/// given.
pub proof fn law_ok_is_read(request_id: u32, payload: Seq<u8>)
    ensures
        spec_parse_header(ok_message(request_id, payload)) matches Ok(h) && h.msg_type
            == MsgType::Okay && h.request_id == request_id && h.version == 1 && (payload.len()
            < 0x1_0000_0000 ==> h.payload_length == payload.len()),
        ok_message(request_id, payload).skip(12) == payload,
{
    law_built_message(MsgType::Okay, request_id, payload);
}

/// A new bridge has nothing: no topic, no reader, no writer, no session; the IDs
/// of readers and writers start at 1.
pub proof fn law_new_bridge_is_empty(handle: i32, config: ConfigView)
    ensures
        ({
            let b = new_bridge(handle, config);
            &&& b.participant.handle == handle
            &&& b.config == config
            &&& forall|k: (Seq<char>, Seq<char>)| !(#[trigger] b.participant.topics.contains_key(k))
            &&& forall|id: u64| !(#[trigger] b.readers.readers.contains_key(id))
            &&& forall|id: u32| !(#[trigger] b.writers.writers.contains_key(id))
            &&& forall|s: u64| !(#[trigger] b.buffers.contains_key(s))
            &&& b.readers.next_reader_id == 1
            &&& b.next_writer_id == 1
            &&& b.readers.released.len() == 0
            &&& b.writers.released.len() == 0
        }),
{
}

/// The domain that is configured is joined, and for 0 the one that the DDS layer
/// takes by default: 0xFFFFFFFF stands for it.
pub proof fn law_configured_domain_is_joined(domain_id: u32)
    ensures
        domain_id != 0 ==> joined_domain(domain_id) == domain_id,
        domain_id == 0 ==> joined_domain(domain_id) == 0xFFFF_FFFF,
        domain_asked_for(Some(domain_id)) == domain_id,
        domain_asked_for(None) == 0xFFFF_FFFF,
{
}

/// Where a session has not subscribed, it is told the topic and the type: they
/// stand in quotes, in this order.
pub proof fn law_missing_subscription_is_named(topic_name: Seq<char>, typename: Seq<char>)
    ensures
        ({
            let text = no_subscription_text(topic_name, typename);
            let t = 27 + topic_name.len() as int;
            let y = t + 8 + typename.len();
            &&& text.len() == y + 1
            &&& text.subrange(27, t) == topic_name
            &&& text.subrange(t + 8, y) == typename
            &&& text[26] == '\'' && text[t] == '\'' && text[t + 7] == '\'' && text[y] == '\''
        }),
{
    reveal_strlit("no subscription for topic='");
    reveal_strlit("' type='");
    reveal_strlit("'");
    let text = no_subscription_text(topic_name, typename);
    let t = 27 + topic_name.len() as int;
    let y = t + 8 + typename.len();
    assert(text.subrange(27, t) =~= topic_name);
    assert(text.subrange(t + 8, y) =~= typename);
}

/// Every step of a request changes what it is about and leaves the rest: a topic
/// that was created changes no writer, a reader no writer and no topic, a writer no
/// reader and no topic; the end of a subscription and the deletion of a writer stay
/// in their own registries. No step changes a buffer or the configuration.
#[verifier::rlimit(60)]
pub proof fn law_steps_change_their_own(
    b: BridgeView,
    p: PendingView,
    topic: TopicEntityView,
    created: i32,
    topic_name: Seq<char>,
    typename: Seq<char>,
    writer_id: u32,
)
    ensures
        ({
            let q = b.topic_created(p, created).1;
            &&& q.writers == b.writers && q.next_writer_id == b.next_writer_id
            &&& q.buffers == b.buffers && q.config == b.config
            &&& p.job !is Subscribe ==> q.readers == b.readers
            &&& q.participant.handle == b.participant.handle
        }),
        ({
            let q = b.on_reader(p, topic, created).1;
            &&& q.writers == b.writers && q.next_writer_id == b.next_writer_id
            &&& q.buffers == b.buffers && q.config == b.config
            &&& q.participant == b.participant
        }),
        ({
            let q = b.on_writer(p, topic, created).1;
            &&& q.readers == b.readers
            &&& q.buffers == b.buffers && q.config == b.config
            &&& q.participant == b.participant
        }),
        ({
            let q = b.unsubscribe(p.session_id, p.request_id, topic_name, typename).1;
            &&& q.writers == b.writers && q.next_writer_id == b.next_writer_id
            &&& q.buffers == b.buffers && q.config == b.config
            &&& q.participant == b.participant
        }),
        ({
            let q = b.delete_writer(p.session_id, p.request_id, writer_id).1;
            &&& q.readers == b.readers && q.next_writer_id == b.next_writer_id
            &&& q.buffers == b.buffers && q.config == b.config
            &&& q.participant == b.participant
        }),
{
}

/// Writer IDs go up by one, and start again at 0 behind the last.
pub proof fn law_writer_ids_go_up_by_one(id: u32)
    ensures
        id < u32::MAX ==> next_writer(id) == id + 1,
        id == u32::MAX ==> next_writer(id) == 0,
{
}

/// The end of a session leaves the topics, the configuration and the IDs that come
/// next as they are.
pub proof fn law_end_of_a_session_leaves_the_rest(b: BridgeView, session_id: u64, after: BridgeView)
    requires
        b.session_ended(session_id, after),
    ensures
        after.participant == b.participant,
        after.config == b.config,
        after.next_writer_id == b.next_writer_id,
        after.readers.next_reader_id == b.readers.next_reader_id,
        forall|s: u64| #[trigger]
            after.buffers.contains_key(s) <==> b.buffers.contains_key(s) && s != session_id,
{
}

} // verus!
