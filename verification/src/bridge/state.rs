//! The state of the bridge, and how requests change it.
use std::collections::{HashMap, HashSet};

use vstd::prelude::*;
use vstd::slice::slice_to_vec;
use vstd::std_specs::iter::IteratorSpec;
use vstd::string::*;
use vstd::utf8::encode_utf8;

use crate::bridge::buffer::{
    outbound_views, BufferView, OutboundMessage, OutboundView, SessionBuffer,
};
use crate::bridge::reply::{
    deliverable, delivery, error_reply, make_error_response, ok_message, optional_bytes,
    sample_to_message,
};
use crate::bridge::request::{
    EntityRequest, EntityRequestView, Job, JobView, OpRequest, OpRequestView, Outcome,
    OutcomeView, Pending, PendingView, TopicRequest, TopicRequestView,
};
use crate::config::{Config, ConfigView};
use crate::dds::error::{DdsError, DdsErrorView};
use crate::dds::participant::{
    domain_to_join, name_error, spec_get_or_create_topic, DdsParticipant, ParticipantView, Topic, TopicEntityView,
    TopicLookup,
};
use crate::dds::qos_handle::{make_qos, settings_of};
use crate::dds::reader::{
    forwarded, forwarding, lemma_take_push, next_id, reader_key, sample_views, DdsReader, ReaderRegistry,
    ReaderRegistryView, ReceivedSample, ReceivedSampleView, TakenSample,
};
use crate::dds::sertype::{
    create_opaque_sertype, SampleWrapper, ALLOWED_DATA_REPRESENTATION,
};
use crate::dds::writer::{DdsWriter, WriteOp, WriterRegistry, WriterRegistryView, WriterView};
use crate::protocol::error::{ProtocolError, ProtocolErrorView};
use crate::protocol::header::{build_message, message_bytes, MsgType};
use crate::protocol::payload::{
    parse_create_writer, parse_delete_writer, parse_dispose, parse_subscribe, parse_unsubscribe,
    parse_write, parse_write_dispose, spec_parse_delete_writer, spec_parse_endpoint,
    spec_parse_unsubscribe, spec_parse_write_mode, ErrorCode, WriteMode, WriteModeView,
};
use crate::qos::policy::normal_form;
use crate::wire::{buffer_limit, le32_bytes, u32_le_array};

verus! {

broadcast use vstd::std_specs::hash::group_hash_axioms;

/// The bridge: what it has created in the DDS layer, and the sessions that it
/// serves.
pub struct BridgeInner {
    participant: DdsParticipant,
    writers: WriterRegistry,
    readers: ReaderRegistry,
    next_writer_id: u32,
    /// session_id -> messages that wait to be sent
    buffers: HashMap<u64, SessionBuffer>,
    config: Config,
}

/// The mathematical value of a [`BridgeInner`].
#[verifier::ext_equal]
pub struct BridgeView {
    pub participant: ParticipantView,
    pub writers: WriterRegistryView,
    pub readers: ReaderRegistryView,
    pub next_writer_id: u32,
    pub buffers: Map<u64, BufferView>,
    pub config: ConfigView,
}

impl View for BridgeInner {
    type V = BridgeView;

    closed spec fn view(&self) -> BridgeView {
        BridgeView {
            participant: self.participant@,
            writers: self.writers@,
            readers: self.readers@,
            next_writer_id: self.next_writer_id,
            buffers: self.buffers@.map_values(|b: SessionBuffer| b@),
            config: self.config@,
        }
    }
}

/// The error code that a client gets for a writer that it cannot use.
pub open spec fn writer_error_code(e: DdsErrorView) -> ErrorCode {
    match e {
        DdsErrorView::WriterNotFound(_) => ErrorCode::WriterNotFound,
        DdsErrorView::WriterOwnership(_) => ErrorCode::WriterNotFound,
        _ => ErrorCode::DdsError,
    }
}

/// The text for a subscription that does not exist.
pub open spec fn no_subscription_text(topic_name: Seq<char>, typename: Seq<char>) -> Seq<char> {
    "no subscription for topic='"@ + topic_name + "' type='"@ + typename + "'"@
}

/// The ID after `id`.
pub open spec fn next_writer(id: u32) -> u32 {
    if id == u32::MAX {
        0
    } else {
        (id + 1) as u32
    }
}

impl BridgeView {
    /// The request is answered with an error.
    pub open spec fn refuse(self, request_id: u32, code: ErrorCode, text: Seq<char>) -> (
        OutcomeView,
        BridgeView,
    ) {
        (OutcomeView::Done(error_reply(request_id, code, text)), self)
    }

    /// The request is answered with OK.
    pub open spec fn accept(self, request_id: u32, payload: Seq<u8>) -> (OutcomeView, BridgeView) {
        (OutcomeView::Done(Some(ok_message(request_id, payload))), self)
    }

    /// The payload of the request cannot be read.
    pub open spec fn malformed(self, request_id: u32, e: ProtocolErrorView) -> (
        OutcomeView,
        BridgeView,
    ) {
        self.refuse(request_id, ErrorCode::InvalidMessage, e.message())
    }

    /// The DDS layer has failed.
    pub open spec fn failed(self, request_id: u32, e: DdsErrorView) -> (OutcomeView, BridgeView) {
        self.refuse(request_id, ErrorCode::DdsError, e.message())
    }

    /// A job needs its topic: it is taken from the cache, refused or to be
    /// created.
    pub open spec fn with_topic(self, p: PendingView) -> (OutcomeView, BridgeView) {
        let key = (p.job.topic_name(), p.job.typename());
        if self.participant.topics.contains_key(key) {
            self.on_topic(p, self.participant.topics[key])
        } else {
            match name_error(p.job.topic_name(), p.job.typename()) {
                Some(e) => self.failed(p.request_id, e),
                None => (
                    OutcomeView::CreateTopic(
                        TopicRequestView {
                            participant: self.participant.handle,
                            topic_name: p.job.topic_name(),
                            typename: p.job.typename(),
                            key_fields: p.job.key_descriptors(),
                            no_key: !p.job.is_keyed(),
                            allowed_data_representation: ALLOWED_DATA_REPRESENTATION,
                        },
                        p,
                    ),
                    self,
                ),
            }
        }
    }

    /// A job has its topic. A subscription shares a reader where there is one
    /// for its topic, type and QoS; other jobs, and other subscriptions, need a
    /// new writer or reader.
    pub open spec fn on_topic(self, p: PendingView, topic: TopicEntityView) -> (
        OutcomeView,
        BridgeView,
    ) {
        let request = EntityRequestView {
            participant: self.participant.handle,
            topic: topic.handle,
            settings: if p.job.qos().len() == 0 {
                None
            } else {
                Some(settings_of(p.job.qos()))
            },
        };
        match p.job {
            JobView::Subscribe(sub) => {
                let key = reader_key(topic.topic_name, topic.typename, sub.qos);
                if self.readers.shared(key) is Some {
                    self.on_reader(p, topic, 0)
                } else {
                    (OutcomeView::CreateReader(request, p, topic), self)
                }
            },
            _ => (OutcomeView::CreateWriter(request, p, topic), self),
        }
    }

    /// The DDS layer has tried to create the topic of a job.
    pub open spec fn topic_created(self, p: PendingView, created: i32) -> (
        OutcomeView,
        BridgeView,
    ) {
        let (r, participant) = spec_get_or_create_topic(
            self.participant,
            p.job.topic_name(),
            p.job.typename(),
            p.job.key_descriptors(),
            created,
        );
        let after = BridgeView { participant, ..self };
        match r {
            Err(e) => after.failed(p.request_id, e),
            Ok(topic) => after.on_topic(p, topic),
        }
    }

    /// A subscription has a reader to share, or the DDS layer has tried to
    /// create one for it.
    pub open spec fn on_reader(self, p: PendingView, topic: TopicEntityView, created: i32) -> (
        OutcomeView,
        BridgeView,
    ) {
        let (r, readers) = self.readers.subscribe(topic, p.job.qos(), p.session_id, created);
        let after = BridgeView { readers, ..self };
        match r {
            Err(e) => after.failed(p.request_id, e),
            Ok(_) => after.accept(p.request_id, seq![]),
        }
    }

    /// The DDS layer has tried to create the writer of a job. A writer that a
    /// client has asked for is named to it; one for a write is used at once.
    pub open spec fn on_writer(self, p: PendingView, topic: TopicEntityView, created: i32) -> (
        OutcomeView,
        BridgeView,
    ) {
        if created < 0 {
            self.failed(p.request_id, DdsErrorView::CreateWriter(created))
        } else {
            let id = self.next_writer_id;
            let writer = WriterView {
                handle: created,
                writer_id: id,
                topic,
                qos_normalized: normal_form(p.job.qos()),
            };
            let after = BridgeView {
                writers: self.writers.register(writer, p.session_id),
                next_writer_id: next_writer(id),
                ..self
            };
            match p.job {
                JobView::Write { op, topic_name, typename, qos, data, .. } => {
                    match after.writers.find_by_topic(
                        p.session_id,
                        topic_name,
                        typename,
                        normal_form(qos),
                    ) {
                        Some(w) => (
                            OutcomeView::Perform(
                                OpRequestView {
                                    request_id: p.request_id,
                                    writer: w.handle,
                                    op,
                                    data,
                                    key_bytes: seq![],
                                },
                            ),
                            after,
                        ),
                        None => after.refuse(
                            p.request_id,
                            ErrorCode::InternalError,
                            "writer disappeared after creation"@,
                        ),
                    }
                },
                _ => after.accept(p.request_id, le32_bytes(id as int)),
            }
        }
    }

    /// A request to write. By topic name it uses the writer that the session
    /// has for the topic, the type and the QoS, or a new one; by writer ID it
    /// uses that writer, if the session owns it.
    pub open spec fn write(
        self,
        session_id: u64,
        request_id: u32,
        mode: WriteModeView,
        op: WriteOp,
    ) -> (OutcomeView, BridgeView) {
        match mode {
            WriteModeView::TopicName { topic_name, typename, qos, key_descriptors, data } => {
                match self.writers.find_by_topic(
                    session_id,
                    topic_name,
                    typename,
                    normal_form(qos),
                ) {
                    Some(w) => (
                        OutcomeView::Perform(
                            OpRequestView {
                                request_id,
                                writer: w.handle,
                                op,
                                data,
                                key_bytes: seq![],
                            },
                        ),
                        self,
                    ),
                    None => self.with_topic(
                        PendingView {
                            session_id,
                            request_id,
                            job: JobView::Write {
                                op,
                                topic_name,
                                typename,
                                qos,
                                key_descriptors,
                                data,
                            },
                        },
                    ),
                }
            },
            WriteModeView::WriterId { writer_id, key_bytes, data } => {
                match self.writers.get(writer_id, session_id) {
                    Ok(w) => (
                        OutcomeView::Perform(
                            OpRequestView { request_id, writer: w.handle, op, data, key_bytes },
                        ),
                        self,
                    ),
                    Err(e) => self.refuse(request_id, writer_error_code(e), e.message()),
                }
            },
        }
    }

    /// The end of a subscription.
    pub open spec fn unsubscribe(
        self,
        session_id: u64,
        request_id: u32,
        topic_name: Seq<char>,
        typename: Seq<char>,
    ) -> (OutcomeView, BridgeView) {
        let (found, readers) = self.readers.unsubscribe(topic_name, typename, session_id);
        let after = BridgeView { readers, ..self };
        if found {
            after.accept(request_id, seq![])
        } else {
            after.refuse(
                request_id,
                ErrorCode::ReaderNotFound,
                no_subscription_text(topic_name, typename),
            )
        }
    }

    /// The deletion of a writer.
    pub open spec fn delete_writer(self, session_id: u64, request_id: u32, writer_id: u32) -> (
        OutcomeView,
        BridgeView,
    ) {
        let (r, writers) = self.writers.delete(writer_id, session_id);
        let after = BridgeView { writers, ..self };
        match r {
            Ok(_) => after.accept(request_id, seq![]),
            Err(e) => after.refuse(request_id, writer_error_code(e), e.message()),
        }
    }

    /// A message from a client.
    pub open spec fn handle(
        self,
        session_id: u64,
        msg_type: MsgType,
        request_id: u32,
        payload: Seq<u8>,
    ) -> (OutcomeView, BridgeView) {
        match msg_type {
            MsgType::Subscribe => match spec_parse_endpoint(payload) {
                Err(e) => self.malformed(request_id, e),
                Ok(p) => self.with_topic(
                    PendingView { session_id, request_id, job: JobView::Subscribe(p) },
                ),
            },
            MsgType::Unsubscribe => match spec_parse_unsubscribe(payload) {
                Err(e) => self.malformed(request_id, e),
                Ok(p) => self.unsubscribe(session_id, request_id, p.topic_name, p.typename),
            },
            MsgType::Write => match spec_parse_write_mode(payload) {
                Err(e) => self.malformed(request_id, e),
                Ok(mode) => self.write(session_id, request_id, mode, WriteOp::Write),
            },
            MsgType::Dispose => match spec_parse_write_mode(payload) {
                Err(e) => self.malformed(request_id, e),
                Ok(mode) => self.write(session_id, request_id, mode, WriteOp::Dispose),
            },
            MsgType::WriteDispose => match spec_parse_write_mode(payload) {
                Err(e) => self.malformed(request_id, e),
                Ok(mode) => self.write(session_id, request_id, mode, WriteOp::WriteDispose),
            },
            MsgType::CreateWriter => match spec_parse_endpoint(payload) {
                Err(e) => self.malformed(request_id, e),
                Ok(p) => self.with_topic(
                    PendingView { session_id, request_id, job: JobView::CreateWriter(p) },
                ),
            },
            MsgType::DeleteWriter => match spec_parse_delete_writer(payload) {
                Err(e) => self.malformed(request_id, e),
                Ok(writer_id) => self.delete_writer(session_id, request_id, writer_id),
            },
            MsgType::Ping => (
                OutcomeView::Done(Some(message_bytes(MsgType::Pong, request_id, seq![]))),
                self,
            ),
            _ => self.refuse(
                request_id,
                ErrorCode::InvalidMessage,
                "unexpected message type: "@ + msg_type.name(),
            ),
        }
    }
}

/// The answer to a request whose operation the DDS layer has carried out.
pub open spec fn performed_reply(request_id: u32, op: WriteOp, rc: i32) -> Option<Seq<u8>> {
    match op.spec_outcome(rc) {
        Ok(_) => Some(ok_message(request_id, seq![])),
        Err(e) => error_reply(request_id, ErrorCode::DdsError, e.message()),
    }
}

/// The answer to a request whose operation the DDS layer has carried out: OK,
/// or an error where its return code is negative.
pub fn execute_write_op(request_id: u32, op: WriteOp, rc: i32) -> (reply: Option<Vec<u8>>)
    ensures
        optional_bytes(reply) == performed_reply(request_id, op, rc),
{
    match op.outcome(rc) {
        Ok(_) => Some(ok_reply(request_id, &[])),
        Err(e) => make_error_response(request_id, ErrorCode::DdsError, e.message().as_str()),
    }
}

fn ok_reply(request_id: u32, payload: &[u8]) -> (msg: Vec<u8>)
    ensures
        msg@ == ok_message(request_id, payload@),
{
    build_message(MsgType::Okay, request_id, payload)
}

fn accepted(request_id: u32) -> (outcome: Outcome)
    ensures
        outcome@ == OutcomeView::Done(Some(ok_message(request_id, seq![]))),
{
    let none: [u8; 0] = [];
    assert(none@ =~= Seq::<u8>::empty());
    Outcome::Done(Some(ok_reply(request_id, &none)))
}

fn refused(request_id: u32, code: ErrorCode, text: &str) -> (outcome: Outcome)
    ensures
        outcome@ == OutcomeView::Done(error_reply(request_id, code, text@)),
{
    Outcome::Done(make_error_response(request_id, code, text))
}

fn malformed(request_id: u32, e: &ProtocolError) -> (outcome: Outcome)
    ensures
        outcome@ == OutcomeView::Done(
            error_reply(request_id, ErrorCode::InvalidMessage, e@.message()),
        ),
{
    refused(request_id, ErrorCode::InvalidMessage, e.message().as_str())
}

fn failed(request_id: u32, e: &DdsError) -> (outcome: Outcome)
    ensures
        outcome@ == OutcomeView::Done(error_reply(request_id, ErrorCode::DdsError, e@.message())),
{
    refused(request_id, ErrorCode::DdsError, e.message().as_str())
}

fn writer_refused(request_id: u32, e: &DdsError) -> (outcome: Outcome)
    ensures
        outcome@ == OutcomeView::Done(
            error_reply(request_id, writer_error_code(e@), e@.message()),
        ),
{
    let code = match e {
        DdsError::WriterNotFound(_) => ErrorCode::WriterNotFound,
        DdsError::WriterOwnership(_) => ErrorCode::WriterNotFound,
        _ => ErrorCode::DdsError,
    };
    refused(request_id, code, e.message().as_str())
}

fn no_subscription(topic_name: &str, typename: &str) -> (text: String)
    ensures
        text@ == no_subscription_text(topic_name@, typename@),
{
    let mut text = "no subscription for topic='".to_owned();
    text.append(topic_name);
    text.append("' type='");
    text.append(typename);
    text.append("'");
    text
}

/// The operation on a writer that a write asks for.
fn operation(
    request_id: u32,
    writer: i32,
    op: WriteOp,
    data: &[u8],
    key_bytes: &[u8],
) -> (outcome: Outcome)
    ensures
        outcome@ == OutcomeView::Perform(
            OpRequestView { request_id, writer, op, data: data@, key_bytes: key_bytes@ },
        ),
{
    Outcome::Perform(
        OpRequest { request_id, writer, op, sample: SampleWrapper::from_bytes(data, key_bytes) },
    )
}

impl BridgeInner {
    /// Whether topics and subscriptions are filed once each, and no buffer
    /// holds more than it may.
    pub closed spec fn wf(&self) -> bool {
        &&& self.participant.wf()
        &&& self.readers.wf()
        &&& forall|s: u64| #[trigger]
            self.buffers@.contains_key(s) ==> self.buffers@[s]@.bounded()
    }

    /// A job needs its topic.
    fn with_topic(&mut self, pending: Pending) -> (outcome: Outcome)
        requires
            old(self).wf(),
        ensures
            final(self).wf(),
            (outcome@, final(self)@) == old(self)@.with_topic(pending@),
            outcome@.wf(),
    {
        match self.participant.lookup_topic(pending.job.topic_name(), pending.job.typename()) {
            TopicLookup::Cached(topic) => self.on_topic(pending, topic),
            TopicLookup::Refused(e) => failed(pending.request_id, &e),
            TopicLookup::Missing => {
                let request = TopicRequest {
                    participant: self.participant.handle(),
                    topic_name: pending.job.topic_name().to_owned(),
                    sertype: create_opaque_sertype(
                        pending.job.typename(),
                        pending.job.is_keyed(),
                        pending.job.key_descriptors(),
                    ),
                };
                Outcome::CreateTopic(request, pending)
            },
        }
    }

    /// A job has its topic.
    fn on_topic(&mut self, pending: Pending, topic: Topic) -> (outcome: Outcome)
        requires
            old(self).wf(),
        ensures
            final(self).wf(),
            (outcome@, final(self)@) == old(self)@.on_topic(pending@, topic@),
            outcome@.wf(),
    {
        let qos = make_qos(pending.job.qos());
        let request = EntityRequest {
            participant: self.participant.handle(),
            topic: topic.handle,
            qos,
        };
        match &pending.job {
            Job::Subscribe(sub) => {
                let shared = self.readers.shared_reader(
                    topic.topic_name.as_str(),
                    topic.typename.as_str(),
                    &sub.qos,
                );
                match shared {
                    Some(_) => self.reader_created(pending, topic, 0),
                    None => Outcome::CreateReader(request, pending, topic),
                }
            },
            _ => Outcome::CreateWriter(request, pending, topic),
        }
    }

    /// Takes up a job again when the DDS layer has tried to create its topic:
    /// `created` is a handle or a negative error code.
    pub fn topic_created(&mut self, pending: Pending, created: i32) -> (outcome: Outcome)
        requires
            old(self).wf(),
        ensures
            final(self).wf(),
            (outcome@, final(self)@) == old(self)@.topic_created(pending@, created),
            outcome@.wf(),
    {
        let r = self.participant.get_or_create_topic(
            pending.job.topic_name(),
            pending.job.typename(),
            pending.job.key_descriptors(),
            created,
        );
        match r {
            Err(e) => failed(pending.request_id, &e),
            Ok(topic) => self.on_topic(pending, topic),
        }
    }

    /// Takes up a subscription again when the DDS layer has tried to create its
    /// reader: `created` is a handle or a negative error code.
    pub fn reader_created(&mut self, pending: Pending, topic: Topic, created: i32) -> (outcome:
        Outcome)
        requires
            old(self).wf(),
            pending@.job is Subscribe,
        ensures
            final(self).wf(),
            (outcome@, final(self)@) == old(self)@.on_reader(pending@, topic@, created),
            outcome@.wf(),
    {
        match self.readers.subscribe(&topic, pending.job.qos(), pending.session_id, created) {
            Err(e) => failed(pending.request_id, &e),
            Ok(_) => accepted(pending.request_id),
        }
    }

    /// Takes up a job again when the DDS layer has tried to create its writer:
    /// `created` is a handle or a negative error code.
    pub fn writer_created(&mut self, pending: Pending, topic: Topic, created: i32) -> (outcome:
        Outcome)
        requires
            old(self).wf(),
            pending@.job !is Subscribe,
        ensures
            final(self).wf(),
            (outcome@, final(self)@) == old(self)@.on_writer(pending@, topic@, created),
            outcome@.wf(),
    {
        let mut ids: u32 = self.next_writer_id;
        let normalized = pending.job.qos().normalize();
        let writer = match DdsWriter::new(created, &topic, normalized, &mut ids) {
            Ok(writer) => writer,
            Err(e) => {
                return failed(pending.request_id, &e);
            },
        };
        self.next_writer_id = ids;
        let writer_id: u32 = self.writers.register(writer, pending.session_id);
        match &pending.job {
            Job::Write { op, topic_name, typename, qos, key_descriptors, data } => {
                let normalized = qos.normalize();
                let found = self.writers.find_by_topic(
                    pending.session_id,
                    topic_name.as_str(),
                    typename.as_str(),
                    &normalized,
                );
                match found {
                    Some(writer) => {
                        let none: [u8; 0] = [];
                        assert(none@ =~= Seq::<u8>::empty());
                        operation(pending.request_id, writer.handle, *op, data.as_slice(), &none)
                    },
                    None => refused(
                        pending.request_id,
                        ErrorCode::InternalError,
                        "writer disappeared after creation",
                    ),
                }
            },
            _ => {
                // OK response payload: writer_id as 4 bytes LE
                let payload: [u8; 4] = u32_le_array(writer_id);
                Outcome::Done(Some(ok_reply(pending.request_id, &payload)))
            },
        }
    }

    /// A request to write, in either mode.
    fn do_write_op(
        &mut self,
        session_id: u64,
        request_id: u32,
        mode: WriteMode,
        op: WriteOp,
    ) -> (outcome: Outcome)
        requires
            old(self).wf(),
        ensures
            final(self).wf(),
            (outcome@, final(self)@) == old(self)@.write(session_id, request_id, mode@, op),
            outcome@.wf(),
    {
        match mode {
            WriteMode::TopicName { topic_name, typename, qos, key_descriptors, data } => {
                let normalized = qos.normalize();
                // Try to reuse an existing implicit writer for this session
                let found = self.writers.find_by_topic(
                    session_id,
                    topic_name.as_str(),
                    typename.as_str(),
                    &normalized,
                );
                match found {
                    Some(writer) => {
                        let none: [u8; 0] = [];
                        assert(none@ =~= Seq::<u8>::empty());
                        operation(request_id, writer.handle, op, data.as_slice(), &none)
                    },
                    None => {
                        let job = Job::Write {
                            op,
                            topic_name,
                            typename,
                            qos,
                            key_descriptors,
                            data,
                        };
                        self.with_topic(Pending { session_id, request_id, job })
                    },
                }
            },
            WriteMode::WriterId { writer_id, key_bytes, data } => {
                match self.writers.get(writer_id, session_id) {
                    Ok(writer) => operation(
                        request_id,
                        writer.handle,
                        op,
                        data.as_slice(),
                        key_bytes.as_slice(),
                    ),
                    Err(e) => writer_refused(request_id, &e),
                }
            },
        }
    }

    fn handle_subscribe(&mut self, session_id: u64, request_id: u32, payload: &[u8]) -> (outcome:
        Outcome)
        requires
            old(self).wf(),
        ensures
            final(self).wf(),
            (outcome@, final(self)@) == old(self)@.handle(
                session_id,
                MsgType::Subscribe,
                request_id,
                payload@,
            ),
            outcome@.wf(),
    {
        match parse_subscribe(payload) {
            Err(e) => malformed(request_id, &e),
            Ok(sub) => self.with_topic(
                Pending { session_id, request_id, job: Job::Subscribe(sub) },
            ),
        }
    }

    fn handle_create_writer(&mut self, session_id: u64, request_id: u32, payload: &[u8]) -> (
        outcome: Outcome)
        requires
            old(self).wf(),
        ensures
            final(self).wf(),
            (outcome@, final(self)@) == old(self)@.handle(
                session_id,
                MsgType::CreateWriter,
                request_id,
                payload@,
            ),
            outcome@.wf(),
    {
        match parse_create_writer(payload) {
            Err(e) => malformed(request_id, &e),
            Ok(cw) => self.with_topic(
                Pending { session_id, request_id, job: Job::CreateWriter(cw) },
            ),
        }
    }

    fn handle_unsubscribe(&mut self, session_id: u64, request_id: u32, payload: &[u8]) -> (
        outcome: Outcome)
        requires
            old(self).wf(),
        ensures
            final(self).wf(),
            (outcome@, final(self)@) == old(self)@.handle(
                session_id,
                MsgType::Unsubscribe,
                request_id,
                payload@,
            ),
            outcome@.wf(),
    {
        match parse_unsubscribe(payload) {
            Err(e) => malformed(request_id, &e),
            Ok(unsub) => {
                let found = self.readers.unsubscribe(
                    unsub.topic_name.as_str(),
                    unsub.typename.as_str(),
                    session_id,
                );
                if found {
                    accepted(request_id)
                } else {
                    let text = no_subscription(
                        unsub.topic_name.as_str(),
                        unsub.typename.as_str(),
                    );
                    refused(request_id, ErrorCode::ReaderNotFound, text.as_str())
                }
            },
        }
    }

    fn handle_delete_writer(&mut self, session_id: u64, request_id: u32, payload: &[u8]) -> (
        outcome: Outcome)
        requires
            old(self).wf(),
        ensures
            final(self).wf(),
            (outcome@, final(self)@) == old(self)@.handle(
                session_id,
                MsgType::DeleteWriter,
                request_id,
                payload@,
            ),
            outcome@.wf(),
    {
        match parse_delete_writer(payload) {
            Err(e) => malformed(request_id, &e),
            Ok(dw) => match self.writers.delete(dw.writer_id, session_id) {
                Ok(_) => accepted(request_id),
                Err(e) => writer_refused(request_id, &e),
            },
        }
    }

    fn handle_write(&mut self, session_id: u64, request_id: u32, payload: &[u8]) -> (outcome:
        Outcome)
        requires
            old(self).wf(),
        ensures
            final(self).wf(),
            (outcome@, final(self)@) == old(self)@.handle(
                session_id,
                MsgType::Write,
                request_id,
                payload@,
            ),
            outcome@.wf(),
    {
        match parse_write(payload) {
            Err(e) => malformed(request_id, &e),
            Ok(p) => self.do_write_op(session_id, request_id, p.0, WriteOp::Write),
        }
    }

    fn handle_dispose(&mut self, session_id: u64, request_id: u32, payload: &[u8]) -> (outcome:
        Outcome)
        requires
            old(self).wf(),
        ensures
            final(self).wf(),
            (outcome@, final(self)@) == old(self)@.handle(
                session_id,
                MsgType::Dispose,
                request_id,
                payload@,
            ),
            outcome@.wf(),
    {
        match parse_dispose(payload) {
            Err(e) => malformed(request_id, &e),
            Ok(p) => self.do_write_op(session_id, request_id, p.0, WriteOp::Dispose),
        }
    }

    fn handle_write_dispose(&mut self, session_id: u64, request_id: u32, payload: &[u8]) -> (
        outcome: Outcome)
        requires
            old(self).wf(),
        ensures
            final(self).wf(),
            (outcome@, final(self)@) == old(self)@.handle(
                session_id,
                MsgType::WriteDispose,
                request_id,
                payload@,
            ),
            outcome@.wf(),
    {
        match parse_write_dispose(payload) {
            Err(e) => malformed(request_id, &e),
            Ok(p) => self.do_write_op(session_id, request_id, p.0, WriteOp::WriteDispose),
        }
    }

    /// Handle a parsed client message. Where the DDS layer has something to do
    /// for it, the outcome says what, and the message is taken up again when
    /// that is done.
    pub fn handle_message(
        &mut self,
        session_id: u64,
        msg_type: MsgType,
        request_id: u32,
        payload: &[u8],
    ) -> (outcome: Outcome)
        requires
            old(self).wf(),
        ensures
            final(self).wf(),
            (outcome@, final(self)@) == old(self)@.handle(
                session_id,
                msg_type,
                request_id,
                payload@,
            ),
            outcome@.wf(),
    {
        match msg_type {
            MsgType::Subscribe => self.handle_subscribe(session_id, request_id, payload),
            MsgType::Unsubscribe => self.handle_unsubscribe(session_id, request_id, payload),
            MsgType::Write => self.handle_write(session_id, request_id, payload),
            MsgType::Dispose => self.handle_dispose(session_id, request_id, payload),
            MsgType::WriteDispose => self.handle_write_dispose(session_id, request_id, payload),
            MsgType::CreateWriter => self.handle_create_writer(session_id, request_id, payload),
            MsgType::DeleteWriter => self.handle_delete_writer(session_id, request_id, payload),
            MsgType::Ping => {
                let none: [u8; 0] = [];
                assert(none@ =~= Seq::<u8>::empty());
                Outcome::Done(Some(build_message(MsgType::Pong, request_id, &none)))
            },
            _ => {
                let mut text = "unexpected message type: ".to_owned();
                text.append(msg_type.as_str());
                refused(request_id, ErrorCode::InvalidMessage, text.as_str())
            },
        }
    }
}

// ---------------------------------------------------------------------------
// Sessions
// ---------------------------------------------------------------------------

/// The ID of the first session: where the counter of session IDs starts.
pub const FIRST_SESSION_ID: u64 = 1;

/// Takes the next session ID off a counter, which starts at
/// [`FIRST_SESSION_ID`].
pub fn next_session_id(counter: &mut u64) -> (id: u64)
    ensures
        id == *old(counter),
        *final(counter) == next_id(*old(counter)),
{
    let id: u64 = *counter;
    *counter = counter.wrapping_add(1);
    id
}

/// The domain that the bridge joins where the given one is configured: for 0 the
/// default one.
pub open spec fn joined_domain(domain_id: u32) -> u32 {
    if domain_id == 0 {
        0xFFFFFFFF
    } else {
        domain_id
    }
}

/// The domain that the bridge joins: the default one where domain 0 is
/// configured.
pub fn domain_of(config: &Config) -> (domain: u32)
    ensures
        domain == (if config@.domain_id == 0 {
            0xFFFFFFFFu32
        } else {
            config@.domain_id
        }),
        domain == joined_domain(config@.domain_id),
{
    let domain_id: Option<u32> = if config.dds.domain_id == 0 {
        None
    } else {
        Some(config.dds.domain_id)
    };
    domain_to_join(domain_id)
}

/// The bridge as it starts.
pub open spec fn new_bridge(handle: i32, config: ConfigView) -> BridgeView {
    BridgeView {
        participant: ParticipantView { handle, topics: Map::empty() },
        writers: WriterRegistryView {
            writers: Map::empty(),
            sessions: Map::empty(),
            released: Seq::empty(),
        },
        readers: ReaderRegistryView {
            readers: Map::empty(),
            keys: Map::empty(),
            subscriptions: Map::empty(),
            next_reader_id: 1,
            released: Seq::empty(),
        },
        next_writer_id: 1,
        buffers: Map::empty(),
        config,
    }
}

/// The bridge with the participant handle that its creation gave; a negative
/// one is an error code.
pub fn create_bridge(config: Config, handle: i32) -> (r: Result<BridgeInner, DdsError>)
    ensures
        match r {
            Ok(bridge) => handle >= 0 && bridge.wf() && bridge@ == new_bridge(handle, config@),
            Err(e) => handle < 0 && e@ == DdsErrorView::CreateParticipant(handle),
        },
{
    let participant = match DdsParticipant::new(handle) {
        Ok(participant) => participant,
        Err(e) => {
            return Err(e);
        },
    };
    let bridge = BridgeInner {
        participant,
        writers: WriterRegistry::new(),
        readers: ReaderRegistry::new(),
        next_writer_id: 1,
        buffers: HashMap::new(),
        config,
    };
    assert(bridge@.buffers =~= Map::<u64, BufferView>::empty());
    Ok(bridge)
}

/// The message for each sample that is forwarded.
pub open spec fn outbound_of(samples: Seq<ReceivedSampleView>) -> Seq<OutboundView> {
    samples.map_values(
        |s: ReceivedSampleView| OutboundView { topic_name: s.topic_name, data: delivery(s) },
    )
}

/// Whether the message for a sample of a topic fits in a buffer.
pub open spec fn taken_fits(topic_name: Seq<char>, taken: TakenSample) -> bool {
    encode_utf8(topic_name).len() + taken.data@.len() + 12 <= buffer_limit()
}

/// Whether the message for a sample of a topic fits in a buffer.
pub fn sample_fits(topic_name: &str, taken: &TakenSample) -> (fits: bool)
    ensures
        fits == taken_fits(topic_name@, *taken),
{
    let limit: usize = (isize::MAX / 2) as usize;
    let name: usize = topic_name.as_bytes().len();
    let data: usize = taken.data.len();
    name <= limit - 12 && data <= limit - 12 - name
}

impl BridgeView {
    /// The bridge with a new session, that has an empty buffer.
    pub open spec fn session_registered(self, session_id: u64) -> BridgeView {
        BridgeView {
            buffers: self.buffers.insert(
                session_id,
                BufferView::new(self.config.session_buffer_size),
            ),
            ..self
        }
    }

    /// Whether `after` is the bridge when a session has ended: its buffer, its
    /// writers and its subscriptions are gone.
    pub open spec fn session_ended(self, session_id: u64, after: BridgeView) -> bool {
        &&& after.participant == self.participant
        &&& after.writers == self.writers.remove_session(session_id)
        &&& self.readers.session_removed(session_id, after.readers)
        &&& after.next_writer_id == self.next_writer_id
        &&& after.buffers == self.buffers.remove(session_id)
        &&& after.config == self.config
    }

    /// The bridge when samples have been taken from a reader: every session
    /// that is subscribed to it gets their messages, in their order.
    pub open spec fn delivered(self, reader_id: u64, taken: Seq<TakenSample>) -> BridgeView {
        if self.readers.readers.contains_key(reader_id) {
            let reader = self.readers.readers[reader_id];
            let samples = taken.filter_map(forwarding(reader.topic.topic_name));
            BridgeView {
                buffers: fanned_out(self.buffers, reader.subscribers, outbound_of(samples)),
                ..self
            }
        } else {
            self
        }
    }

    /// The bridge when samples have been taken from several readers, one reader
    /// after the other.
    pub open spec fn delivered_round(self, round: Seq<(u64, Vec<TakenSample>)>) -> BridgeView
        decreases round.len(),
    {
        if round.len() == 0 {
            self
        } else {
            self.delivered_round(round.drop_last()).delivered(round.last().0, round.last().1@)
        }
    }

    /// The next message to send to a session, and the bridge after it.
    pub open spec fn next_outbound(self, session_id: u64) -> (Option<Seq<u8>>, BridgeView) {
        if self.buffers.contains_key(session_id) {
            let (next, buffer) = self.buffers[session_id].pop();
            (next, BridgeView { buffers: self.buffers.insert(session_id, buffer), ..self })
        } else {
            (None, self)
        }
    }
}

/// The buffers when messages have been added to those of the given sessions.
pub open spec fn fanned_out(
    buffers: Map<u64, BufferView>,
    sessions: Set<u64>,
    messages: Seq<OutboundView>,
) -> Map<u64, BufferView> {
    Map::new(
        |s: u64| buffers.contains_key(s),
        |s: u64|
            if sessions.contains(s) {
                buffers[s].push_all(messages)
            } else {
                buffers[s]
            },
    )
}

proof fn lemma_forwarded_fit(topic_name: Seq<char>, taken: Seq<TakenSample>)
    requires
        forall|i: int| 0 <= i < taken.len() ==> taken_fits(topic_name, #[trigger] taken[i]),
    ensures
        forall|i: int|
            0 <= i < taken.filter_map(forwarding(topic_name)).len() ==> deliverable(
                #[trigger] taken.filter_map(forwarding(topic_name))[i],
            ),
    decreases taken.len(),
{
    reveal(Seq::filter_map);
    if taken.len() > 0 {
        let shorter = taken.drop_last();
        assert forall|i: int| 0 <= i < shorter.len() implies taken_fits(
            topic_name,
            #[trigger] shorter[i],
        ) by {
            assert(shorter[i] == taken[i]);
        }
        lemma_forwarded_fit(topic_name, shorter);
        let before = shorter.filter_map(forwarding(topic_name));
        let all = taken.filter_map(forwarding(topic_name));
        assert(taken_fits(topic_name, taken[taken.len() - 1]));
        assert forall|i: int| 0 <= i < all.len() implies deliverable(#[trigger] all[i]) by {
            if i < before.len() {
                assert(all[i] == before[i]);
            } else {
                assert(forwarded(topic_name, taken.last()) == Some(all[i]));
            }
        }
    }
}

/// The messages for samples.
fn outbound_messages(samples: &Vec<ReceivedSample>) -> (messages: Vec<OutboundMessage>)
    requires
        forall|i: int| 0 <= i < samples@.len() ==> deliverable(#[trigger] sample_views(samples@)[i]),
    ensures
        outbound_views(messages@) == outbound_of(sample_views(samples@)),
{
    let ghost wanted = outbound_of(sample_views(samples@));
    let mut messages: Vec<OutboundMessage> = Vec::new();
    let mut i: usize = 0;
    while i < samples.len()
        invariant
            i <= samples@.len(),
            forall|j: int|
                0 <= j < samples@.len() ==> deliverable(#[trigger] sample_views(samples@)[j]),
            wanted == outbound_of(sample_views(samples@)),
            outbound_views(messages@) == wanted.take(i as int),
        decreases samples@.len() - i,
    {
        let sample: &ReceivedSample = &samples[i];
        let ghost before = messages@;
        assert(sample_views(samples@)[i as int] == sample@);
        let message = OutboundMessage {
            topic_name: sample.topic_name.clone(),
            data: sample_to_message(sample),
        };
        assert(wanted[i as int] == message@);
        messages.push(message);
        assert(outbound_views(messages@) =~= outbound_views(before).push(message@));
        i = i + 1;
        assert(outbound_views(messages@) =~= wanted.take(i as int));
    }
    assert(wanted.take(i as int) =~= wanted);
    messages
}

/// Adds copies of messages to a buffer.
fn push_copies(buffer: &mut SessionBuffer, messages: &Vec<OutboundMessage>)
    requires
        old(buffer)@.bounded(),
    ensures
        final(buffer)@ == old(buffer)@.push_all(outbound_views(messages@)),
        final(buffer)@.bounded(),
{
    let ghost start = buffer@;
    let ghost all = outbound_views(messages@);
    let mut i: usize = 0;
    assert(all.take(0) =~= Seq::<OutboundView>::empty());
    while i < messages.len()
        invariant
            i <= messages@.len(),
            all == outbound_views(messages@),
            buffer@ == start.push_all(all.take(i as int)),
            buffer@.bounded(),
        decreases messages@.len() - i,
    {
        let message: &OutboundMessage = &messages[i];
        let copy = OutboundMessage {
            topic_name: message.topic_name.clone(),
            data: slice_to_vec(message.data.as_slice()),
        };
        assert(all[i as int] == copy@);
        buffer.push(copy);
        i = i + 1;
        proof {
            let now = all.take(i as int);
            assert(now.drop_last() =~= all.take(i - 1));
            assert(now.last() == copy@);
        }
    }
    assert(all.take(i as int) =~= all);
}

/// The sessions of a set, in some order.
fn session_list(sessions: &HashSet<u64>) -> (list: Vec<u64>)
    ensures
        list@.no_duplicates(),
        forall|s: u64| #[trigger] list@.contains(s) <==> sessions@.contains(s),
{
    let mut list: Vec<u64> = Vec::new();
    for s in it: sessions.iter()
        invariant
            list@.len() == it.index(),
            forall|i: int| 0 <= i < list@.len() ==> list@[i] == *it.seq()[i],
            it.seq() == vstd::std_specs::hash::spec_hash_keys_iter(sessions).remaining(),
    {
        list.push(*s);
    }
    proof {
        let keys = vstd::std_specs::hash::spec_hash_keys_iter(sessions).remaining();
        assert(list@ =~= keys.unref());
        assert forall|s: u64| #[trigger] list@.contains(s) <==> sessions@.contains(s) by {
            assert(list@.to_set().contains(s) <==> list@.contains(s));
        }
    }
    list
}

impl BridgeInner {
    /// The configuration of the bridge.
    pub fn config(&self) -> (config: &Config)
        ensures
            config@ == self@.config,
    {
        &self.config
    }

    /// Registers a session. Its buffer holds as many messages as is
    /// configured.
    pub fn register_session(&mut self, session_id: u64)
        requires
            old(self).wf(),
            old(self)@.config.session_buffer_size > 0,
        ensures
            final(self).wf(),
            final(self)@ == old(self)@.session_registered(session_id),
    {
        let buffer = SessionBuffer::new(self.config.bridge.session_buffer_size);
        self.buffers.insert(session_id, buffer);
        assert(self@.buffers =~= old(self)@.session_registered(session_id).buffers);
    }

    /// Unregister a session and clean up all its DDS resources.
    pub fn unregister_session(&mut self, session_id: u64)
        requires
            old(self).wf(),
        ensures
            final(self).wf(),
            old(self)@.session_ended(session_id, final(self)@),
    {
        self.buffers.remove(&session_id);
        assert(self@.buffers =~= old(self)@.buffers.remove(session_id));
        self.writers.remove_session(session_id);
        self.readers.remove_session(session_id);
    }

    /// The IDs of all readers, in some order.
    pub fn reader_ids(&self) -> (ids: Vec<u64>)
        ensures
            self@.readers.listing(ids@),
    {
        self.readers.reader_ids()
    }

    /// A reader, by its ID.
    pub fn reader(&self, reader_id: u64) -> (r: Option<&DdsReader>)
        ensures
            match r {
                Some(reader) => self@.readers.readers.contains_key(reader_id) && reader@
                    == self@.readers.readers[reader_id],
                None => !self@.readers.readers.contains_key(reader_id),
            },
    {
        self.readers.get(reader_id)
    }

    /// Fans out what one round over the readers has taken, reader by reader.
    pub fn deliver_round(&mut self, round: &Vec<(u64, Vec<TakenSample>)>)
        requires
            old(self).wf(),
            forall|k: int, i: int|
                0 <= k < round@.len() && 0 <= i < round@[k].1@.len()
                    && old(self)@.readers.readers.contains_key(round@[k].0) ==> taken_fits(
                    old(self)@.readers.readers[round@[k].0].topic.topic_name,
                    #[trigger] round@[k].1@[i],
                ),
        ensures
            final(self).wf(),
            final(self)@ == old(self)@.delivered_round(round@),
    {
        let ghost before = self@;
        let mut k: usize = 0;
        assert(round@.take(0) =~= Seq::<(u64, Vec<TakenSample>)>::empty());
        while k < round.len()
            invariant
                self.wf(),
                k <= round@.len(),
                self@.readers == before.readers,
                self@ == before.delivered_round(round@.take(k as int)),
                forall|k: int, i: int|
                    0 <= k < round@.len() && 0 <= i < round@[k].1@.len()
                        && before.readers.readers.contains_key(round@[k].0) ==> taken_fits(
                        before.readers.readers[round@[k].0].topic.topic_name,
                        #[trigger] round@[k].1@[i],
                    ),
            decreases round@.len() - k,
        {
            self.deliver(round[k].0, &round[k].1);
            k = k + 1;
            proof {
                let done = round@.take(k as int);
                assert(done.drop_last() =~= round@.take(k - 1));
                assert(done.last() == round@[k - 1]);
            }
        }
        assert(round@.take(k as int) =~= round@);
    }

    /// Fans samples that were taken from a reader out to the sessions that are
    /// subscribed to it.
    pub fn deliver(&mut self, reader_id: u64, taken: &Vec<TakenSample>)
        requires
            old(self).wf(),
            old(self)@.readers.readers.contains_key(reader_id) ==> forall|i: int|
                0 <= i < taken@.len() ==> taken_fits(
                    old(self)@.readers.readers[reader_id].topic.topic_name,
                    #[trigger] taken@[i],
                ),
        ensures
            final(self).wf(),
            final(self)@ == old(self)@.delivered(reader_id, taken@),
    {
        let reader: &DdsReader = match self.readers.get(reader_id) {
            Some(reader) => reader,
            None => {
                return;
            },
        };
        let ghost before = self@;
        let ghost view = reader@;
        let samples = reader.take_samples(taken);
        proof {
            lemma_forwarded_fit(view.topic.topic_name, taken@);
        }
        let messages = outbound_messages(&samples);
        let sessions = session_list(&reader.subscribers);
        let ghost out = outbound_views(messages@);
        let mut i: usize = 0;
        assert(self@.buffers =~= fanned_out(before.buffers, sessions@.take(0).to_set(), out));
        while i < sessions.len()
            invariant
                self.wf(),
                i <= sessions@.len(),
                sessions@.no_duplicates(),
                out == outbound_views(messages@),
                self@.buffers == fanned_out(
                    before.buffers,
                    sessions@.take(i as int).to_set(),
                    out,
                ),
                self@ == (BridgeView { buffers: self@.buffers, ..before }),
            decreases sessions@.len() - i,
        {
            let session_id: u64 = sessions[i];
            let ghost start = self@;
            let ghost done = sessions@.take(i as int);
            proof {
                lemma_take_push(sessions@, i as int);
                if done.contains(session_id) {
                    let k = choose|k: int| 0 <= k < done.len() && done[k] == session_id;
                    assert(sessions@[k] == sessions@[i as int]);
                }
            }
            match self.buffers.remove(&session_id) {
                Some(mut buffer) => {
                    assert(buffer@ == start.buffers[session_id]);
                    push_copies(&mut buffer, &messages);
                    self.buffers.insert(session_id, buffer);
                },
                None => {
                    assert(!start.buffers.contains_key(session_id));
                },
            }
            i = i + 1;
            proof {
                let now = sessions@.take(i as int);
                let target = fanned_out(before.buffers, now.to_set(), out);
                assert forall|s: u64|
                    #![trigger self@.buffers.dom().contains(s)]
                    #![trigger target.dom().contains(s)]
                    self@.buffers.dom().contains(s) == target.dom().contains(s) && (
                    target.dom().contains(s) ==> self@.buffers[s] == target[s]) by {
                    assert(now.to_set().contains(s) <==> now.contains(s));
                    assert(done.to_set().contains(s) <==> done.contains(s));
                    assert(now.contains(s) <==> done.contains(s) || s == session_id);
                    if s != session_id {
                        assert(self@.buffers.dom().contains(s) == start.buffers.dom().contains(s));
                        if self@.buffers.dom().contains(s) {
                            assert(self@.buffers[s] == start.buffers[s]);
                        }
                    }
                }
                assert(self@.buffers =~= target);
            }
        }
        proof {
            assert(sessions@.take(i as int) =~= sessions@);
            assert(sessions@.to_set() =~= view.subscribers) by {
                assert forall|s: u64| sessions@.to_set().contains(s) <==> view.subscribers.contains(
                    s,
                ) by {
                    assert(sessions@.contains(s) <==> view.subscribers.contains(s));
                }
            }
        }
    }

    /// Takes the next message to send to a session.
    pub fn next_outbound(&mut self, session_id: u64) -> (next: Option<Vec<u8>>)
        requires
            old(self).wf(),
        ensures
            final(self).wf(),
            (optional_bytes(next), final(self)@) == old(self)@.next_outbound(session_id),
    {
        match self.buffers.remove(&session_id) {
            Some(mut buffer) => {
                let next = buffer.pop();
                self.buffers.insert(session_id, buffer);
                assert(self@.buffers =~= old(self)@.next_outbound(session_id).1.buffers);
                next
            },
            None => {
                assert(self@.buffers =~= old(self)@.buffers);
                None
            },
        }
    }

    /// Takes the handles of writers and readers that are no longer used and are
    /// still to be deleted.
    pub fn take_released(&mut self) -> (handles: Vec<i32>)
        requires
            old(self).wf(),
        ensures
            final(self).wf(),
            handles@ == old(self)@.writers.released + old(self)@.readers.released,
            final(self)@ == (BridgeView {
                writers: WriterRegistryView { released: Seq::empty(), ..old(self)@.writers },
                readers: ReaderRegistryView { released: Seq::empty(), ..old(self)@.readers },
                ..old(self)@
            }),
    {
        let mut handles = self.writers.take_released();
        let mut more = self.readers.take_released();
        handles.append(&mut more);
        handles
    }
}

} // verus!
