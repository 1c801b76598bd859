//! Requests from clients that wait for the DDS layer, and what they ask of it.
use vstd::prelude::*;

use crate::dds::participant::{Topic, TopicEntityView};
use crate::dds::qos_handle::{setting_views, QosHandle, QosSettingView};
use crate::dds::sertype::{OpaqueSertype, SampleWrapper};
use crate::dds::writer::WriteOp;
use crate::bridge::reply::optional_bytes;
use crate::protocol::codec::{KeyDescriptors, KeyField};
use crate::protocol::payload::{CreateWriterPayload, EndpointView, SubscribePayload};
use crate::qos::policy::{QosPolicyView, QosSet};

verus! {

/// What a client has asked for.
#[allow(inconsistent_fields)]
pub enum Job {
    Subscribe(SubscribePayload),
    CreateWriter(CreateWriterPayload),
    Write {
        op: WriteOp,
        topic_name: String,
        typename: String,
        qos: QosSet,
        key_descriptors: KeyDescriptors,
        data: Vec<u8>,
    },
}

/// The mathematical value of a [`Job`].
#[allow(inconsistent_fields)]
#[verifier::ext_equal]
pub enum JobView {
    Subscribe(EndpointView),
    CreateWriter(EndpointView),
    Write {
        op: WriteOp,
        topic_name: Seq<char>,
        typename: Seq<char>,
        qos: Seq<QosPolicyView>,
        key_descriptors: Seq<KeyField>,
        data: Seq<u8>,
    },
}

impl View for Job {
    type V = JobView;

    open spec fn view(&self) -> JobView {
        match *self {
            Job::Subscribe(p) => JobView::Subscribe(p@),
            Job::CreateWriter(p) => JobView::CreateWriter(p@),
            Job::Write { op, topic_name, typename, qos, key_descriptors, data } => JobView::Write {
                op,
                topic_name: topic_name@,
                typename: typename@,
                qos: qos@,
                key_descriptors: key_descriptors@,
                data: data@,
            },
        }
    }
}

impl JobView {
    /// The topic that the job is about.
    pub open spec fn topic_name(self) -> Seq<char> {
        match self {
            JobView::Subscribe(p) => p.topic_name,
            JobView::CreateWriter(p) => p.topic_name,
            JobView::Write { topic_name, .. } => topic_name,
        }
    }

    /// The type of the topic.
    pub open spec fn typename(self) -> Seq<char> {
        match self {
            JobView::Subscribe(p) => p.typename,
            JobView::CreateWriter(p) => p.typename,
            JobView::Write { typename, .. } => typename,
        }
    }

    /// The QoS policies of the reader or the writer.
    pub open spec fn qos(self) -> Seq<QosPolicyView> {
        match self {
            JobView::Subscribe(p) => p.qos,
            JobView::CreateWriter(p) => p.qos,
            JobView::Write { qos, .. } => qos,
        }
    }

    /// The key fields of the topic.
    pub open spec fn key_descriptors(self) -> Seq<KeyField> {
        match self {
            JobView::Subscribe(p) => p.key_descriptors,
            JobView::CreateWriter(p) => p.key_descriptors,
            JobView::Write { key_descriptors, .. } => key_descriptors,
        }
    }

    /// Whether the topic has a key. A write by topic name does not say; its
    /// topic has a key if it has key fields.
    pub open spec fn is_keyed(self) -> bool {
        match self {
            JobView::Subscribe(p) => p.is_keyed,
            JobView::CreateWriter(p) => p.is_keyed,
            JobView::Write { key_descriptors, .. } => key_descriptors.len() > 0,
        }
    }
}

impl Job {
    pub fn topic_name(&self) -> (name: &str)
        ensures
            name@ == self@.topic_name(),
    {
        match self {
            Job::Subscribe(p) => p.topic_name.as_str(),
            Job::CreateWriter(p) => p.topic_name.as_str(),
            Job::Write { topic_name, .. } => topic_name.as_str(),
        }
    }

    pub fn typename(&self) -> (name: &str)
        ensures
            name@ == self@.typename(),
    {
        match self {
            Job::Subscribe(p) => p.typename.as_str(),
            Job::CreateWriter(p) => p.typename.as_str(),
            Job::Write { typename, .. } => typename.as_str(),
        }
    }

    pub fn qos(&self) -> (qos: &QosSet)
        ensures
            qos@ == self@.qos(),
    {
        match self {
            Job::Subscribe(p) => &p.qos,
            Job::CreateWriter(p) => &p.qos,
            Job::Write { qos, .. } => qos,
        }
    }

    pub fn key_descriptors(&self) -> (keys: &KeyDescriptors)
        ensures
            keys@ == self@.key_descriptors(),
    {
        match self {
            Job::Subscribe(p) => &p.key_descriptors,
            Job::CreateWriter(p) => &p.key_descriptors,
            Job::Write { key_descriptors, .. } => key_descriptors,
        }
    }

    pub fn is_keyed(&self) -> (keyed: bool)
        ensures
            keyed == self@.is_keyed(),
    {
        match self {
            Job::Subscribe(p) => p.is_keyed,
            Job::CreateWriter(p) => p.is_keyed,
            Job::Write { key_descriptors, .. } => !key_descriptors.keys.is_empty(),
        }
    }
}

/// A request that waits for the DDS layer.
pub struct Pending {
    pub session_id: u64,
    pub request_id: u32,
    pub job: Job,
}

/// The mathematical value of a [`Pending`] request.
#[verifier::ext_equal]
pub struct PendingView {
    pub session_id: u64,
    pub request_id: u32,
    pub job: JobView,
}

impl View for Pending {
    type V = PendingView;

    open spec fn view(&self) -> PendingView {
        PendingView { session_id: self.session_id, request_id: self.request_id, job: self.job@ }
    }
}

/// A topic to create.
pub struct TopicRequest {
    pub participant: i32,
    pub topic_name: String,
    pub sertype: OpaqueSertype,
}

/// The mathematical value of a [`TopicRequest`].
#[verifier::ext_equal]
pub struct TopicRequestView {
    pub participant: i32,
    pub topic_name: Seq<char>,
    pub typename: Seq<char>,
    pub key_fields: Seq<KeyField>,
    pub no_key: bool,
    pub allowed_data_representation: u32,
}

impl View for TopicRequest {
    type V = TopicRequestView;

    open spec fn view(&self) -> TopicRequestView {
        TopicRequestView {
            participant: self.participant,
            topic_name: self.topic_name@,
            typename: self.sertype.typename@,
            key_fields: self.sertype.key_fields@,
            no_key: self.sertype.no_key,
            allowed_data_representation: self.sertype.allowed_data_representation,
        }
    }
}

/// A reader or a writer to create, with the defaults where it has no QoS.
pub struct EntityRequest {
    pub participant: i32,
    pub topic: i32,
    pub qos: Option<QosHandle>,
}

/// The mathematical value of an [`EntityRequest`].
#[verifier::ext_equal]
pub struct EntityRequestView {
    pub participant: i32,
    pub topic: i32,
    pub settings: Option<Seq<QosSettingView>>,
}

impl View for EntityRequest {
    type V = EntityRequestView;

    open spec fn view(&self) -> EntityRequestView {
        EntityRequestView {
            participant: self.participant,
            topic: self.topic,
            settings: match self.qos {
                Some(h) => Some(setting_views(h.settings@)),
                None => None,
            },
        }
    }
}

/// An operation to carry out on a writer, for a request.
pub struct OpRequest {
    pub request_id: u32,
    pub writer: i32,
    pub op: WriteOp,
    pub sample: SampleWrapper,
}

/// The mathematical value of an [`OpRequest`].
#[verifier::ext_equal]
pub struct OpRequestView {
    pub request_id: u32,
    pub writer: i32,
    pub op: WriteOp,
    pub data: Seq<u8>,
    pub key_bytes: Seq<u8>,
}

impl View for OpRequest {
    type V = OpRequestView;

    open spec fn view(&self) -> OpRequestView {
        OpRequestView {
            request_id: self.request_id,
            writer: self.writer,
            op: self.op,
            data: self.sample.data@,
            key_bytes: self.sample.key_data@,
        }
    }
}

/// Where the handling of a request stands: at its end, or at something that the
/// DDS layer has to do.
pub enum Outcome {
    /// The request is answered, or cannot be.
    Done(Option<Vec<u8>>),
    CreateTopic(TopicRequest, Pending),
    CreateReader(EntityRequest, Pending, Topic),
    CreateWriter(EntityRequest, Pending, Topic),
    Perform(OpRequest),
}

/// The mathematical value of an [`Outcome`].
#[verifier::ext_equal]
pub enum OutcomeView {
    Done(Option<Seq<u8>>),
    CreateTopic(TopicRequestView, PendingView),
    CreateReader(EntityRequestView, PendingView, TopicEntityView),
    CreateWriter(EntityRequestView, PendingView, TopicEntityView),
    Perform(OpRequestView),
}

impl View for Outcome {
    type V = OutcomeView;

    open spec fn view(&self) -> OutcomeView {
        match *self {
            Outcome::Done(reply) => OutcomeView::Done(optional_bytes(reply)),
            Outcome::CreateTopic(r, p) => OutcomeView::CreateTopic(r@, p@),
            Outcome::CreateReader(r, p, t) => OutcomeView::CreateReader(r@, p@, t@),
            Outcome::CreateWriter(r, p, t) => OutcomeView::CreateWriter(r@, p@, t@),
            Outcome::Perform(r) => OutcomeView::Perform(r@),
        }
    }
}

impl OutcomeView {
    /// Whether a request that waits can be taken up again: a reader is created
    /// for a subscription and a writer for the other jobs.
    pub open spec fn wf(self) -> bool {
        match self {
            OutcomeView::Done(_) => true,
            OutcomeView::CreateTopic(_, _) => true,
            OutcomeView::CreateReader(_, p, _) => p.job is Subscribe,
            OutcomeView::CreateWriter(_, p, _) => p.job !is Subscribe,
            OutcomeView::Perform(_) => true,
        }
    }
}

} // verus!
