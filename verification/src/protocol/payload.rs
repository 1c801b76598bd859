//! The payloads of messages: what they hold, how they are read and how they
//! are written.
use bytes::BytesMut;
use vstd::prelude::*;
use vstd::slice::{slice_subrange, slice_to_vec};

use crate::protocol::codec::{
    bool_byte, check_no_trailing, key_descriptors_bytes, parse_key_descriptors, read_bool,
    read_string, serialize_key_descriptors, spec_check_no_trailing, spec_parse_key_descriptors,
    spec_read_bool, spec_read_string, string_bytes, write_string, KeyDescriptors, KeyField,
};
use crate::protocol::error::{result_view, ProtocolError, ProtocolErrorView};
use crate::qos::codec::{parse_qos, qos_bytes, serialize_qos, spec_parse_qos};
use crate::qos::policy::{QosPolicyView, QosSet};
use crate::wire::{
    advance, buffer_limit, contents, get_u16_le, get_u32_le, get_u64_le, le16, le16_bytes, le32,
    le32_bytes, le64, le64_bytes, low_u32, new_buffer, put_slice, put_u16_le, put_u32_le,
    put_u64_le, put_u8, slice_from, u32_le_at,
};

verus! {

broadcast use crate::wire::group_le_lengths;

// ---------------------------------------------------------------------------
// Client -> Bridge
// ---------------------------------------------------------------------------

/// The payload of a SUBSCRIBE message: topic name, type name, QoS, one byte that
/// says whether the topic is keyed, key descriptors.
///
/// The keyed byte stands between the QoS and the key descriptors, and is never
/// left out. It is a field of its own: a keyed topic may come with no key
/// descriptors.
#[derive(Debug, PartialEq)]
pub struct SubscribePayload {
    pub topic_name: String,
    pub typename: String,
    pub qos: QosSet,
    pub is_keyed: bool,
    pub key_descriptors: KeyDescriptors,
}

/// The payload of an UNSUBSCRIBE message: topic name, type name.
#[derive(Debug, PartialEq)]
pub struct UnsubscribePayload {
    pub topic_name: String,
    pub typename: String,
}

/// The payload of a CREATE_WRITER message, laid out as that of a SUBSCRIBE
/// message: topic name, type name, QoS, the keyed byte, key descriptors.
#[derive(Debug, PartialEq)]
pub struct CreateWriterPayload {
    pub topic_name: String,
    pub typename: String,
    pub qos: QosSet,
    pub is_keyed: bool,
    pub key_descriptors: KeyDescriptors,
}

/// The payload of a DELETE_WRITER message: the writer ID, in four bytes.
#[derive(Debug, Clone, Copy, PartialEq)]
pub struct DeleteWriterPayload {
    pub writer_id: u32,
}

/// The payload of a WRITE, DISPOSE or WRITE_DISPOSE message: one byte for the
/// mode, and what the mode has behind it.
#[allow(inconsistent_fields)]
#[derive(Debug, PartialEq)]
pub enum WriteMode {
    /// Mode 0x00: topic name, type name, QoS, key descriptors, and the data as
    /// the remaining bytes. There is no keyed byte: the topic is keyed if there
    /// are key descriptors.
    TopicName {
        topic_name: String,
        typename: String,
        qos: QosSet,
        key_descriptors: KeyDescriptors,
        data: Vec<u8>,
    },
    /// Mode 0x01: the writer ID in four bytes, the length of the key bytes in
    /// four bytes, the serialized key of the sample, and the data as the
    /// remaining bytes. The length is never left out; a sample without a key has
    /// length 0.
    WriterId { writer_id: u32, key_bytes: Vec<u8>, data: Vec<u8> },
}

#[derive(Debug, PartialEq)]
pub struct WritePayload(pub WriteMode);

#[derive(Debug, PartialEq)]
pub struct DisposePayload(pub WriteMode);

#[derive(Debug, PartialEq)]
pub struct WriteDisposePayload(pub WriteMode);

/// What a request for a reader or a writer says.
#[verifier::ext_equal]
pub struct EndpointView {
    pub topic_name: Seq<char>,
    pub typename: Seq<char>,
    pub qos: Seq<QosPolicyView>,
    pub is_keyed: bool,
    pub key_descriptors: Seq<KeyField>,
}

/// The topic and the type that a subscription is for.
#[verifier::ext_equal]
pub struct TopicView {
    pub topic_name: Seq<char>,
    pub typename: Seq<char>,
}

/// The mathematical value of a [`WriteMode`].
#[allow(inconsistent_fields)]
#[verifier::ext_equal]
pub enum WriteModeView {
    TopicName {
        topic_name: Seq<char>,
        typename: Seq<char>,
        qos: Seq<QosPolicyView>,
        key_descriptors: Seq<KeyField>,
        data: Seq<u8>,
    },
    WriterId { writer_id: u32, key_bytes: Seq<u8>, data: Seq<u8> },
}

impl View for SubscribePayload {
    type V = EndpointView;

    open spec fn view(&self) -> EndpointView {
        EndpointView {
            topic_name: self.topic_name@,
            typename: self.typename@,
            qos: self.qos@,
            is_keyed: self.is_keyed,
            key_descriptors: self.key_descriptors@,
        }
    }
}

impl View for CreateWriterPayload {
    type V = EndpointView;

    open spec fn view(&self) -> EndpointView {
        EndpointView {
            topic_name: self.topic_name@,
            typename: self.typename@,
            qos: self.qos@,
            is_keyed: self.is_keyed,
            key_descriptors: self.key_descriptors@,
        }
    }
}

impl View for UnsubscribePayload {
    type V = TopicView;

    open spec fn view(&self) -> TopicView {
        TopicView { topic_name: self.topic_name@, typename: self.typename@ }
    }
}

impl View for DeleteWriterPayload {
    type V = u32;

    open spec fn view(&self) -> u32 {
        self.writer_id
    }
}

impl View for WriteMode {
    type V = WriteModeView;

    open spec fn view(&self) -> WriteModeView {
        match *self {
            WriteMode::TopicName { topic_name, typename, qos, key_descriptors, data } => {
                WriteModeView::TopicName {
                    topic_name: topic_name@,
                    typename: typename@,
                    qos: qos@,
                    key_descriptors: key_descriptors@,
                    data: data@,
                }
            },
            WriteMode::WriterId { writer_id, key_bytes, data } => {
                WriteModeView::WriterId { writer_id, key_bytes: key_bytes@, data: data@ }
            },
        }
    }
}

impl View for WritePayload {
    type V = WriteModeView;

    open spec fn view(&self) -> WriteModeView {
        self.0@
    }
}

impl View for DisposePayload {
    type V = WriteModeView;

    open spec fn view(&self) -> WriteModeView {
        self.0@
    }
}

impl View for WriteDisposePayload {
    type V = WriteModeView;

    open spec fn view(&self) -> WriteModeView {
        self.0@
    }
}

impl Clone for SubscribePayload {
    fn clone(&self) -> (copy: Self)
        ensures
            copy@ == self@,
    {
        SubscribePayload {
            topic_name: self.topic_name.clone(),
            typename: self.typename.clone(),
            qos: self.qos.clone(),
            is_keyed: self.is_keyed,
            key_descriptors: self.key_descriptors.clone(),
        }
    }
}

impl Clone for CreateWriterPayload {
    fn clone(&self) -> (copy: Self)
        ensures
            copy@ == self@,
    {
        CreateWriterPayload {
            topic_name: self.topic_name.clone(),
            typename: self.typename.clone(),
            qos: self.qos.clone(),
            is_keyed: self.is_keyed,
            key_descriptors: self.key_descriptors.clone(),
        }
    }
}

impl Clone for UnsubscribePayload {
    fn clone(&self) -> (copy: Self)
        ensures
            copy@ == self@,
    {
        UnsubscribePayload {
            topic_name: self.topic_name.clone(),
            typename: self.typename.clone(),
        }
    }
}

impl Clone for WriteMode {
    fn clone(&self) -> (copy: Self)
        ensures
            copy@ == self@,
    {
        match self {
            WriteMode::TopicName { topic_name, typename, qos, key_descriptors, data } => {
                WriteMode::TopicName {
                    topic_name: topic_name.clone(),
                    typename: typename.clone(),
                    qos: qos.clone(),
                    key_descriptors: key_descriptors.clone(),
                    data: slice_to_vec(data.as_slice()),
                }
            },
            WriteMode::WriterId { writer_id, key_bytes, data } => WriteMode::WriterId {
                writer_id: *writer_id,
                key_bytes: slice_to_vec(key_bytes.as_slice()),
                data: slice_to_vec(data.as_slice()),
            },
        }
    }
}

impl Clone for WritePayload {
    fn clone(&self) -> (copy: Self)
        ensures
            copy@ == self@,
    {
        WritePayload(self.0.clone())
    }
}

impl Clone for DisposePayload {
    fn clone(&self) -> (copy: Self)
        ensures
            copy@ == self@,
    {
        DisposePayload(self.0.clone())
    }
}

impl Clone for WriteDisposePayload {
    fn clone(&self) -> (copy: Self)
        ensures
            copy@ == self@,
    {
        WriteDisposePayload(self.0.clone())
    }
}

// ---------------------------------------------------------------------------
// Bridge -> Client
// ---------------------------------------------------------------------------

#[derive(Debug, PartialEq)]
pub struct DataPayload {
    pub topic_name: String,
    pub source_timestamp: u64,
    pub data: Vec<u8>,
}

#[derive(Debug, PartialEq)]
pub struct DataDisposedPayload {
    pub topic_name: String,
    pub source_timestamp: u64,
    pub key_data: Vec<u8>,
}

#[derive(Debug, PartialEq)]
pub struct DataNoWritersPayload {
    pub topic_name: String,
    pub key_data: Vec<u8>,
}

/// What a sample says: its topic, when it was written and its bytes.
#[verifier::ext_equal]
pub struct SampleView {
    pub topic_name: Seq<char>,
    pub source_timestamp: u64,
    pub data: Seq<u8>,
}

/// What is said of an instance without writers.
#[verifier::ext_equal]
pub struct NoWritersView {
    pub topic_name: Seq<char>,
    pub key_data: Seq<u8>,
}

impl View for DataPayload {
    type V = SampleView;

    open spec fn view(&self) -> SampleView {
        SampleView {
            topic_name: self.topic_name@,
            source_timestamp: self.source_timestamp,
            data: self.data@,
        }
    }
}

impl Clone for DataPayload {
    fn clone(&self) -> (copy: Self)
        ensures
            copy@ == self@,
    {
        DataPayload {
            topic_name: self.topic_name.clone(),
            source_timestamp: self.source_timestamp,
            data: slice_to_vec(self.data.as_slice()),
        }
    }
}

impl View for DataDisposedPayload {
    type V = SampleView;

    open spec fn view(&self) -> SampleView {
        SampleView {
            topic_name: self.topic_name@,
            source_timestamp: self.source_timestamp,
            data: self.key_data@,
        }
    }
}

impl Clone for DataDisposedPayload {
    fn clone(&self) -> (copy: Self)
        ensures
            copy@ == self@,
    {
        DataDisposedPayload {
            topic_name: self.topic_name.clone(),
            source_timestamp: self.source_timestamp,
            key_data: slice_to_vec(self.key_data.as_slice()),
        }
    }
}

impl View for DataNoWritersPayload {
    type V = NoWritersView;

    open spec fn view(&self) -> NoWritersView {
        NoWritersView { topic_name: self.topic_name@, key_data: self.key_data@ }
    }
}

impl Clone for DataNoWritersPayload {
    fn clone(&self) -> (copy: Self)
        ensures
            copy@ == self@,
    {
        DataNoWritersPayload {
            topic_name: self.topic_name.clone(),
            key_data: slice_to_vec(self.key_data.as_slice()),
        }
    }
}

#[derive(Debug, Clone, Copy, PartialEq, Eq, Structural)]
pub enum ErrorCode {
    InvalidMessage,
    TopicNotFound,
    DdsError,
    WriterNotFound,
    ReaderNotFound,
    InvalidQos,
    AlreadyExists,
    InternalError,
    BufferOverflow,
}

impl View for ErrorCode {
    type V = ErrorCode;

    open spec fn view(&self) -> ErrorCode {
        *self
    }
}

impl ErrorCode {
    /// The number that stands for the error.
    pub open spec fn code(self) -> u16 {
        match self {
            ErrorCode::InvalidMessage => 0x0001,
            ErrorCode::TopicNotFound => 0x0002,
            ErrorCode::DdsError => 0x0003,
            ErrorCode::WriterNotFound => 0x0004,
            ErrorCode::ReaderNotFound => 0x0005,
            ErrorCode::InvalidQos => 0x0006,
            ErrorCode::AlreadyExists => 0x0007,
            ErrorCode::InternalError => 0x0008,
            ErrorCode::BufferOverflow => 0x0009,
        }
    }

    /// The error that a number stands for.
    pub open spec fn spec_from_u16(val: u16) -> Result<ErrorCode, ProtocolErrorView> {
        if val == 0x0001 {
            Ok(ErrorCode::InvalidMessage)
        } else if val == 0x0002 {
            Ok(ErrorCode::TopicNotFound)
        } else if val == 0x0003 {
            Ok(ErrorCode::DdsError)
        } else if val == 0x0004 {
            Ok(ErrorCode::WriterNotFound)
        } else if val == 0x0005 {
            Ok(ErrorCode::ReaderNotFound)
        } else if val == 0x0006 {
            Ok(ErrorCode::InvalidQos)
        } else if val == 0x0007 {
            Ok(ErrorCode::AlreadyExists)
        } else if val == 0x0008 {
            Ok(ErrorCode::InternalError)
        } else if val == 0x0009 {
            Ok(ErrorCode::BufferOverflow)
        } else {
            Err(ProtocolErrorView::InvalidErrorCode(val))
        }
    }

    /// Reads an error off its number.
    pub fn from_u16(val: u16) -> (r: Result<Self, ProtocolError>)
        ensures
            result_view(r) == ErrorCode::spec_from_u16(val),
    {
        let code: ErrorCode = match val {
            0x0001 => ErrorCode::InvalidMessage,
            0x0002 => ErrorCode::TopicNotFound,
            0x0003 => ErrorCode::DdsError,
            0x0004 => ErrorCode::WriterNotFound,
            0x0005 => ErrorCode::ReaderNotFound,
            0x0006 => ErrorCode::InvalidQos,
            0x0007 => ErrorCode::AlreadyExists,
            0x0008 => ErrorCode::InternalError,
            0x0009 => ErrorCode::BufferOverflow,
            _ => {
                return Err(ProtocolError::InvalidErrorCode(val));
            },
        };
        Ok(code)
    }

    /// The number that stands for the error.
    pub fn to_u16(&self) -> (val: u16)
        ensures
            val == self.code(),
    {
        match self {
            ErrorCode::InvalidMessage => 0x0001,
            ErrorCode::TopicNotFound => 0x0002,
            ErrorCode::DdsError => 0x0003,
            ErrorCode::WriterNotFound => 0x0004,
            ErrorCode::ReaderNotFound => 0x0005,
            ErrorCode::InvalidQos => 0x0006,
            ErrorCode::AlreadyExists => 0x0007,
            ErrorCode::InternalError => 0x0008,
            ErrorCode::BufferOverflow => 0x0009,
        }
    }
}

/// A number stands for an error if and only if it is the code of that error.
pub proof fn law_error_codes(val: u16, code: ErrorCode)
    ensures
        ErrorCode::spec_from_u16(val) == Ok::<ErrorCode, ProtocolErrorView>(code) <==> code.code()
            == val,
{
}

#[derive(Debug, PartialEq)]
pub struct ErrorPayload {
    pub error_code: ErrorCode,
    pub error_message: String,
}

/// The mathematical value of an [`ErrorPayload`].
#[verifier::ext_equal]
pub struct ErrorPayloadView {
    pub error_code: ErrorCode,
    pub error_message: Seq<char>,
}

impl View for ErrorPayload {
    type V = ErrorPayloadView;

    open spec fn view(&self) -> ErrorPayloadView {
        ErrorPayloadView { error_code: self.error_code, error_message: self.error_message@ }
    }
}

impl Clone for ErrorPayload {
    fn clone(&self) -> (copy: Self)
        ensures
            copy@ == self@,
    {
        ErrorPayload {
            error_code: self.error_code,
            error_message: self.error_message.clone(),
        }
    }
}

// ---------------------------------------------------------------------------
// Reading
// ---------------------------------------------------------------------------

/// What a payload says as a request for a reader or a writer.
pub open spec fn spec_parse_endpoint(s: Seq<u8>) -> Result<EndpointView, ProtocolErrorView> {
    match spec_read_string(s) {
        (Err(e), _) => Err(e),
        (Ok(topic_name), s1) => match spec_read_string(s1) {
            (Err(e), _) => Err(e),
            (Ok(typename), s2) => match spec_parse_qos(s2) {
                (Err(e), _) => Err(e),
                (Ok(qos), s3) => match spec_read_bool(s3) {
                    (Err(e), _) => Err(e),
                    (Ok(is_keyed), s4) => match spec_parse_key_descriptors(s4) {
                        (Err(e), _) => Err(e),
                        (Ok(key_descriptors), s5) => match spec_check_no_trailing(s5) {
                            Err(e) => Err(e),
                            Ok(_) => Ok(
                                EndpointView {
                                    topic_name,
                                    typename,
                                    qos,
                                    is_keyed,
                                    key_descriptors,
                                },
                            ),
                        },
                    },
                },
            },
        },
    }
}

/// What a payload says as the end of a subscription.
pub open spec fn spec_parse_unsubscribe(s: Seq<u8>) -> Result<TopicView, ProtocolErrorView> {
    match spec_read_string(s) {
        (Err(e), _) => Err(e),
        (Ok(topic_name), s1) => match spec_read_string(s1) {
            (Err(e), _) => Err(e),
            (Ok(typename), s2) => match spec_check_no_trailing(s2) {
                Err(e) => Err(e),
                Ok(_) => Ok(TopicView { topic_name, typename }),
            },
        },
    }
}

/// What the bytes behind the mode byte say as a write by topic name.
pub open spec fn spec_parse_topic_mode(s: Seq<u8>) -> Result<WriteModeView, ProtocolErrorView> {
    match spec_read_string(s) {
        (Err(e), _) => Err(e),
        (Ok(topic_name), s1) => match spec_read_string(s1) {
            (Err(e), _) => Err(e),
            (Ok(typename), s2) => match spec_parse_qos(s2) {
                (Err(e), _) => Err(e),
                (Ok(qos), s3) => match spec_parse_key_descriptors(s3) {
                    (Err(e), _) => Err(e),
                    (Ok(key_descriptors), data) => Ok(
                        WriteModeView::TopicName {
                            topic_name,
                            typename,
                            qos,
                            key_descriptors,
                            data,
                        },
                    ),
                },
            },
        },
    }
}

/// What the bytes behind the mode byte say as a write by writer id.
pub open spec fn spec_parse_writer_mode(s: Seq<u8>) -> Result<WriteModeView, ProtocolErrorView> {
    if s.len() < 8 {
        Err(ProtocolErrorView::Truncated { expected: 8, got: s.len() as int })
    } else {
        let key_len = le32(s.skip(4));
        let rest = s.skip(8);
        if rest.len() < key_len {
            Err(ProtocolErrorView::Truncated { expected: key_len, got: rest.len() as int })
        } else {
            Ok(
                WriteModeView::WriterId {
                    writer_id: le32(s) as u32,
                    key_bytes: rest.take(key_len),
                    data: rest.skip(key_len),
                },
            )
        }
    }
}

/// What a payload says as a write.
pub open spec fn spec_parse_write_mode(s: Seq<u8>) -> Result<WriteModeView, ProtocolErrorView> {
    if s.len() == 0 {
        Err(ProtocolErrorView::Truncated { expected: 1, got: 0 })
    } else if s[0] == 0x00 {
        spec_parse_topic_mode(s.skip(1))
    } else if s[0] == 0x01 {
        spec_parse_writer_mode(s.skip(1))
    } else {
        Err(ProtocolErrorView::InvalidWriteMode(s[0]))
    }
}

/// What a payload says as the deletion of a writer.
pub open spec fn spec_parse_delete_writer(s: Seq<u8>) -> Result<u32, ProtocolErrorView> {
    if s.len() < 4 {
        Err(ProtocolErrorView::Truncated { expected: 4, got: s.len() as int })
    } else {
        match spec_check_no_trailing(s.skip(4)) {
            Err(e) => Err(e),
            Ok(_) => Ok(le32(s) as u32),
        }
    }
}

/// What a payload says as an error.
pub open spec fn spec_parse_error(s: Seq<u8>) -> Result<ErrorPayloadView, ProtocolErrorView> {
    if s.len() < 2 {
        Err(ProtocolErrorView::Truncated { expected: 2, got: s.len() as int })
    } else {
        match ErrorCode::spec_from_u16(le16(s) as u16) {
            Err(e) => Err(e),
            Ok(error_code) => match spec_read_string(s.skip(2)) {
                (Err(e), _) => Err(e),
                (Ok(error_message), rest) => match spec_check_no_trailing(rest) {
                    Err(e) => Err(e),
                    Ok(_) => Ok(ErrorPayloadView { error_code, error_message }),
                },
            },
        }
    }
}

/// What a payload says as a sample.
pub open spec fn spec_parse_sample(s: Seq<u8>) -> Result<SampleView, ProtocolErrorView> {
    match spec_read_string(s) {
        (Err(e), _) => Err(e),
        (Ok(topic_name), s1) => if s1.len() < 8 {
            Err(ProtocolErrorView::Truncated { expected: 8, got: s1.len() as int })
        } else {
            Ok(
                SampleView {
                    topic_name,
                    source_timestamp: le64(s1) as u64,
                    data: s1.skip(8),
                },
            )
        },
    }
}

/// What a payload says of an instance without writers.
pub open spec fn spec_parse_no_writers(s: Seq<u8>) -> Result<NoWritersView, ProtocolErrorView> {
    match spec_read_string(s) {
        (Err(e), _) => Err(e),
        (Ok(topic_name), key_data) => Ok(NoWritersView { topic_name, key_data }),
    }
}

/// Reads the payload of a SUBSCRIBE message.
pub fn parse_subscribe(payload: &[u8]) -> (r: Result<SubscribePayload, ProtocolError>)
    ensures
        result_view(r) == spec_parse_endpoint(payload@),
{
    let mut buf: &[u8] = payload;
    let topic_name = read_string(&mut buf)?;
    let typename = read_string(&mut buf)?;
    let qos = parse_qos(&mut buf)?;
    let is_keyed = read_bool(&mut buf)?;
    let key_descriptors = parse_key_descriptors(&mut buf)?;
    check_no_trailing(buf)?;
    Ok(SubscribePayload { topic_name, typename, qos, is_keyed, key_descriptors })
}

/// Reads the payload of an UNSUBSCRIBE message.
pub fn parse_unsubscribe(payload: &[u8]) -> (r: Result<UnsubscribePayload, ProtocolError>)
    ensures
        result_view(r) == spec_parse_unsubscribe(payload@),
{
    let mut buf: &[u8] = payload;
    let topic_name = read_string(&mut buf)?;
    let typename = read_string(&mut buf)?;
    check_no_trailing(buf)?;
    Ok(UnsubscribePayload { topic_name, typename })
}

/// Reads the payload of a message that writes, in either mode.
pub fn parse_write_mode(payload: &[u8]) -> (r: Result<WriteMode, ProtocolError>)
    ensures
        result_view(r) == spec_parse_write_mode(payload@),
{
    if payload.is_empty() {
        return Err(ProtocolError::Truncated { expected: 1, got: 0 });
    }
    let mode: u8 = payload[0];
    let mut buf: &[u8] = slice_from(payload, 1);
    match mode {
        0x00 => {
            let topic_name = read_string(&mut buf)?;
            let typename = read_string(&mut buf)?;
            let qos = parse_qos(&mut buf)?;
            let key_descriptors = parse_key_descriptors(&mut buf)?;
            let data = slice_to_vec(buf);
            Ok(WriteMode::TopicName { topic_name, typename, qos, key_descriptors, data })
        },
        0x01 => {
            if buf.len() < 8 {
                return Err(ProtocolError::Truncated { expected: 8, got: buf.len() });
            }
            let ghost start = buf@;
            let writer_id: u32 = get_u32_le(&mut buf);
            let key_len: usize = get_u32_le(&mut buf) as usize;
            assert(start.skip(4).skip(4) =~= start.skip(8));
            if buf.len() < key_len {
                return Err(ProtocolError::Truncated { expected: key_len, got: buf.len() });
            }
            let key_bytes = slice_to_vec(slice_subrange(buf, 0, key_len));
            advance(&mut buf, key_len);
            let data = slice_to_vec(buf);
            Ok(WriteMode::WriterId { writer_id, key_bytes, data })
        },
        _ => Err(ProtocolError::InvalidWriteMode(mode)),
    }
}

/// Reads the payload of a WRITE message.
pub fn parse_write(payload: &[u8]) -> (r: Result<WritePayload, ProtocolError>)
    ensures
        result_view(r) == spec_parse_write_mode(payload@),
{
    Ok(WritePayload(parse_write_mode(payload)?))
}

/// Reads the payload of a DISPOSE message.
pub fn parse_dispose(payload: &[u8]) -> (r: Result<DisposePayload, ProtocolError>)
    ensures
        result_view(r) == spec_parse_write_mode(payload@),
{
    Ok(DisposePayload(parse_write_mode(payload)?))
}

/// Reads the payload of a WRITE_DISPOSE message.
pub fn parse_write_dispose(payload: &[u8]) -> (r: Result<WriteDisposePayload, ProtocolError>)
    ensures
        result_view(r) == spec_parse_write_mode(payload@),
{
    Ok(WriteDisposePayload(parse_write_mode(payload)?))
}

/// Reads the payload of a CREATE_WRITER message.
pub fn parse_create_writer(payload: &[u8]) -> (r: Result<CreateWriterPayload, ProtocolError>)
    ensures
        result_view(r) == spec_parse_endpoint(payload@),
{
    let mut buf: &[u8] = payload;
    let topic_name = read_string(&mut buf)?;
    let typename = read_string(&mut buf)?;
    let qos = parse_qos(&mut buf)?;
    let is_keyed = read_bool(&mut buf)?;
    let key_descriptors = parse_key_descriptors(&mut buf)?;
    check_no_trailing(buf)?;
    Ok(CreateWriterPayload { topic_name, typename, qos, is_keyed, key_descriptors })
}

/// Reads the payload of a DELETE_WRITER message.
pub fn parse_delete_writer(payload: &[u8]) -> (r: Result<DeleteWriterPayload, ProtocolError>)
    ensures
        result_view(r) == spec_parse_delete_writer(payload@),
{
    if payload.len() < 4 {
        return Err(ProtocolError::Truncated { expected: 4, got: payload.len() });
    }
    let writer_id: u32 = u32_le_at(payload, 0);
    assert(payload@.skip(0) =~= payload@);
    check_no_trailing(slice_from(payload, 4))?;
    Ok(DeleteWriterPayload { writer_id })
}

/// Reads the payload of an ERROR message.
pub fn parse_error(payload: &[u8]) -> (r: Result<ErrorPayload, ProtocolError>)
    ensures
        result_view(r) == spec_parse_error(payload@),
{
    let mut buf: &[u8] = payload;
    if buf.len() < 2 {
        return Err(ProtocolError::Truncated { expected: 2, got: buf.len() });
    }
    let error_code = ErrorCode::from_u16(get_u16_le(&mut buf))?;
    let error_message = read_string(&mut buf)?;
    check_no_trailing(buf)?;
    Ok(ErrorPayload { error_code, error_message })
}

/// Reads the payload of a DATA message.
pub fn parse_data(payload: &[u8]) -> (r: Result<DataPayload, ProtocolError>)
    ensures
        result_view(r) == spec_parse_sample(payload@),
{
    let mut buf: &[u8] = payload;
    let topic_name = read_string(&mut buf)?;
    if buf.len() < 8 {
        return Err(ProtocolError::Truncated { expected: 8, got: buf.len() });
    }
    let source_timestamp: u64 = get_u64_le(&mut buf);
    let data = slice_to_vec(buf);
    Ok(DataPayload { topic_name, source_timestamp, data })
}

/// Reads the payload of a DATA_DISPOSED message.
pub fn parse_data_disposed(payload: &[u8]) -> (r: Result<DataDisposedPayload, ProtocolError>)
    ensures
        result_view(r) == spec_parse_sample(payload@),
{
    let mut buf: &[u8] = payload;
    let topic_name = read_string(&mut buf)?;
    if buf.len() < 8 {
        return Err(ProtocolError::Truncated { expected: 8, got: buf.len() });
    }
    let source_timestamp: u64 = get_u64_le(&mut buf);
    let key_data = slice_to_vec(buf);
    Ok(DataDisposedPayload { topic_name, source_timestamp, key_data })
}

/// Reads the payload of a DATA_NO_WRITERS message.
pub fn parse_data_no_writers(payload: &[u8]) -> (r: Result<DataNoWritersPayload, ProtocolError>)
    ensures
        result_view(r) == spec_parse_no_writers(payload@),
{
    let mut buf: &[u8] = payload;
    let topic_name = read_string(&mut buf)?;
    let key_data = slice_to_vec(buf);
    Ok(DataNoWritersPayload { topic_name, key_data })
}

// ---------------------------------------------------------------------------
// Writing
// ---------------------------------------------------------------------------

/// The payload that asks for a reader or a writer, with the given byte for the
/// `is_keyed` flag.
pub open spec fn flagged_endpoint_bytes(p: EndpointView, flag: u8) -> Seq<u8> {
    string_bytes(p.topic_name) + string_bytes(p.typename) + qos_bytes(p.qos) + seq![flag]
        + key_descriptors_bytes(p.key_descriptors)
}

/// The payload that asks for a reader or a writer.
pub open spec fn endpoint_bytes(p: EndpointView) -> Seq<u8> {
    flagged_endpoint_bytes(p, bool_byte(p.is_keyed))
}

/// The payload that ends a subscription.
pub open spec fn unsubscribe_bytes(p: TopicView) -> Seq<u8> {
    string_bytes(p.topic_name) + string_bytes(p.typename)
}

/// The payload that writes, in either mode.
pub open spec fn write_mode_bytes(mode: WriteModeView) -> Seq<u8> {
    match mode {
        WriteModeView::TopicName { topic_name, typename, qos, key_descriptors, data } => {
            seq![0x00u8] + string_bytes(topic_name) + string_bytes(typename) + qos_bytes(qos)
                + key_descriptors_bytes(key_descriptors) + data
        },
        WriteModeView::WriterId { writer_id, key_bytes, data } => {
            seq![0x01u8] + le32_bytes(writer_id as int) + le32_bytes(
                key_bytes.len() as int % 0x1_0000_0000,
            ) + key_bytes + data
        },
    }
}

/// The payload that reports an error.
pub open spec fn error_bytes(p: ErrorPayloadView) -> Seq<u8> {
    le16_bytes(p.error_code.code() as int) + string_bytes(p.error_message)
}

/// The payload that delivers a sample.
pub open spec fn sample_bytes(p: SampleView) -> Seq<u8> {
    string_bytes(p.topic_name) + le64_bytes(p.source_timestamp as int) + p.data
}

/// The payload that tells of an instance without writers.
pub open spec fn no_writers_bytes(p: NoWritersView) -> Seq<u8> {
    string_bytes(p.topic_name) + p.key_data
}

/// Writes the payload of a SUBSCRIBE message.
pub fn serialize_subscribe(p: &SubscribePayload) -> (buf: BytesMut)
    requires
        endpoint_bytes(p@).len() <= buffer_limit(),
    ensures
        contents(buf) == endpoint_bytes(p@),
{
    let mut buf = new_buffer();
    write_string(&mut buf, p.topic_name.as_str());
    write_string(&mut buf, p.typename.as_str());
    serialize_qos(&p.qos, &mut buf);
    put_u8(&mut buf, if p.is_keyed { 1 } else { 0 });
    serialize_key_descriptors(&p.key_descriptors, &mut buf);
    assert(contents(buf) =~= endpoint_bytes(p@));
    buf
}

/// Writes the payload of an UNSUBSCRIBE message.
pub fn serialize_unsubscribe(p: &UnsubscribePayload) -> (buf: BytesMut)
    requires
        unsubscribe_bytes(p@).len() <= buffer_limit(),
    ensures
        contents(buf) == unsubscribe_bytes(p@),
{
    let mut buf = new_buffer();
    write_string(&mut buf, p.topic_name.as_str());
    write_string(&mut buf, p.typename.as_str());
    assert(contents(buf) =~= unsubscribe_bytes(p@));
    buf
}

/// Writes the payload of a message that writes, in either mode.
pub fn serialize_write_mode(mode: &WriteMode) -> (buf: BytesMut)
    requires
        write_mode_bytes(mode@).len() <= buffer_limit(),
    ensures
        contents(buf) == write_mode_bytes(mode@),
{
    let mut buf = new_buffer();
    match mode {
        WriteMode::TopicName { topic_name, typename, qos, key_descriptors, data } => {
            put_u8(&mut buf, 0x00);
            write_string(&mut buf, topic_name.as_str());
            write_string(&mut buf, typename.as_str());
            serialize_qos(qos, &mut buf);
            serialize_key_descriptors(key_descriptors, &mut buf);
            put_slice(&mut buf, data.as_slice());
        },
        WriteMode::WriterId { writer_id, key_bytes, data } => {
            put_u8(&mut buf, 0x01);
            put_u32_le(&mut buf, *writer_id);
            put_u32_le(&mut buf, low_u32(key_bytes.len()));
            put_slice(&mut buf, key_bytes.as_slice());
            put_slice(&mut buf, data.as_slice());
        },
    }
    assert(contents(buf) =~= write_mode_bytes(mode@));
    buf
}

/// Writes the payload of a WRITE message.
pub fn serialize_write(p: &WritePayload) -> (buf: BytesMut)
    requires
        write_mode_bytes(p@).len() <= buffer_limit(),
    ensures
        contents(buf) == write_mode_bytes(p@),
{
    serialize_write_mode(&p.0)
}

/// Writes the payload of a DISPOSE message.
pub fn serialize_dispose(p: &DisposePayload) -> (buf: BytesMut)
    requires
        write_mode_bytes(p@).len() <= buffer_limit(),
    ensures
        contents(buf) == write_mode_bytes(p@),
{
    serialize_write_mode(&p.0)
}

/// Writes the payload of a WRITE_DISPOSE message.
pub fn serialize_write_dispose(p: &WriteDisposePayload) -> (buf: BytesMut)
    requires
        write_mode_bytes(p@).len() <= buffer_limit(),
    ensures
        contents(buf) == write_mode_bytes(p@),
{
    serialize_write_mode(&p.0)
}

/// Writes the payload of a CREATE_WRITER message.
pub fn serialize_create_writer(p: &CreateWriterPayload) -> (buf: BytesMut)
    requires
        endpoint_bytes(p@).len() <= buffer_limit(),
    ensures
        contents(buf) == endpoint_bytes(p@),
{
    let mut buf = new_buffer();
    write_string(&mut buf, p.topic_name.as_str());
    write_string(&mut buf, p.typename.as_str());
    serialize_qos(&p.qos, &mut buf);
    put_u8(&mut buf, if p.is_keyed { 1 } else { 0 });
    serialize_key_descriptors(&p.key_descriptors, &mut buf);
    assert(contents(buf) =~= endpoint_bytes(p@));
    buf
}

/// Writes the payload of a DELETE_WRITER message.
pub fn serialize_delete_writer(p: &DeleteWriterPayload) -> (buf: BytesMut)
    ensures
        contents(buf) == le32_bytes(p.writer_id as int),
{
    let mut buf = new_buffer();
    put_u32_le(&mut buf, p.writer_id);
    assert(contents(buf) =~= le32_bytes(p.writer_id as int));
    buf
}

/// Writes the payload of an ERROR message.
pub fn serialize_error(p: &ErrorPayload) -> (buf: BytesMut)
    requires
        error_bytes(p@).len() <= buffer_limit(),
    ensures
        contents(buf) == error_bytes(p@),
{
    let mut buf = new_buffer();
    put_u16_le(&mut buf, p.error_code.to_u16());
    write_string(&mut buf, p.error_message.as_str());
    assert(contents(buf) =~= error_bytes(p@));
    buf
}

/// Writes the payload of a DATA message.
pub fn serialize_data(p: &DataPayload) -> (buf: BytesMut)
    requires
        sample_bytes(p@).len() <= buffer_limit(),
    ensures
        contents(buf) == sample_bytes(p@),
{
    let mut buf = new_buffer();
    write_string(&mut buf, p.topic_name.as_str());
    put_u64_le(&mut buf, p.source_timestamp);
    put_slice(&mut buf, p.data.as_slice());
    assert(contents(buf) =~= sample_bytes(p@));
    buf
}

/// Writes the payload of a DATA_DISPOSED message.
pub fn serialize_data_disposed(p: &DataDisposedPayload) -> (buf: BytesMut)
    requires
        sample_bytes(p@).len() <= buffer_limit(),
    ensures
        contents(buf) == sample_bytes(p@),
{
    let mut buf = new_buffer();
    write_string(&mut buf, p.topic_name.as_str());
    put_u64_le(&mut buf, p.source_timestamp);
    put_slice(&mut buf, p.key_data.as_slice());
    assert(contents(buf) =~= sample_bytes(p@));
    buf
}

/// Writes the payload of a DATA_NO_WRITERS message.
pub fn serialize_data_no_writers(p: &DataNoWritersPayload) -> (buf: BytesMut)
    requires
        no_writers_bytes(p@).len() <= buffer_limit(),
    ensures
        contents(buf) == no_writers_bytes(p@),
{
    let mut buf = new_buffer();
    write_string(&mut buf, p.topic_name.as_str());
    put_slice(&mut buf, p.key_data.as_slice());
    assert(contents(buf) =~= no_writers_bytes(p@));
    buf
}

} // verus!
