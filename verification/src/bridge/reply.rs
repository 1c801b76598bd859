//! What is sent to clients: answers to requests, samples and notices.
use vstd::prelude::*;
use vstd::slice::slice_to_vec;
use vstd::string::*;
use vstd::utf8::encode_utf8;

use crate::dds::reader::{InstanceState, ReceivedSample, ReceivedSampleView};
use crate::protocol::codec::string_fits;
use crate::protocol::error::ProtocolErrorView;
use crate::protocol::header::{
    build_message, law_built_message, message_bytes, message_header, spec_parse_header, Header,
    MsgType,
};
use crate::protocol::laws::{
    law_error_round_trip, law_no_writers_round_trip, law_sample_round_trip,
};
use crate::protocol::payload::{
    error_bytes, no_writers_bytes, sample_bytes, serialize_data, serialize_data_disposed,
    serialize_data_no_writers, serialize_error, spec_parse_error, spec_parse_no_writers,
    spec_parse_sample, DataDisposedPayload, DataNoWritersPayload, DataPayload, ErrorCode, ErrorPayload, ErrorPayloadView, NoWritersView,
    SampleView,
};
use crate::wire::{as_slice, buffer_limit};

verus! {

broadcast use crate::wire::group_le_lengths;

/// An OK message.
pub open spec fn ok_message(request_id: u32, payload: Seq<u8>) -> Seq<u8> {
    message_bytes(MsgType::Okay, request_id, payload)
}

/// An ERROR message.
pub open spec fn error_message(request_id: u32, code: ErrorCode, text: Seq<char>) -> Seq<u8> {
    message_bytes(
        MsgType::Error,
        request_id,
        error_bytes(ErrorPayloadView { error_code: code, error_message: text }),
    )
}

/// The ERROR message that is sent: none where its text is longer than a buffer
/// can hold.
pub open spec fn error_reply(request_id: u32, code: ErrorCode, text: Seq<char>) -> Option<
    Seq<u8>,
> {
    if encode_utf8(text).len() + 6 <= buffer_limit() {
        Some(error_message(request_id, code, text))
    } else {
        None
    }
}

/// The bytes of an optional message.
pub open spec fn optional_bytes(message: Option<Vec<u8>>) -> Option<Seq<u8>> {
    match message {
        Some(m) => Some(m@),
        None => None,
    }
}

/// The ERROR message that is sent: none where its text is longer than a buffer
/// can hold, which is about half of the address space.
pub fn make_error_response(request_id: u32, code: ErrorCode, message: &str) -> (reply: Option<
    Vec<u8>,
>)
    ensures
        optional_bytes(reply) == error_reply(request_id, code, message@),
{
    let limit: usize = (isize::MAX / 2) as usize;
    if message.as_bytes().len() > limit - 6 {
        return None;
    }
    let payload = serialize_error(
        &ErrorPayload { error_code: code, error_message: message.to_owned() },
    );
    Some(build_message(MsgType::Error, request_id, as_slice(&payload)))
}

/// An ERROR message whose text is not longer than a string may be is one that a
/// client reads: the header says the request and the length of the payload, and
/// the payload says the code and the text.
pub proof fn law_error_reply_is_read(request_id: u32, code: ErrorCode, text: Seq<char>)
    requires
        string_fits(text),
    ensures
        error_reply(request_id, code, text) is Some,
        ({
            let msg = error_reply(request_id, code, text)->0;
            &&& spec_parse_header(msg) matches Ok(h) && h.msg_type == MsgType::Error
                && h.request_id == request_id && h.payload_length == msg.len() - 12
            &&& spec_parse_error(msg.skip(12)) == Ok::<ErrorPayloadView, ProtocolErrorView>(
                ErrorPayloadView { error_code: code, error_message: text },
            )
        }),
{
    let p = ErrorPayloadView { error_code: code, error_message: text };
    law_built_message(MsgType::Error, request_id, error_bytes(p));
    law_error_round_trip(p);
}

// ---------------------------------------------------------------------------
// Samples
// ---------------------------------------------------------------------------

/// The time of a sample as it is sent: a time before the epoch is sent modulo
/// 2^64.
pub open spec fn sent_timestamp(timestamp: i64) -> u64 {
    if timestamp < 0 {
        (timestamp + 0x1_0000_0000_0000_0000) as u64
    } else {
        timestamp as u64
    }
}

/// The payload that delivers a sample.
pub open spec fn delivery_payload(sample: ReceivedSampleView) -> Seq<u8> {
    match sample.instance_state {
        InstanceState::NoWriters => no_writers_bytes(
            NoWritersView { topic_name: sample.topic_name, key_data: sample.data },
        ),
        _ => sample_bytes(
            SampleView {
                topic_name: sample.topic_name,
                source_timestamp: sent_timestamp(sample.source_timestamp),
                data: sample.data,
            },
        ),
    }
}

/// The type of the message that delivers a sample.
pub open spec fn delivery_type(state: InstanceState) -> MsgType {
    match state {
        InstanceState::Alive => MsgType::Data,
        InstanceState::Disposed => MsgType::DataDisposed,
        InstanceState::NoWriters => MsgType::DataNoWriters,
    }
}

/// The message that delivers a sample. No request has asked for it, so its
/// request id is zero.
pub open spec fn delivery(sample: ReceivedSampleView) -> Seq<u8> {
    message_bytes(delivery_type(sample.instance_state), 0, delivery_payload(sample))
}

/// Whether the message that delivers a sample fits in a buffer.
pub open spec fn deliverable(sample: ReceivedSampleView) -> bool {
    encode_utf8(sample.topic_name).len() + sample.data.len() + 12 <= buffer_limit()
}

fn to_sent_timestamp(timestamp: i64) -> (t: u64)
    ensures
        t == sent_timestamp(timestamp),
{
    if timestamp < 0 {
        (timestamp as i128 + 0x1_0000_0000_0000_0000) as u64
    } else {
        timestamp as u64
    }
}

/// The message that delivers a sample.
pub fn sample_to_message(sample: &ReceivedSample) -> (msg: Vec<u8>)
    requires
        deliverable(sample@),
    ensures
        msg@ == delivery(sample@),
{
    match sample.instance_state {
        InstanceState::Alive => {
            let payload = serialize_data(
                &DataPayload {
                    topic_name: sample.topic_name.clone(),
                    source_timestamp: to_sent_timestamp(sample.source_timestamp),
                    data: slice_to_vec(sample.data.as_slice()),
                },
            );
            build_message(MsgType::Data, 0, as_slice(&payload))
        },
        InstanceState::Disposed => {
            let payload = serialize_data_disposed(
                &DataDisposedPayload {
                    topic_name: sample.topic_name.clone(),
                    source_timestamp: to_sent_timestamp(sample.source_timestamp),
                    key_data: slice_to_vec(sample.data.as_slice()),
                },
            );
            build_message(MsgType::DataDisposed, 0, as_slice(&payload))
        },
        InstanceState::NoWriters => {
            let payload = serialize_data_no_writers(
                &DataNoWritersPayload {
                    topic_name: sample.topic_name.clone(),
                    key_data: slice_to_vec(sample.data.as_slice()),
                },
            );
            build_message(MsgType::DataNoWriters, 0, as_slice(&payload))
        },
    }
}

/// Every message that delivers a sample is unsolicited: its request id is zero.
pub proof fn law_delivery_is_unsolicited(sample: ReceivedSampleView)
    ensures
        spec_parse_header(delivery(sample)) == Ok::<Header, ProtocolErrorView>(
            message_header(delivery_type(sample.instance_state), 0, delivery_payload(sample)),
        ),
        delivery(sample).skip(12) == delivery_payload(sample),
{
    law_built_message(delivery_type(sample.instance_state), 0, delivery_payload(sample));
}

/// The bytes of a sample reach the client unchanged: what it reads from the
/// message is the topic, the time and the bytes of the sample.
pub proof fn law_delivery_is_read(sample: ReceivedSampleView)
    requires
        string_fits(sample.topic_name),
    ensures
        sample.instance_state == InstanceState::NoWriters ==> spec_parse_no_writers(
            delivery(sample).skip(12),
        ) == Ok::<NoWritersView, ProtocolErrorView>(
            NoWritersView { topic_name: sample.topic_name, key_data: sample.data },
        ),
        sample.instance_state != InstanceState::NoWriters ==> spec_parse_sample(
            delivery(sample).skip(12),
        ) == Ok::<SampleView, ProtocolErrorView>(
            SampleView {
                topic_name: sample.topic_name,
                source_timestamp: sent_timestamp(sample.source_timestamp),
                data: sample.data,
            },
        ),
{
    law_delivery_is_unsolicited(sample);
    law_no_writers_round_trip(
        NoWritersView { topic_name: sample.topic_name, key_data: sample.data },
    );
    law_sample_round_trip(
        SampleView {
            topic_name: sample.topic_name,
            source_timestamp: sent_timestamp(sample.source_timestamp),
            data: sample.data,
        },
    );
}

} // verus!
