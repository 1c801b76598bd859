//! What is made of a binary frame from a client.
use vstd::prelude::*;
use vstd::slice::slice_subrange;
use vstd::string::*;

use crate::bridge::reply::{error_message, error_reply, make_error_response, optional_bytes};
use crate::bridge::request::{Outcome, OutcomeView};
use crate::bridge::state::{BridgeInner, BridgeView};
use crate::bridge::texts::{
    lemma_decimal_length, lemma_modest_message, lemma_text_fits, lemma_utf8_length,
};
use crate::protocol::codec::string_fits;
use crate::protocol::error::{ProtocolError, ProtocolErrorView};
use crate::protocol::header::{
    header_bytes, law_header_round_trip, message_bytes, message_header, parse_header,
    spec_parse_header, spec_validate_client_header, validate_client_header, Header, MsgType,
    HEADER_SIZE, VERSION,
};
use crate::protocol::layout::{
    law_headers_that_are_read, law_integers_are_read_little_endian, little_endian,
};
use crate::protocol::payload::ErrorCode;
use crate::text::{decimal, push_decimal, stands_at};
use crate::wire::{le32, u32_le_at};

verus! {

broadcast use crate::wire::group_le_lengths;

/// What a binary frame holds: a request, or something to refuse.
pub enum Frame<'a> {
    /// The answer, where it can be sent.
    Refused(Option<Vec<u8>>),
    Request { msg_type: MsgType, request_id: u32, payload: &'a [u8] },
}

/// The mathematical value of a [`Frame`].
#[verifier::ext_equal]
pub enum FrameView {
    Refused(Option<Seq<u8>>),
    Request { msg_type: MsgType, request_id: u32, payload: Seq<u8> },
}

impl<'a> View for Frame<'a> {
    type V = FrameView;

    open spec fn view(&self) -> FrameView {
        match *self {
            Frame::Refused(reply) => FrameView::Refused(optional_bytes(reply)),
            Frame::Request { msg_type, request_id, payload } => {
                FrameView::Request { msg_type, request_id, payload: payload@ }
            },
        }
    }
}

/// The text for a frame that is shorter than its header says.
pub open spec fn incomplete_text(expected: int, got: int) -> Seq<char> {
    "incomplete message: expected "@ + decimal(expected as nat) + " bytes, got "@ + decimal(
        got as nat,
    )
}

/// The request id that an answer to a frame echoes: the one that stands in the
/// header, whatever the type and the version, or 0 where the frame is too short
/// for a header or does not start as one.
pub open spec fn answered_id(data: Seq<u8>) -> u32 {
    if data.len() >= HEADER_SIZE && data[0] == 0x44 && data[1] == 0x42 {
        le32(data.skip(4)) as u32
    } else {
        0
    }
}

/// What is wrong with a header that cannot be read. The version comes before
/// the type: a later version may have types that this one does not know.
pub open spec fn header_fault(data: Seq<u8>, e: ProtocolErrorView) -> ProtocolErrorView {
    if e is InvalidMsgType && data[2] > VERSION {
        ProtocolErrorView::UnsupportedVersion { got: data[2], max: VERSION }
    } else {
        e
    }
}

/// A frame that is refused as an invalid message.
pub open spec fn invalid_frame(request_id: u32, text: Seq<char>) -> FrameView {
    FrameView::Refused(error_reply(request_id, ErrorCode::InvalidMessage, text))
}

/// What a binary frame holds. Where it is refused, the answer echoes the request
/// id of its header. Bytes behind the payload are ignored.
pub open spec fn spec_read_frame(data: Seq<u8>, max_payload_size: int) -> FrameView {
    if data.len() < HEADER_SIZE {
        invalid_frame(0, "message too short"@)
    } else {
        match spec_parse_header(data) {
            Err(e) => invalid_frame(answered_id(data), header_fault(data, e).message()),
            Ok(header) => {
                let expected = HEADER_SIZE + header.payload_length;
                match spec_validate_client_header(header, VERSION, max_payload_size) {
                    Err(e) => invalid_frame(header.request_id, e.message()),
                    Ok(_) => if data.len() < expected {
                        invalid_frame(
                            header.request_id,
                            incomplete_text(expected, data.len() as int),
                        )
                    } else {
                        FrameView::Request {
                            msg_type: header.msg_type,
                            request_id: header.request_id,
                            payload: data.subrange(HEADER_SIZE as int, expected),
                        }
                    },
                }
            },
        }
    }
}

/// The answer to a message that cannot be read.
pub fn make_parse_error(request_id: u32, message: &str) -> (reply: Option<Vec<u8>>)
    ensures
        optional_bytes(reply) == error_reply(request_id, ErrorCode::InvalidMessage, message@),
{
    make_error_response(request_id, ErrorCode::InvalidMessage, message)
}

/// Reads a binary frame.
pub fn read_frame<'a>(data: &'a [u8], max_payload_size: usize) -> (frame: Frame<'a>)
    ensures
        frame@ == spec_read_frame(data@, max_payload_size as int),
{
    if data.len() < HEADER_SIZE {
        return Frame::Refused(make_parse_error(0, "message too short"));
    }
    let header: Header = match parse_header(data) {
        Ok(header) => header,
        Err(ProtocolError::InvalidMsgType(code)) => {
            let fault = if data[2] > VERSION {
                ProtocolError::UnsupportedVersion { got: data[2], max: VERSION }
            } else {
                ProtocolError::InvalidMsgType(code)
            };
            let request_id: u32 = u32_le_at(data, 4);
            return Frame::Refused(make_parse_error(request_id, fault.message().as_str()));
        },
        Err(e) => {
            return Frame::Refused(make_parse_error(0, e.message().as_str()));
        },
    };
    match validate_client_header(&header, VERSION, max_payload_size) {
        Ok(_) => {},
        Err(e) => {
            return Frame::Refused(make_parse_error(header.request_id, e.message().as_str()));
        },
    }
    let expected: u64 = HEADER_SIZE as u64 + header.payload_length as u64;
    if (data.len() as u64) < expected {
        let mut text = "incomplete message: expected ".to_owned();
        push_decimal(&mut text, expected);
        text.append(" bytes, got ");
        push_decimal(&mut text, data.len() as u64);
        return Frame::Refused(make_parse_error(header.request_id, text.as_str()));
    }
    Frame::Request {
        msg_type: header.msg_type,
        request_id: header.request_id,
        payload: slice_subrange(data, HEADER_SIZE, expected as usize),
    }
}

/// What a binary frame from a client comes to, and the bridge after it.
pub open spec fn spec_process_binary_frame(
    bridge: BridgeView,
    session_id: u64,
    data: Seq<u8>,
    max_payload_size: int,
) -> (OutcomeView, BridgeView) {
    match spec_read_frame(data, max_payload_size) {
        FrameView::Refused(reply) => (OutcomeView::Done(reply), bridge),
        FrameView::Request { msg_type, request_id, payload } => {
            bridge.handle(session_id, msg_type, request_id, payload)
        },
    }
}

/// Handles a binary frame from a client.
pub fn process_binary_frame(
    bridge: &mut BridgeInner,
    session_id: u64,
    data: &[u8],
    max_payload_size: usize,
) -> (outcome: Outcome)
    requires
        old(bridge).wf(),
    ensures
        final(bridge).wf(),
        (outcome@, final(bridge)@) == spec_process_binary_frame(
            old(bridge)@,
            session_id,
            data@,
            max_payload_size as int,
        ),
        outcome@.wf(),
{
    match read_frame(data, max_payload_size) {
        Frame::Refused(reply) => Outcome::Done(reply),
        Frame::Request { msg_type, request_id, payload } => {
            bridge.handle_message(session_id, msg_type, request_id, payload)
        },
    }
}

// ---------------------------------------------------------------------------
// The life of a session
// ---------------------------------------------------------------------------

/// What happens on the connection of a session.
pub enum SessionEvent<'a> {
    /// A binary frame has come.
    Binary(&'a [u8]),
    /// A frame of another kind has come: text, ping or pong.
    Other,
    /// The client has closed the connection.
    Close,
    /// The connection cannot be read.
    ReadError,
    /// The connection has ended.
    EndOfStream,
    /// Nothing has come for as long as a session may be idle.
    Silence,
}

/// The mathematical value of a [`SessionEvent`].
#[verifier::ext_equal]
pub enum SessionEventView {
    Binary(Seq<u8>),
    Other,
    Close,
    ReadError,
    EndOfStream,
    Silence,
}

impl<'a> View for SessionEvent<'a> {
    type V = SessionEventView;

    open spec fn view(&self) -> SessionEventView {
        match *self {
            SessionEvent::Binary(data) => SessionEventView::Binary(data@),
            SessionEvent::Other => SessionEventView::Other,
            SessionEvent::Close => SessionEventView::Close,
            SessionEvent::ReadError => SessionEventView::ReadError,
            SessionEvent::EndOfStream => SessionEventView::EndOfStream,
            SessionEvent::Silence => SessionEventView::Silence,
        }
    }
}

impl SessionEventView {
    /// Whether the session ends with the event.
    pub open spec fn ends_session(self) -> bool {
        self is Close || self is ReadError || self is EndOfStream || self is Silence
    }
}

/// What an event comes to.
pub enum SessionStep {
    /// A request, to be carried through and answered. The session goes on.
    Answer(Outcome),
    /// Nothing. The session goes on.
    Ignore,
    /// The session has ended, and what it had is cleaned up.
    Finish,
}

/// The mathematical value of a [`SessionStep`].
#[verifier::ext_equal]
pub enum SessionStepView {
    Answer(OutcomeView),
    Ignore,
    Finish,
}

impl View for SessionStep {
    type V = SessionStepView;

    open spec fn view(&self) -> SessionStepView {
        match *self {
            SessionStep::Answer(outcome) => SessionStepView::Answer(outcome@),
            SessionStep::Ignore => SessionStepView::Ignore,
            SessionStep::Finish => SessionStepView::Finish,
        }
    }
}

/// Whether `step` is what an event in a session comes to, and `after` the bridge
/// after it.
pub open spec fn session_stepped(
    before: BridgeView,
    session_id: u64,
    event: SessionEventView,
    max_payload_size: int,
    step: SessionStepView,
    after: BridgeView,
) -> bool {
    if event.ends_session() {
        step is Finish && before.session_ended(session_id, after)
    } else {
        match event {
            SessionEventView::Binary(data) => {
                let (outcome, answered) = spec_process_binary_frame(
                    before,
                    session_id,
                    data,
                    max_payload_size,
                );
                step == SessionStepView::Answer(outcome) && after == answered
            },
            _ => step is Ignore && after == before,
        }
    }
}

/// Takes an event on the connection of a session. Binary frames are answered,
/// whatever they hold; other frames are ignored. The session ends, and is
/// cleaned up, when the client closes the connection, when it cannot be read or
/// has ended, and when it is idle for too long.
pub fn session_event(
    bridge: &mut BridgeInner,
    session_id: u64,
    event: SessionEvent,
    max_payload_size: usize,
) -> (step: SessionStep)
    requires
        old(bridge).wf(),
    ensures
        final(bridge).wf(),
        session_stepped(
            old(bridge)@,
            session_id,
            event@,
            max_payload_size as int,
            step@,
            final(bridge)@,
        ),
        step is Finish <==> event is Close || event is ReadError || event is EndOfStream
            || event is Silence,
        step@ matches SessionStepView::Answer(outcome) ==> outcome.wf(),
{
    match event {
        SessionEvent::Binary(data) => SessionStep::Answer(
            process_binary_frame(bridge, session_id, data, max_payload_size),
        ),
        SessionEvent::Other => SessionStep::Ignore,
        SessionEvent::Close
        | SessionEvent::ReadError
        | SessionEvent::EndOfStream
        | SessionEvent::Silence => {
            bridge.unregister_session(session_id);
            SessionStep::Finish
        },
    }
}

/// The connection is maintained: whatever a binary frame holds, be it a request,
/// one that is refused or no message at all, it does not end the session, and
/// every session keeps its buffer and what waits in it.
#[verifier::rlimit(60)]
pub proof fn law_frames_keep_the_session(
    before: BridgeView,
    session_id: u64,
    data: Seq<u8>,
    max_payload_size: int,
    step: SessionStepView,
    after: BridgeView,
)
    requires
        session_stepped(
            before,
            session_id,
            SessionEventView::Binary(data),
            max_payload_size,
            step,
            after,
        ),
    ensures
        step is Answer,
        after.buffers == before.buffers,
        after.config == before.config,
{
}

/// A session ends with an event if and only if its step is to finish; then
/// nothing waits for it any more.
pub proof fn law_finished_session_has_no_buffer(
    before: BridgeView,
    session_id: u64,
    event: SessionEventView,
    max_payload_size: int,
    step: SessionStepView,
    after: BridgeView,
)
    requires
        session_stepped(before, session_id, event, max_payload_size, step, after),
    ensures
        step is Finish <==> event.ends_session(),
        step is Finish ==> !after.buffers.contains_key(session_id),
        step !is Finish && before.buffers.contains_key(session_id) ==> after.buffers.contains_key(
            session_id,
        ),
{
    if let SessionEventView::Binary(data) = event {
        law_frames_keep_the_session(before, session_id, data, max_payload_size, step, after);
    }
}

/// A message that a client builds, with a request id other than 0 and a payload
/// within the limit, is read as that request, whatever bytes follow it.
pub proof fn law_built_message_is_read(
    msg_type: MsgType,
    request_id: u32,
    payload: Seq<u8>,
    rest: Seq<u8>,
    max_payload_size: int,
)
    requires
        request_id != 0,
        payload.len() <= max_payload_size,
        payload.len() < 0x1_0000_0000,
    ensures
        spec_read_frame(message_bytes(msg_type, request_id, payload) + rest, max_payload_size) == (
        FrameView::Request { msg_type, request_id, payload }),
{
    let header = message_header(msg_type, request_id, payload);
    let msg = message_bytes(msg_type, request_id, payload) + rest;
    assert(msg =~= header_bytes(header) + (payload + rest));
    law_header_round_trip(header, payload + rest);
    assert(msg.subrange(12, 12 + payload.len() as int) =~= payload);
}

/// A frame that holds no request is answered with an ERROR that a client reads
/// and that says INVALID_MESSAGE; it echoes the request id that stands in the
/// header, or 0 where the frame is too short for one or does not start as one.
/// It changes nothing.
pub proof fn law_refused_frame_changes_nothing(
    bridge: BridgeView,
    session_id: u64,
    data: Seq<u8>,
    max_payload_size: int,
)
    requires
        spec_read_frame(data, max_payload_size) is Refused,
        data.len() <= usize::MAX,
        0 <= max_payload_size <= usize::MAX,
    ensures
        spec_process_binary_frame(bridge, session_id, data, max_payload_size).1 == bridge,
        exists|text: Seq<char>|
            string_fits(text) && spec_read_frame(data, max_payload_size) == FrameView::Refused(
                Some(
                    #[trigger] error_message(answered_id(data), ErrorCode::InvalidMessage, text),
                ),
            ),
{
    let id = answered_id(data);
    let text = if data.len() < HEADER_SIZE {
        "message too short"@
    } else {
        match spec_parse_header(data) {
            Err(e) => header_fault(data, e).message(),
            Ok(header) => match spec_validate_client_header(header, VERSION, max_payload_size) {
                Err(e) => e.message(),
                Ok(_) => incomplete_text(HEADER_SIZE + header.payload_length, data.len() as int),
            },
        }
    };
    assert(spec_read_frame(data, max_payload_size) == invalid_frame(id, text));
    assert(text.len() <= 1000) by {
        reveal_strlit("message too short");
        if data.len() >= HEADER_SIZE {
            match spec_parse_header(data) {
                Err(e) => lemma_modest_message(header_fault(data, e)),
                Ok(header) => match spec_validate_client_header(
                    header,
                    VERSION,
                    max_payload_size,
                ) {
                    Err(e) => lemma_modest_message(e),
                    Ok(_) => {
                        reveal_strlit("incomplete message: expected ");
                        reveal_strlit(" bytes, got ");
                        lemma_decimal_length((HEADER_SIZE + header.payload_length) as nat);
                        lemma_decimal_length(data.len());
                    },
                },
            }
        }
    }
    lemma_utf8_length(text);
    lemma_text_fits(text);
    assert(spec_read_frame(data, max_payload_size) == FrameView::Refused(
        Some(error_message(id, ErrorCode::InvalidMessage, text)),
    ));
}

/// Every message of a later version is refused with INVALID_MESSAGE and a text
/// that says which version it has and which is supported, whatever its type, and
/// the answer echoes its request id.
pub proof fn law_later_version_is_refused(data: Seq<u8>, max_payload_size: int)
    requires
        data.len() >= HEADER_SIZE,
        data[0] == 0x44,
        data[1] == 0x42,
        data[2] > VERSION,
    ensures
        spec_read_frame(data, max_payload_size) == FrameView::Refused(
            Some(
                error_message(
                    le32(data.skip(4)) as u32,
                    ErrorCode::InvalidMessage,
                    ProtocolErrorView::UnsupportedVersion {
                        got: data[2],
                        max: VERSION,
                    }.message(),
                ),
            ),
        ),
{
    let e = ProtocolErrorView::UnsupportedVersion { got: data[2], max: VERSION };
    lemma_modest_message(e);
    lemma_text_fits(e.message());
}

/// A frame holds a request if and only if it starts with a header of "DB", a
/// supported version and the code of a message, a request id other than 0 and a
/// payload within the limit, and has all of that payload. The request is what
/// stands there: the type of the code, the id, and the bytes of the payload.
pub proof fn law_frames_that_hold_a_request(data: Seq<u8>, max_payload_size: int)
    ensures
        ({
            let id = little_endian(data.subrange(4, 8));
            let length = little_endian(data.subrange(8, 12));
            let frame = spec_read_frame(data, max_payload_size);
            &&& frame is Request <==> {
                &&& data.len() >= 12
                &&& data[0] == 0x44
                &&& data[1] == 0x42
                &&& data[2] <= 1
                &&& exists|t: MsgType| #[trigger] t.code() == data[3]
                &&& id != 0
                &&& length <= max_payload_size
                &&& data.len() >= 12 + length
            }
            &&& frame matches FrameView::Request { msg_type, request_id, payload } ==> {
                &&& msg_type.code() == data[3]
                &&& request_id == id
                &&& payload == data.subrange(12, 12 + length)
            }
        }),
{
    law_headers_that_are_read(data);
}

/// An answer to a frame echoes the four bytes of the request id that stand in the
/// header, the lowest first; 0 where there is no whole header that starts as one.
pub proof fn law_answered_id_is_that_of_the_header(data: Seq<u8>)
    ensures
        data.len() >= 12 && data[0] == 0x44 && data[1] == 0x42 ==> answered_id(data)
            == little_endian(data.subrange(4, 8)),
        !(data.len() >= 12 && data[0] == 0x44 && data[1] == 0x42) ==> answered_id(data) == 0,
{
    if data.len() >= 12 {
        law_integers_are_read_little_endian(data.skip(4));
        assert(data.skip(4).take(4) =~= data.subrange(4, 8));
    }
}

/// The fault that a refused frame is told of, of several the first of these: it is
/// too short for a header, it does not start with "DB", its version is later, its
/// type is unknown, its payload is over the limit, its request id is 0, or its
/// payload is not all there.
pub proof fn law_refused_frames_are_told_the_fault(data: Seq<u8>, max_payload_size: int)
    ensures
        ({
            let frame = spec_read_frame(data, max_payload_size);
            let id = answered_id(data);
            let length = little_endian(data.subrange(8, 12));
            let known = exists|t: MsgType| #[trigger] t.code() == data[3];
            let told = |e: ProtocolErrorView|
                FrameView::Refused(error_reply(id, ErrorCode::InvalidMessage, e.message()));
            if data.len() < 12 {
                frame == FrameView::Refused(
                    error_reply(0, ErrorCode::InvalidMessage, "message too short"@),
                )
            } else if !(data[0] == 0x44 && data[1] == 0x42) {
                frame == told(ProtocolErrorView::BadMagic(data[0], data[1]))
            } else if data[2] > 1 {
                frame == told(ProtocolErrorView::UnsupportedVersion { got: data[2], max: 1 })
            } else if !known {
                frame == told(ProtocolErrorView::InvalidMsgType(data[3]))
            } else if length > max_payload_size {
                frame == told(
                    ProtocolErrorView::PayloadTooLarge {
                        size: length as int,
                        max: max_payload_size,
                    },
                )
            } else if id == 0 {
                frame == told(ProtocolErrorView::ReservedRequestId)
            } else if data.len() < 12 + length {
                frame == FrameView::Refused(
                    error_reply(
                        id,
                        ErrorCode::InvalidMessage,
                        incomplete_text(12 + length, data.len() as int),
                    ),
                )
            } else {
                frame is Request
            }
        }),
{
    law_headers_that_are_read(data);
    law_answered_id_is_that_of_the_header(data);
}

/// The text for a frame that is too short says how many bytes it would need and
/// how many it has.
pub proof fn law_incomplete_text_holds_both_numbers(expected: nat, got: nat)
    ensures
        ({
            let text = incomplete_text(expected as int, got as int);
            let a = decimal(expected);
            &&& stands_at(text, 0, "incomplete message: expected "@)
            &&& stands_at(text, 29, a)
            &&& stands_at(text, 29 + a.len() as int, " bytes, got "@)
            &&& stands_at(text, 41 + a.len() as int, decimal(got))
            &&& text.len() == 41 + a.len() + decimal(got).len()
        }),
{
    reveal_strlit("incomplete message: expected ");
    reveal_strlit(" bytes, got ");
    let text = incomplete_text(expected as int, got as int);
    let a = decimal(expected);
    let n = a.len() as int;
    assert(text.subrange(0, 29) =~= "incomplete message: expected "@);
    assert(text.subrange(29, 29 + n) =~= a);
    assert(text.subrange(29 + n, 41 + n) =~= " bytes, got "@);
    assert(text.subrange(41 + n, 41 + n + decimal(got).len()) =~= decimal(got));
}

/// A session ends when the client closes the connection, when it cannot be read,
/// when it has ended and when it has been silent for too long, and with no other
/// event. A frame that is not binary is passed over, and changes nothing.
pub proof fn law_events_of_a_session(
    before: BridgeView,
    session_id: u64,
    event: SessionEventView,
    max_payload_size: int,
    step: SessionStepView,
    after: BridgeView,
)
    requires
        session_stepped(before, session_id, event, max_payload_size, step, after),
    ensures
        event is Close || event is ReadError || event is EndOfStream || event is Silence
            ==> step is Finish && before.session_ended(session_id, after),
        event matches SessionEventView::Binary(data) ==> step == SessionStepView::Answer(
            spec_process_binary_frame(before, session_id, data, max_payload_size).0,
        ) && after == spec_process_binary_frame(before, session_id, data, max_payload_size).1,
        !(event is Close || event is ReadError || event is EndOfStream || event is Silence
            || event is Binary) ==> step is Ignore && after == before,
{
}

} // verus!
