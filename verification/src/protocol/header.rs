//! Message headers: twelve bytes in front of every payload.
use vstd::prelude::*;

use crate::protocol::error::{result_view, ProtocolError, ProtocolErrorView};
use crate::wire::{
    le32, le32_bytes, lemma_bytes_of_le32, lemma_le32_of_bytes, low_u32, u32_le_array, u32_le_at,
};

verus! {

broadcast use crate::wire::group_le_lengths;

/// "DB"
pub const MAGIC: [u8; 2] = [0x44, 0x42];

pub const VERSION: u8 = 0x01;

pub const HEADER_SIZE: usize = 12;

/// 4 MiB
pub const DEFAULT_MAX_PAYLOAD_SIZE: usize = 4 * 1024 * 1024;

#[derive(Debug, Clone, Copy, PartialEq, Eq, Structural)]
pub enum MsgType {
    // Client -> Bridge
    Subscribe,
    Unsubscribe,
    Write,
    Dispose,
    WriteDispose,
    CreateWriter,
    DeleteWriter,
    Ping,
    // Bridge -> Client
    Okay,
    Data,
    DataDisposed,
    DataNoWriters,
    Error,
    Pong,
}

impl View for MsgType {
    type V = MsgType;

    open spec fn view(&self) -> MsgType {
        *self
    }
}

impl MsgType {
    /// The byte that stands for the message type in a header.
    pub open spec fn code(self) -> u8 {
        match self {
            MsgType::Subscribe => 0x01,
            MsgType::Unsubscribe => 0x02,
            MsgType::Write => 0x03,
            MsgType::Dispose => 0x04,
            MsgType::WriteDispose => 0x05,
            MsgType::CreateWriter => 0x10,
            MsgType::DeleteWriter => 0x11,
            MsgType::Ping => 0x0F,
            MsgType::Okay => 0x80,
            MsgType::Data => 0xC0,
            MsgType::DataDisposed => 0xC1,
            MsgType::DataNoWriters => 0xC2,
            MsgType::Error => 0xFE,
            MsgType::Pong => 0x8F,
        }
    }

    /// The name of the variant.
    pub open spec fn name(self) -> Seq<char> {
        match self {
            MsgType::Subscribe => "Subscribe"@,
            MsgType::Unsubscribe => "Unsubscribe"@,
            MsgType::Write => "Write"@,
            MsgType::Dispose => "Dispose"@,
            MsgType::WriteDispose => "WriteDispose"@,
            MsgType::CreateWriter => "CreateWriter"@,
            MsgType::DeleteWriter => "DeleteWriter"@,
            MsgType::Ping => "Ping"@,
            MsgType::Okay => "Ok"@,
            MsgType::Data => "Data"@,
            MsgType::DataDisposed => "DataDisposed"@,
            MsgType::DataNoWriters => "DataNoWriters"@,
            MsgType::Error => "Error"@,
            MsgType::Pong => "Pong"@,
        }
    }

    /// The message type that a byte stands for.
    pub open spec fn spec_from_u8(val: u8) -> Result<MsgType, ProtocolErrorView> {
        if val == 0x01 {
            Ok(MsgType::Subscribe)
        } else if val == 0x02 {
            Ok(MsgType::Unsubscribe)
        } else if val == 0x03 {
            Ok(MsgType::Write)
        } else if val == 0x04 {
            Ok(MsgType::Dispose)
        } else if val == 0x05 {
            Ok(MsgType::WriteDispose)
        } else if val == 0x10 {
            Ok(MsgType::CreateWriter)
        } else if val == 0x11 {
            Ok(MsgType::DeleteWriter)
        } else if val == 0x0F {
            Ok(MsgType::Ping)
        } else if val == 0x80 {
            Ok(MsgType::Okay)
        } else if val == 0xC0 {
            Ok(MsgType::Data)
        } else if val == 0xC1 {
            Ok(MsgType::DataDisposed)
        } else if val == 0xC2 {
            Ok(MsgType::DataNoWriters)
        } else if val == 0xFE {
            Ok(MsgType::Error)
        } else if val == 0x8F {
            Ok(MsgType::Pong)
        } else {
            Err(ProtocolErrorView::InvalidMsgType(val))
        }
    }

    /// Reads a message type off its code.
    pub fn from_u8(val: u8) -> (r: Result<Self, ProtocolError>)
        ensures
            result_view(r) == MsgType::spec_from_u8(val),
    {
        let msg_type: MsgType = match val {
            0x01 => MsgType::Subscribe,
            0x02 => MsgType::Unsubscribe,
            0x03 => MsgType::Write,
            0x04 => MsgType::Dispose,
            0x05 => MsgType::WriteDispose,
            0x10 => MsgType::CreateWriter,
            0x11 => MsgType::DeleteWriter,
            0x0F => MsgType::Ping,
            0x80 => MsgType::Okay,
            0xC0 => MsgType::Data,
            0xC1 => MsgType::DataDisposed,
            0xC2 => MsgType::DataNoWriters,
            0xFE => MsgType::Error,
            0x8F => MsgType::Pong,
            _ => {
                return Err(ProtocolError::InvalidMsgType(val));
            },
        };
        Ok(msg_type)
    }

    /// The byte that stands for the message type in a header.
    pub fn to_u8(&self) -> (val: u8)
        ensures
            val == self.code(),
    {
        match self {
            MsgType::Subscribe => 0x01,
            MsgType::Unsubscribe => 0x02,
            MsgType::Write => 0x03,
            MsgType::Dispose => 0x04,
            MsgType::WriteDispose => 0x05,
            MsgType::CreateWriter => 0x10,
            MsgType::DeleteWriter => 0x11,
            MsgType::Ping => 0x0F,
            MsgType::Okay => 0x80,
            MsgType::Data => 0xC0,
            MsgType::DataDisposed => 0xC1,
            MsgType::DataNoWriters => 0xC2,
            MsgType::Error => 0xFE,
            MsgType::Pong => 0x8F,
        }
    }

    /// The name of the variant.
    pub fn as_str(&self) -> (name: &'static str)
        ensures
            name@ == self.name(),
    {
        match self {
            MsgType::Subscribe => "Subscribe",
            MsgType::Unsubscribe => "Unsubscribe",
            MsgType::Write => "Write",
            MsgType::Dispose => "Dispose",
            MsgType::WriteDispose => "WriteDispose",
            MsgType::CreateWriter => "CreateWriter",
            MsgType::DeleteWriter => "DeleteWriter",
            MsgType::Ping => "Ping",
            MsgType::Okay => "Ok",
            MsgType::Data => "Data",
            MsgType::DataDisposed => "DataDisposed",
            MsgType::DataNoWriters => "DataNoWriters",
            MsgType::Error => "Error",
            MsgType::Pong => "Pong",
        }
    }
}

/// A byte stands for a message type if and only if it is the code of that type.
pub proof fn law_msg_type_codes(val: u8, t: MsgType)
    ensures
        MsgType::spec_from_u8(val) == Ok::<MsgType, ProtocolErrorView>(t) <==> t.code() == val,
{
}

#[derive(Debug, Clone, Copy, PartialEq, Eq, Structural)]
pub struct Header {
    pub version: u8,
    pub msg_type: MsgType,
    pub request_id: u32,
    pub payload_length: u32,
}

impl View for Header {
    type V = Header;

    open spec fn view(&self) -> Header {
        *self
    }
}

/// The twelve bytes of a header.
pub open spec fn header_bytes(h: Header) -> Seq<u8> {
    seq![0x44u8, 0x42u8, h.version, h.msg_type.code()] + le32_bytes(h.request_id as int)
        + le32_bytes(h.payload_length as int)
}

/// What the first twelve bytes of `s` say as a header.
pub open spec fn spec_parse_header(s: Seq<u8>) -> Result<Header, ProtocolErrorView> {
    if s.len() < 12 {
        Err(ProtocolErrorView::Truncated { expected: 12, got: s.len() as int })
    } else if s[0] != 0x44 || s[1] != 0x42 {
        Err(ProtocolErrorView::BadMagic(s[0], s[1]))
    } else {
        match MsgType::spec_from_u8(s[3]) {
            Err(e) => Err(e),
            Ok(msg_type) => Ok(
                Header {
                    version: s[2],
                    msg_type,
                    request_id: le32(s.skip(4)) as u32,
                    payload_length: le32(s.skip(8)) as u32,
                },
            ),
        }
    }
}

/// Reads the header at the front of a message.
pub fn parse_header(data: &[u8]) -> (r: Result<Header, ProtocolError>)
    ensures
        result_view(r) == spec_parse_header(data@),
{
    if data.len() < HEADER_SIZE {
        return Err(ProtocolError::Truncated { expected: HEADER_SIZE, got: data.len() });
    }
    if data[0] != MAGIC[0] || data[1] != MAGIC[1] {
        return Err(ProtocolError::BadMagic([data[0], data[1]]));
    }
    let version: u8 = data[2];
    let msg_type = match MsgType::from_u8(data[3]) {
        Ok(msg_type) => msg_type,
        Err(e) => {
            return Err(e);
        },
    };
    let request_id: u32 = u32_le_at(data, 4);
    let payload_length: u32 = u32_le_at(data, 8);
    Ok(Header { version, msg_type, request_id, payload_length })
}

/// Writes a header out.
pub fn serialize_header(header: &Header) -> (bytes: [u8; HEADER_SIZE])
    ensures
        bytes@ == header_bytes(*header),
{
    let id: [u8; 4] = u32_le_array(header.request_id);
    let len: [u8; 4] = u32_le_array(header.payload_length);
    let bytes: [u8; HEADER_SIZE] = [
        MAGIC[0],
        MAGIC[1],
        header.version,
        header.msg_type.to_u8(),
        id[0],
        id[1],
        id[2],
        id[3],
        len[0],
        len[1],
        len[2],
        len[3],
    ];
    assert(bytes@ =~= header_bytes(*header));
    bytes
}

/// The header of a message with the given payload.
pub open spec fn message_header(msg_type: MsgType, request_id: u32, payload: Seq<u8>) -> Header {
    Header {
        version: VERSION,
        msg_type,
        request_id,
        payload_length: (payload.len() as int % 0x1_0000_0000) as u32,
    }
}

/// A complete message: the header and the payload.
pub open spec fn message_bytes(msg_type: MsgType, request_id: u32, payload: Seq<u8>) -> Seq<u8> {
    header_bytes(message_header(msg_type, request_id, payload)) + payload
}

/// Build a complete message (header + payload).
pub fn build_message(msg_type: MsgType, request_id: u32, payload: &[u8]) -> (msg: Vec<u8>)
    ensures
        msg@ == message_bytes(msg_type, request_id, payload@),
{
    let header = Header {
        version: VERSION,
        msg_type,
        request_id,
        payload_length: low_u32(payload.len()),
    };
    let head: [u8; HEADER_SIZE] = serialize_header(&header);
    let mut msg: Vec<u8> = Vec::new();
    msg.extend_from_slice(&head);
    msg.extend_from_slice(payload);
    assert(msg@ =~= message_bytes(msg_type, request_id, payload@));
    msg
}

/// Whether a header may come from a client, and if not, the first rule that it
/// breaks: its version, its payload's size, its request id.
pub open spec fn spec_validate_client_header(
    h: Header,
    max_version: u8,
    max_payload_size: int,
) -> Result<(), ProtocolErrorView> {
    if h.version > max_version {
        Err(ProtocolErrorView::UnsupportedVersion { got: h.version, max: max_version })
    } else if h.payload_length > max_payload_size {
        Err(
            ProtocolErrorView::PayloadTooLarge {
                size: h.payload_length as int,
                max: max_payload_size,
            },
        )
    } else if h.request_id == 0 {
        Err(ProtocolErrorView::ReservedRequestId)
    } else {
        Ok(())
    }
}

/// Validate an incoming client message header.
pub fn validate_client_header(
    header: &Header,
    max_version: u8,
    max_payload_size: usize,
) -> (r: Result<(), ProtocolError>)
    ensures
        result_view(r) == spec_validate_client_header(
            *header,
            max_version,
            max_payload_size as int,
        ),
{
    if header.version > max_version {
        return Err(
            ProtocolError::UnsupportedVersion { got: header.version, max: max_version },
        );
    }
    if header.payload_length as usize > max_payload_size {
        return Err(
            ProtocolError::PayloadTooLarge {
                size: header.payload_length as usize,
                max: max_payload_size,
            },
        );
    }
    if header.request_id == 0 {
        return Err(ProtocolError::ReservedRequestId);
    }
    Ok(())
}

/// A header that is written out is read back, whatever bytes follow it.
pub proof fn law_header_round_trip(h: Header, rest: Seq<u8>)
    ensures
        spec_parse_header(header_bytes(h) + rest) == Ok::<Header, ProtocolErrorView>(h),
{
    let s = header_bytes(h) + rest;
    let id = le32_bytes(h.request_id as int);
    let len = le32_bytes(h.payload_length as int);
    law_msg_type_codes(h.msg_type.code(), h.msg_type);
    assert(s[0] == 0x44 && s[1] == 0x42 && s[2] == h.version && s[3] == h.msg_type.code());
    assert(s.skip(4) =~= id + (len + rest));
    assert(s.skip(8) =~= len + rest);
    lemma_le32_of_bytes(h.request_id as int, len + rest);
    lemma_le32_of_bytes(h.payload_length as int, rest);
}

/// Bytes that are read as a header start with that header written out: a
/// header has one encoding.
pub proof fn law_header_canonical(s: Seq<u8>, h: Header)
    requires
        spec_parse_header(s) == Ok::<Header, ProtocolErrorView>(h),
    ensures
        s.take(12) == header_bytes(h),
{
    lemma_bytes_of_le32(s.skip(4));
    lemma_bytes_of_le32(s.skip(8));
    assert(s.skip(4).take(4) =~= s.subrange(4, 8));
    assert(s.skip(8).take(4) =~= s.subrange(8, 12));
    law_msg_type_codes(s[3], h.msg_type);
    assert forall|i: int| 0 <= i < 12 implies s.take(12)[i] == header_bytes(h)[i] by {
        if 4 <= i < 8 {
            assert(s.subrange(4, 8)[i - 4] == s[i]);
        }
        if 8 <= i {
            assert(s.subrange(8, 12)[i - 8] == s[i]);
        }
    }
    assert(s.take(12) =~= header_bytes(h));
}

/// The header of a built message says its type, its request id and, for a
/// payload below 4 GiB, the payload's length; the payload follows it.
pub proof fn law_built_message(msg_type: MsgType, request_id: u32, payload: Seq<u8>)
    ensures
        ({
            let msg = message_bytes(msg_type, request_id, payload);
            &&& spec_parse_header(msg) == Ok::<Header, ProtocolErrorView>(
                message_header(msg_type, request_id, payload),
            )
            &&& msg.skip(12) == payload
            &&& payload.len() < 0x1_0000_0000 ==> message_header(
                msg_type,
                request_id,
                payload,
            ).payload_length == payload.len()
        }),
{
    let h = message_header(msg_type, request_id, payload);
    law_header_round_trip(h, payload);
    assert(message_bytes(msg_type, request_id, payload).skip(12) =~= payload);
}

} // verus!
