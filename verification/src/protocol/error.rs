//! What can be wrong with a message, and the text that says so.
use vstd::prelude::*;
use vstd::string::*;

use crate::text::{
    decimal, hex_byte, hex_word, push_decimal, push_hex_byte, push_hex_word, stands_at,
};

verus! {

#[allow(inconsistent_fields)]
#[derive(Debug)]
pub enum ProtocolError {
    BadMagic([u8; 2]),
    UnsupportedVersion { got: u8, max: u8 },
    InvalidMsgType(u8),
    Truncated { expected: usize, got: usize },
    PayloadTooLarge { size: usize, max: usize },
    ReservedRequestId,
    InvalidWriteMode(u8),
    InvalidUtf8(String),
    InvalidKeyTypeHint(u8),
    InvalidErrorCode(u16),
    InvalidQosPolicyId(u8),
    InvalidQosValue(String),
    DuplicateQosPolicy(u8),
    StringTooLong { length: usize, max: usize },
    TrailingBytes(usize),
}

/// The mathematical value of a [`ProtocolError`].
#[allow(inconsistent_fields)]
#[verifier::ext_equal]
pub enum ProtocolErrorView {
    BadMagic(u8, u8),
    UnsupportedVersion { got: u8, max: u8 },
    InvalidMsgType(u8),
    Truncated { expected: int, got: int },
    PayloadTooLarge { size: int, max: int },
    ReservedRequestId,
    InvalidWriteMode(u8),
    InvalidUtf8(Seq<char>),
    InvalidKeyTypeHint(u8),
    InvalidErrorCode(u16),
    InvalidQosPolicyId(u8),
    InvalidQosValue(Seq<char>),
    DuplicateQosPolicy(u8),
    StringTooLong { length: int, max: int },
    TrailingBytes(int),
}

impl View for ProtocolError {
    type V = ProtocolErrorView;

    open spec fn view(&self) -> ProtocolErrorView {
        match *self {
            ProtocolError::BadMagic(m) => ProtocolErrorView::BadMagic(m@[0], m@[1]),
            ProtocolError::UnsupportedVersion { got, max } => {
                ProtocolErrorView::UnsupportedVersion { got, max }
            },
            ProtocolError::InvalidMsgType(b) => ProtocolErrorView::InvalidMsgType(b),
            ProtocolError::Truncated { expected, got } => ProtocolErrorView::Truncated {
                expected: expected as int,
                got: got as int,
            },
            ProtocolError::PayloadTooLarge { size, max } => ProtocolErrorView::PayloadTooLarge {
                size: size as int,
                max: max as int,
            },
            ProtocolError::ReservedRequestId => ProtocolErrorView::ReservedRequestId,
            ProtocolError::InvalidWriteMode(b) => ProtocolErrorView::InvalidWriteMode(b),
            ProtocolError::InvalidUtf8(s) => ProtocolErrorView::InvalidUtf8(s@),
            ProtocolError::InvalidKeyTypeHint(b) => ProtocolErrorView::InvalidKeyTypeHint(b),
            ProtocolError::InvalidErrorCode(w) => ProtocolErrorView::InvalidErrorCode(w),
            ProtocolError::InvalidQosPolicyId(b) => ProtocolErrorView::InvalidQosPolicyId(b),
            ProtocolError::InvalidQosValue(s) => ProtocolErrorView::InvalidQosValue(s@),
            ProtocolError::DuplicateQosPolicy(b) => ProtocolErrorView::DuplicateQosPolicy(b),
            ProtocolError::StringTooLong { length, max } => ProtocolErrorView::StringTooLong {
                length: length as int,
                max: max as int,
            },
            ProtocolError::TrailingBytes(n) => ProtocolErrorView::TrailingBytes(n as int),
        }
    }
}

impl ProtocolErrorView {
    /// The text by which a client is told of the error.
    pub open spec fn message(self) -> Seq<char> {
        match self {
            ProtocolErrorView::BadMagic(a, b) => {
                "bad magic: expected [0x44, 0x42], got ["@ + hex_byte(a) + ", "@ + hex_byte(b)
                    + "]"@
            },
            ProtocolErrorView::UnsupportedVersion { got, max } => {
                "unsupported protocol version "@ + decimal(got as nat)
                    + "; bridge supports up to version "@ + decimal(max as nat)
            },
            ProtocolErrorView::InvalidMsgType(b) => "invalid msg_type: "@ + hex_byte(b),
            ProtocolErrorView::Truncated { expected, got } => {
                "truncated message: expected "@ + decimal(expected as nat) + " bytes, got "@
                    + decimal(got as nat)
            },
            ProtocolErrorView::PayloadTooLarge { size, max } => {
                "payload too large: "@ + decimal(size as nat) + " bytes exceeds maximum "@
                    + decimal(max as nat)
            },
            ProtocolErrorView::ReservedRequestId => {
                "request_id 0 is reserved for bridge-initiated messages"@
            },
            ProtocolErrorView::InvalidWriteMode(b) => "invalid write mode: "@ + hex_byte(b),
            ProtocolErrorView::InvalidUtf8(s) => "invalid UTF-8: "@ + s,
            ProtocolErrorView::InvalidKeyTypeHint(b) => "invalid key type hint: "@ + hex_byte(b),
            ProtocolErrorView::InvalidErrorCode(w) => "invalid error code: "@ + hex_word(w),
            ProtocolErrorView::InvalidQosPolicyId(b) => "invalid QoS policy id: "@ + hex_byte(b),
            ProtocolErrorView::InvalidQosValue(s) => "invalid QoS value: "@ + s,
            ProtocolErrorView::DuplicateQosPolicy(b) => "duplicate QoS policy id: "@ + hex_byte(b),
            ProtocolErrorView::StringTooLong { length, max } => {
                "string too long: "@ + decimal(length as nat) + " bytes exceeds maximum "@
                    + decimal(max as nat)
            },
            ProtocolErrorView::TrailingBytes(n) => {
                "unexpected "@ + decimal(n as nat) + " trailing bytes"@
            },
        }
    }
}

/// `head` followed by `n` in hexadecimal.
fn with_hex_byte(head: &str, n: u8) -> (text: String)
    ensures
        text@ == head@ + hex_byte(n),
{
    let mut text = head.to_owned();
    push_hex_byte(&mut text, n);
    text
}

/// `head`, a number, `middle` and a second number.
pub(crate) fn with_two_numbers(head: &str, a: usize, middle: &str, b: usize) -> (text: String)
    ensures
        text@ == head@ + decimal(a as nat) + middle@ + decimal(b as nat),
{
    let mut text = head.to_owned();
    push_decimal(&mut text, a as u64);
    text.append(middle);
    push_decimal(&mut text, b as u64);
    text
}

impl ProtocolError {
    /// The text by which a client is told of the error.
    pub fn message(&self) -> (text: String)
        ensures
            text@ == self@.message(),
    {
        match self {
            ProtocolError::BadMagic(m) => {
                let mut text = with_hex_byte("bad magic: expected [0x44, 0x42], got [", m[0]);
                text.append(", ");
                push_hex_byte(&mut text, m[1]);
                text.append("]");
                text
            },
            ProtocolError::UnsupportedVersion { got, max } => with_two_numbers(
                "unsupported protocol version ",
                *got as usize,
                "; bridge supports up to version ",
                *max as usize,
            ),
            ProtocolError::InvalidMsgType(b) => with_hex_byte("invalid msg_type: ", *b),
            ProtocolError::Truncated { expected, got } => with_two_numbers(
                "truncated message: expected ",
                *expected,
                " bytes, got ",
                *got,
            ),
            ProtocolError::PayloadTooLarge { size, max } => with_two_numbers(
                "payload too large: ",
                *size,
                " bytes exceeds maximum ",
                *max,
            ),
            ProtocolError::ReservedRequestId => {
                "request_id 0 is reserved for bridge-initiated messages".to_owned()
            },
            ProtocolError::InvalidWriteMode(b) => with_hex_byte("invalid write mode: ", *b),
            ProtocolError::InvalidUtf8(s) => {
                let mut text = "invalid UTF-8: ".to_owned();
                text.append(s.as_str());
                text
            },
            ProtocolError::InvalidKeyTypeHint(b) => with_hex_byte("invalid key type hint: ", *b),
            ProtocolError::InvalidErrorCode(w) => {
                let mut text = "invalid error code: ".to_owned();
                push_hex_word(&mut text, *w);
                text
            },
            ProtocolError::InvalidQosPolicyId(b) => with_hex_byte("invalid QoS policy id: ", *b),
            ProtocolError::InvalidQosValue(s) => {
                let mut text = "invalid QoS value: ".to_owned();
                text.append(s.as_str());
                text
            },
            ProtocolError::DuplicateQosPolicy(b) => {
                with_hex_byte("duplicate QoS policy id: ", *b)
            },
            ProtocolError::StringTooLong { length, max } => with_two_numbers(
                "string too long: ",
                *length,
                " bytes exceeds maximum ",
                *max,
            ),
            ProtocolError::TrailingBytes(n) => {
                let mut text = "unexpected ".to_owned();
                push_decimal(&mut text, *n as u64);
                text.append(" trailing bytes");
                text
            },
        }
    }
}

/// The mathematical value of a result: that of what it holds.
pub open spec fn result_view<T: View, E: View>(r: Result<T, E>) -> Result<T::V, E::V> {
    match r {
        Ok(v) => Ok(v@),
        Err(e) => Err(e@),
    }
}

/// The text of a protocol error says which fault it is and then what was found, and
/// what would have been right where that is not the same for all: each value stands
/// in it in full, behind its own words.
pub proof fn law_error_texts_hold_their_values(e: ProtocolErrorView)
    ensures
        ({
            let text = e.message();
            match e {
                ProtocolErrorView::BadMagic(a, b) => {
                    &&& stands_at(text, 0, "bad magic: expected [0x44, 0x42], got ["@)
                    &&& stands_at(text, 39, hex_byte(a))
                    &&& stands_at(text, (39 + hex_byte(a).len()) as int, ", "@)
                    &&& stands_at(text, (41 + hex_byte(a).len()) as int, hex_byte(b))
                    &&& stands_at(text, (41 + hex_byte(a).len() + hex_byte(b).len()) as int, "]"@)
                    &&& text.len() == 42 + hex_byte(a).len() + hex_byte(b).len()
                },
                ProtocolErrorView::UnsupportedVersion { got, max } => {
                    &&& stands_at(text, 0, "unsupported protocol version "@)
                    &&& stands_at(text, 29, decimal(got as nat))
                    &&& stands_at(text, (29 + decimal(got as nat).len()) as int, "; bridge supports up to version "@)
                    &&& stands_at(text, (61 + decimal(got as nat).len()) as int, decimal(max as nat))
                    &&& text.len() == 61 + decimal(got as nat).len() + decimal(max as nat).len()
                },
                ProtocolErrorView::InvalidMsgType(b) => {
                    &&& stands_at(text, 0, "invalid msg_type: "@)
                    &&& stands_at(text, 18, hex_byte(b))
                    &&& text.len() == 18 + hex_byte(b).len()
                },
                ProtocolErrorView::Truncated { expected, got } => {
                    &&& stands_at(text, 0, "truncated message: expected "@)
                    &&& stands_at(text, 28, decimal(expected as nat))
                    &&& stands_at(text, (28 + decimal(expected as nat).len()) as int, " bytes, got "@)
                    &&& stands_at(text, (40 + decimal(expected as nat).len()) as int, decimal(got as nat))
                    &&& text.len() == 40 + decimal(expected as nat).len() + decimal(got as nat).len()
                },
                ProtocolErrorView::PayloadTooLarge { size, max } => {
                    &&& stands_at(text, 0, "payload too large: "@)
                    &&& stands_at(text, 19, decimal(size as nat))
                    &&& stands_at(text, (19 + decimal(size as nat).len()) as int, " bytes exceeds maximum "@)
                    &&& stands_at(text, (42 + decimal(size as nat).len()) as int, decimal(max as nat))
                    &&& text.len() == 42 + decimal(size as nat).len() + decimal(max as nat).len()
                },
                ProtocolErrorView::ReservedRequestId => {
                    &&& stands_at(text, 0, "request_id 0 is reserved for bridge-initiated messages"@)
                    &&& text.len() == 54
                },
                ProtocolErrorView::InvalidWriteMode(b) => {
                    &&& stands_at(text, 0, "invalid write mode: "@)
                    &&& stands_at(text, 20, hex_byte(b))
                    &&& text.len() == 20 + hex_byte(b).len()
                },
                ProtocolErrorView::InvalidUtf8(s) => {
                    &&& stands_at(text, 0, "invalid UTF-8: "@)
                    &&& stands_at(text, 15, s)
                    &&& text.len() == 15 + s.len()
                },
                ProtocolErrorView::InvalidKeyTypeHint(b) => {
                    &&& stands_at(text, 0, "invalid key type hint: "@)
                    &&& stands_at(text, 23, hex_byte(b))
                    &&& text.len() == 23 + hex_byte(b).len()
                },
                ProtocolErrorView::InvalidErrorCode(w) => {
                    &&& stands_at(text, 0, "invalid error code: "@)
                    &&& stands_at(text, 20, hex_word(w))
                    &&& text.len() == 20 + hex_word(w).len()
                },
                ProtocolErrorView::InvalidQosPolicyId(b) => {
                    &&& stands_at(text, 0, "invalid QoS policy id: "@)
                    &&& stands_at(text, 23, hex_byte(b))
                    &&& text.len() == 23 + hex_byte(b).len()
                },
                ProtocolErrorView::InvalidQosValue(s) => {
                    &&& stands_at(text, 0, "invalid QoS value: "@)
                    &&& stands_at(text, 19, s)
                    &&& text.len() == 19 + s.len()
                },
                ProtocolErrorView::DuplicateQosPolicy(b) => {
                    &&& stands_at(text, 0, "duplicate QoS policy id: "@)
                    &&& stands_at(text, 25, hex_byte(b))
                    &&& text.len() == 25 + hex_byte(b).len()
                },
                ProtocolErrorView::StringTooLong { length, max } => {
                    &&& stands_at(text, 0, "string too long: "@)
                    &&& stands_at(text, 17, decimal(length as nat))
                    &&& stands_at(text, (17 + decimal(length as nat).len()) as int, " bytes exceeds maximum "@)
                    &&& stands_at(text, (40 + decimal(length as nat).len()) as int, decimal(max as nat))
                    &&& text.len() == 40 + decimal(length as nat).len() + decimal(max as nat).len()
                },
                ProtocolErrorView::TrailingBytes(n) => {
                    &&& stands_at(text, 0, "unexpected "@)
                    &&& stands_at(text, 11, decimal(n as nat))
                    &&& stands_at(text, (11 + decimal(n as nat).len()) as int, " trailing bytes"@)
                    &&& text.len() == 26 + decimal(n as nat).len()
                },
            }
        }),
{
    reveal_strlit(" bytes exceeds maximum ");
    reveal_strlit(" bytes, got ");
    reveal_strlit(" trailing bytes");
    reveal_strlit(", ");
    reveal_strlit("; bridge supports up to version ");
    reveal_strlit("]");
    reveal_strlit("bad magic: expected [0x44, 0x42], got [");
    reveal_strlit("duplicate QoS policy id: ");
    reveal_strlit("invalid QoS policy id: ");
    reveal_strlit("invalid QoS value: ");
    reveal_strlit("invalid UTF-8: ");
    reveal_strlit("invalid error code: ");
    reveal_strlit("invalid key type hint: ");
    reveal_strlit("invalid msg_type: ");
    reveal_strlit("invalid write mode: ");
    reveal_strlit("payload too large: ");
    reveal_strlit("request_id 0 is reserved for bridge-initiated messages");
    reveal_strlit("string too long: ");
    reveal_strlit("truncated message: expected ");
    reveal_strlit("unexpected ");
    reveal_strlit("unsupported protocol version ");
    let text = e.message();
    match e {
        ProtocolErrorView::BadMagic(a, b) => {
            let at = (0) as int;
            assert(text.subrange(at, at + "bad magic: expected [0x44, 0x42], got ["@.len()) =~= "bad magic: expected [0x44, 0x42], got ["@);
            let at = (39) as int;
            assert(text.subrange(at, at + hex_byte(a).len()) =~= hex_byte(a));
            let at = (39 + hex_byte(a).len()) as int;
            assert(text.subrange(at, at + ", "@.len()) =~= ", "@);
            let at = (41 + hex_byte(a).len()) as int;
            assert(text.subrange(at, at + hex_byte(b).len()) =~= hex_byte(b));
            let at = (41 + hex_byte(a).len() + hex_byte(b).len()) as int;
            assert(text.subrange(at, at + "]"@.len()) =~= "]"@);
        },
        ProtocolErrorView::UnsupportedVersion { got, max } => {
            let at = (0) as int;
            assert(text.subrange(at, at + "unsupported protocol version "@.len()) =~= "unsupported protocol version "@);
            let at = (29) as int;
            assert(text.subrange(at, at + decimal(got as nat).len()) =~= decimal(got as nat));
            let at = (29 + decimal(got as nat).len()) as int;
            assert(text.subrange(at, at + "; bridge supports up to version "@.len()) =~= "; bridge supports up to version "@);
            let at = (61 + decimal(got as nat).len()) as int;
            assert(text.subrange(at, at + decimal(max as nat).len()) =~= decimal(max as nat));
        },
        ProtocolErrorView::InvalidMsgType(b) => {
            let at = (0) as int;
            assert(text.subrange(at, at + "invalid msg_type: "@.len()) =~= "invalid msg_type: "@);
            let at = (18) as int;
            assert(text.subrange(at, at + hex_byte(b).len()) =~= hex_byte(b));
        },
        ProtocolErrorView::Truncated { expected, got } => {
            let at = (0) as int;
            assert(text.subrange(at, at + "truncated message: expected "@.len()) =~= "truncated message: expected "@);
            let at = (28) as int;
            assert(text.subrange(at, at + decimal(expected as nat).len()) =~= decimal(expected as nat));
            let at = (28 + decimal(expected as nat).len()) as int;
            assert(text.subrange(at, at + " bytes, got "@.len()) =~= " bytes, got "@);
            let at = (40 + decimal(expected as nat).len()) as int;
            assert(text.subrange(at, at + decimal(got as nat).len()) =~= decimal(got as nat));
        },
        ProtocolErrorView::PayloadTooLarge { size, max } => {
            let at = (0) as int;
            assert(text.subrange(at, at + "payload too large: "@.len()) =~= "payload too large: "@);
            let at = (19) as int;
            assert(text.subrange(at, at + decimal(size as nat).len()) =~= decimal(size as nat));
            let at = (19 + decimal(size as nat).len()) as int;
            assert(text.subrange(at, at + " bytes exceeds maximum "@.len()) =~= " bytes exceeds maximum "@);
            let at = (42 + decimal(size as nat).len()) as int;
            assert(text.subrange(at, at + decimal(max as nat).len()) =~= decimal(max as nat));
        },
        ProtocolErrorView::ReservedRequestId => {
            let at = (0) as int;
            assert(text.subrange(at, at + "request_id 0 is reserved for bridge-initiated messages"@.len()) =~= "request_id 0 is reserved for bridge-initiated messages"@);
        },
        ProtocolErrorView::InvalidWriteMode(b) => {
            let at = (0) as int;
            assert(text.subrange(at, at + "invalid write mode: "@.len()) =~= "invalid write mode: "@);
            let at = (20) as int;
            assert(text.subrange(at, at + hex_byte(b).len()) =~= hex_byte(b));
        },
        ProtocolErrorView::InvalidUtf8(s) => {
            let at = (0) as int;
            assert(text.subrange(at, at + "invalid UTF-8: "@.len()) =~= "invalid UTF-8: "@);
            let at = (15) as int;
            assert(text.subrange(at, at + s.len()) =~= s);
        },
        ProtocolErrorView::InvalidKeyTypeHint(b) => {
            let at = (0) as int;
            assert(text.subrange(at, at + "invalid key type hint: "@.len()) =~= "invalid key type hint: "@);
            let at = (23) as int;
            assert(text.subrange(at, at + hex_byte(b).len()) =~= hex_byte(b));
        },
        ProtocolErrorView::InvalidErrorCode(w) => {
            let at = (0) as int;
            assert(text.subrange(at, at + "invalid error code: "@.len()) =~= "invalid error code: "@);
            let at = (20) as int;
            assert(text.subrange(at, at + hex_word(w).len()) =~= hex_word(w));
        },
        ProtocolErrorView::InvalidQosPolicyId(b) => {
            let at = (0) as int;
            assert(text.subrange(at, at + "invalid QoS policy id: "@.len()) =~= "invalid QoS policy id: "@);
            let at = (23) as int;
            assert(text.subrange(at, at + hex_byte(b).len()) =~= hex_byte(b));
        },
        ProtocolErrorView::InvalidQosValue(s) => {
            let at = (0) as int;
            assert(text.subrange(at, at + "invalid QoS value: "@.len()) =~= "invalid QoS value: "@);
            let at = (19) as int;
            assert(text.subrange(at, at + s.len()) =~= s);
        },
        ProtocolErrorView::DuplicateQosPolicy(b) => {
            let at = (0) as int;
            assert(text.subrange(at, at + "duplicate QoS policy id: "@.len()) =~= "duplicate QoS policy id: "@);
            let at = (25) as int;
            assert(text.subrange(at, at + hex_byte(b).len()) =~= hex_byte(b));
        },
        ProtocolErrorView::StringTooLong { length, max } => {
            let at = (0) as int;
            assert(text.subrange(at, at + "string too long: "@.len()) =~= "string too long: "@);
            let at = (17) as int;
            assert(text.subrange(at, at + decimal(length as nat).len()) =~= decimal(length as nat));
            let at = (17 + decimal(length as nat).len()) as int;
            assert(text.subrange(at, at + " bytes exceeds maximum "@.len()) =~= " bytes exceeds maximum "@);
            let at = (40 + decimal(length as nat).len()) as int;
            assert(text.subrange(at, at + decimal(max as nat).len()) =~= decimal(max as nat));
        },
        ProtocolErrorView::TrailingBytes(n) => {
            let at = (0) as int;
            assert(text.subrange(at, at + "unexpected "@.len()) =~= "unexpected "@);
            let at = (11) as int;
            assert(text.subrange(at, at + decimal(n as nat).len()) =~= decimal(n as nat));
            let at = (11 + decimal(n as nat).len()) as int;
            assert(text.subrange(at, at + " trailing bytes"@.len()) =~= " trailing bytes"@);
        },
    }
}

} // verus!
