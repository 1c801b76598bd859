//! How long the texts of errors are: all but one kind fit into a reply.
use vstd::prelude::*;
use vstd::utf8::{decode_utf8_encode_utf8, encode_utf8, valid_utf8};

use crate::dds::error::DdsErrorView;
use crate::protocol::codec::{
    spec_parse_key_descriptors, spec_parse_key_field, spec_parse_key_fields, spec_read_bool,
    spec_read_string, string_fits, Reading, MAX_STRING_LENGTH,
};
use crate::protocol::error::ProtocolErrorView;
use crate::protocol::payload::{
    spec_parse_delete_writer, spec_parse_endpoint, spec_parse_unsubscribe, spec_parse_write_mode,
    WriteModeView,
};
use crate::qos::codec::{
    bool_text, range_text, spec_parse_policies, spec_parse_policy, spec_parse_qos,
    spec_read_flag, spec_read_kind, spec_read_kind_u32, spec_read_partitions,
    spec_read_presentation, spec_read_strings, spec_read_u32,
};
use crate::text::{decimal, signed_decimal};
use crate::wire::{buffer_limit, le32};

verus! {

/// A text of at most four million characters fits into a reply, whatever the
/// characters are.
pub proof fn lemma_text_fits(text: Seq<char>)
    requires
        text.len() <= 4_000_000,
    ensures
        encode_utf8(text).len() + 6 <= buffer_limit(),
{
    lemma_utf8_length(text);
}

/// A character takes one to four bytes.
pub proof fn lemma_utf8_length(text: Seq<char>)
    ensures
        text.len() <= encode_utf8(text).len() <= 4 * text.len(),
    decreases text.len(),
{
    if text.len() > 0 {
        lemma_utf8_length(text.drop_first());
    }
}

/// The power of ten.
spec fn power(k: nat) -> nat
    decreases k,
{
    if k == 0 {
        1
    } else {
        10 * power((k - 1) as nat)
    }
}

proof fn lemma_digits(n: nat, k: nat)
    requires
        n < power(k),
        k > 0,
    ensures
        decimal(n).len() <= k,
    decreases k,
{
    if n >= 10 {
        if k == 1 {
            assert(power(0) == 1);
        } else {
            lemma_digits(n / 10, (k - 1) as nat);
        }
    }
}

/// A number of 64 bits has at most twenty digits.
pub proof fn lemma_decimal_length(n: nat)
    requires
        n <= u64::MAX,
    ensures
        decimal(n).len() <= 20,
{
    assert(power(20) == 100_000_000_000_000_000_000) by {
        reveal_with_fuel(power, 21);
    }
    lemma_digits(n, 20);
}

// ---------------------------------------------------------------------------
// Errors on payloads
// ---------------------------------------------------------------------------

/// Whether an error holds nothing long but, where bytes are not UTF-8, what is
/// said of them.
pub open spec fn modest(e: ProtocolErrorView) -> bool {
    match e {
        ProtocolErrorView::Truncated { expected, got } => 0 <= expected <= u64::MAX && 0 <= got
            <= u64::MAX,
        ProtocolErrorView::PayloadTooLarge { size, max } => 0 <= size <= u64::MAX && 0 <= max
            <= u64::MAX,
        ProtocolErrorView::StringTooLong { length, max } => 0 <= length <= u64::MAX && 0 <= max
            <= u64::MAX,
        ProtocolErrorView::TrailingBytes(n) => 0 <= n <= u64::MAX,
        ProtocolErrorView::InvalidQosValue(s) => s.len() <= 200,
        _ => true,
    }
}

/// Whether a reading took what it read off the front, and its error is modest.
pub open spec fn modest_reading<T>(s: Seq<u8>, r: Reading<T>) -> bool {
    &&& r.1.len() <= s.len()
    &&& r.0 matches Err(e) ==> modest(e)
}

/// A modest error that is not about UTF-8 has a short text.
pub proof fn lemma_modest_message(e: ProtocolErrorView)
    requires
        modest(e),
        e !is InvalidUtf8,
    ensures
        e.message().len() <= 1000,
{
    match e {
        ProtocolErrorView::BadMagic(a, b) => {
            reveal_strlit("bad magic: expected [0x44, 0x42], got [");
            reveal_strlit(", ");
            reveal_strlit("]");
        },
        ProtocolErrorView::UnsupportedVersion { got, max } => {
            reveal_strlit("unsupported protocol version ");
            reveal_strlit("; bridge supports up to version ");
            lemma_decimal_length(got as nat);
            lemma_decimal_length(max as nat);
        },
        ProtocolErrorView::InvalidMsgType(b) => {
            reveal_strlit("invalid msg_type: ");
        },
        ProtocolErrorView::Truncated { expected, got } => {
            reveal_strlit("truncated message: expected ");
            reveal_strlit(" bytes, got ");
            lemma_decimal_length(expected as nat);
            lemma_decimal_length(got as nat);
        },
        ProtocolErrorView::PayloadTooLarge { size, max } => {
            reveal_strlit("payload too large: ");
            reveal_strlit(" bytes exceeds maximum ");
            lemma_decimal_length(size as nat);
            lemma_decimal_length(max as nat);
        },
        ProtocolErrorView::ReservedRequestId => {
            reveal_strlit("request_id 0 is reserved for bridge-initiated messages");
        },
        ProtocolErrorView::InvalidWriteMode(b) => {
            reveal_strlit("invalid write mode: ");
        },
        ProtocolErrorView::InvalidUtf8(_) => {},
        ProtocolErrorView::InvalidKeyTypeHint(b) => {
            reveal_strlit("invalid key type hint: ");
        },
        ProtocolErrorView::InvalidErrorCode(w) => {
            reveal_strlit("invalid error code: ");
        },
        ProtocolErrorView::InvalidQosPolicyId(b) => {
            reveal_strlit("invalid QoS policy id: ");
        },
        ProtocolErrorView::InvalidQosValue(s) => {
            reveal_strlit("invalid QoS value: ");
        },
        ProtocolErrorView::DuplicateQosPolicy(b) => {
            reveal_strlit("duplicate QoS policy id: ");
        },
        ProtocolErrorView::StringTooLong { length, max } => {
            reveal_strlit("string too long: ");
            reveal_strlit(" bytes exceeds maximum ");
            lemma_decimal_length(length as nat);
            lemma_decimal_length(max as nat);
        },
        ProtocolErrorView::TrailingBytes(n) => {
            reveal_strlit("unexpected ");
            reveal_strlit(" trailing bytes");
            lemma_decimal_length(n as nat);
        },
    }
}

/// Reading a string; a string that is read is not longer than one may be.
pub proof fn lemma_string_modest(s: Seq<u8>)
    requires
        s.len() <= u64::MAX,
    ensures
        modest_reading(s, spec_read_string(s)),
        spec_read_string(s).0 matches Ok(text) ==> string_fits(text),
{
    if s.len() >= 4 {
        let n = le32(s);
        let rest = s.skip(4);
        if n <= MAX_STRING_LENGTH && rest.len() >= n {
            if valid_utf8(rest.take(n)) {
                decode_utf8_encode_utf8(rest.take(n));
            }
        }
    }
}

proof fn lemma_strings_modest(s: Seq<u8>, count: nat)
    requires
        s.len() <= u64::MAX,
    ensures
        modest_reading(s, spec_read_strings(s, count)),
    decreases count,
{
    if count > 0 {
        lemma_string_modest(s);
        let (r, rest) = spec_read_string(s);
        if r is Ok {
            lemma_strings_modest(rest, (count - 1) as nat);
        }
    }
}

proof fn lemma_range_text_short(name: Seq<char>, value: u8, max: u8)
    requires
        name.len() <= 100,
    ensures
        range_text(name, value, max).len() <= 200,
        bool_text(name, value).len() <= 200,
{
    reveal_strlit(": ");
    reveal_strlit(" not in 0..=");
    reveal_strlit(": expected 0 or 1, got ");
    lemma_decimal_length(value as nat);
    lemma_decimal_length(max as nat);
}

proof fn lemma_kind_modest(s: Seq<u8>, name: Seq<char>, max: u8)
    requires
        s.len() <= u64::MAX,
        name.len() <= 100,
    ensures
        modest_reading(s, spec_read_kind(s, name, max)),
        modest_reading(s, spec_read_kind_u32(s, name, max)),
        modest_reading(s, spec_read_flag(s, name)),
{
    if s.len() > 0 {
        lemma_range_text_short(name, s[0], max);
    }
}

proof fn lemma_presentation_modest(s: Seq<u8>)
    requires
        s.len() <= u64::MAX,
    ensures
        modest_reading(s, spec_read_presentation(s)),
{
    if s.len() >= 3 {
        reveal_strlit("presentation access_scope");
        reveal_strlit("presentation coherent_access");
        reveal_strlit("presentation ordered_access");
        lemma_range_text_short("presentation access_scope"@, s[0], 2);
        lemma_range_text_short("presentation coherent_access"@, s[1], 1);
        lemma_range_text_short("presentation ordered_access"@, s[2], 1);
    }
}

proof fn lemma_policy_modest(id: u8, s: Seq<u8>)
    requires
        s.len() <= u64::MAX,
    ensures
        modest_reading(s, spec_parse_policy(id, s)),
{
    reveal(spec_parse_policy);
    if id == 0x01 {
        reveal_strlit("reliability kind");
        lemma_kind_modest(s, "reliability kind"@, 1);
    } else if id == 0x02 {
        reveal_strlit("durability kind");
        lemma_kind_modest(s, "durability kind"@, 3);
    } else if id == 0x03 {
        reveal_strlit("history kind");
        lemma_kind_modest(s, "history kind"@, 1);
    } else if id == 0x07 {
        reveal_strlit("liveliness kind");
        lemma_kind_modest(s, "liveliness kind"@, 2);
    } else if id == 0x08 {
        reveal_strlit("destination_order kind");
        lemma_kind_modest(s, "destination_order kind"@, 1);
    } else if id == 0x09 {
        lemma_presentation_modest(s);
    } else if id == 0x0A {
        if s.len() > 0 {
            lemma_strings_modest(s.skip(1), s[0] as nat);
        }
        assert(modest_reading(s, spec_read_partitions(s)));
    } else if id == 0x0B {
        reveal_strlit("ownership kind");
        lemma_kind_modest(s, "ownership kind"@, 1);
    } else if id == 0x0C {
        reveal_strlit("autodispose_unregistered_instances");
        lemma_kind_modest(s, "autodispose_unregistered_instances"@, 1);
    } else {
        assert(modest_reading(s, spec_read_u32(s)));
    }
}

proof fn lemma_policies_modest(s: Seq<u8>, count: nat, seen: Set<u8>)
    requires
        s.len() <= u64::MAX,
    ensures
        modest_reading(s, spec_parse_policies(s, count, seen)),
    decreases count,
{
    if count > 0 && s.len() > 0 && !seen.contains(s[0]) {
        lemma_policy_modest(s[0], s.skip(1));
        let (r, rest) = spec_parse_policy(s[0], s.skip(1));
        if r is Ok {
            lemma_policies_modest(rest, (count - 1) as nat, seen.insert(s[0]));
        }
    }
}

proof fn lemma_qos_modest(s: Seq<u8>)
    requires
        s.len() <= u64::MAX,
    ensures
        modest_reading(s, spec_parse_qos(s)),
{
    if s.len() > 0 {
        lemma_policies_modest(s.skip(1), s[0] as nat, Set::empty());
    }
}

proof fn lemma_key_fields_modest(s: Seq<u8>, count: nat)
    requires
        s.len() <= u64::MAX,
    ensures
        modest_reading(s, spec_parse_key_fields(s, count)),
    decreases count,
{
    if count > 0 {
        let (r, rest) = spec_parse_key_field(s);
        if r is Ok {
            lemma_key_fields_modest(rest, (count - 1) as nat);
        }
    }
}

proof fn lemma_keys_modest(s: Seq<u8>)
    requires
        s.len() <= u64::MAX,
    ensures
        modest_reading(s, spec_parse_key_descriptors(s)),
{
    if s.len() > 0 {
        lemma_key_fields_modest(s.skip(1), s[0] as nat);
    }
}

/// Reading a subscription or a writer to create.
pub proof fn lemma_endpoint_modest(s: Seq<u8>)
    requires
        s.len() <= u64::MAX,
    ensures
        spec_parse_endpoint(s) matches Err(e) ==> modest(e),
        spec_parse_endpoint(s) matches Ok(p) ==> string_fits(p.topic_name) && string_fits(
            p.typename,
        ),
{
    lemma_string_modest(s);
    let (r1, s1) = spec_read_string(s);
    lemma_string_modest(s1);
    let (r2, s2) = spec_read_string(s1);
    lemma_qos_modest(s2);
    let (r3, s3) = spec_parse_qos(s2);
    let (r4, s4) = spec_read_bool(s3);
    assert(modest_reading(s3, spec_read_bool(s3)));
    lemma_keys_modest(s4);
}

/// Reading the end of a subscription.
pub proof fn lemma_unsubscribe_modest(s: Seq<u8>)
    requires
        s.len() <= u64::MAX,
    ensures
        spec_parse_unsubscribe(s) matches Err(e) ==> modest(e),
        spec_parse_unsubscribe(s) matches Ok(p) ==> string_fits(p.topic_name) && string_fits(
            p.typename,
        ),
{
    lemma_string_modest(s);
    let (r1, s1) = spec_read_string(s);
    lemma_string_modest(s1);
}

/// Reading a write.
pub proof fn lemma_write_mode_modest(s: Seq<u8>)
    requires
        s.len() <= u64::MAX,
    ensures
        spec_parse_write_mode(s) matches Err(e) ==> modest(e),
        spec_parse_write_mode(s) matches Ok(mode) ==> (mode
            matches WriteModeView::TopicName { topic_name, typename, .. }
            ==> string_fits(topic_name) && string_fits(typename)),
{
    if s.len() > 0 {
        let s0 = s.skip(1);
        lemma_string_modest(s0);
        let (r1, s1) = spec_read_string(s0);
        lemma_string_modest(s1);
        let (r2, s2) = spec_read_string(s1);
        lemma_qos_modest(s2);
        let (r3, s3) = spec_parse_qos(s2);
        lemma_keys_modest(s3);
    }
}

/// Reading the deletion of a writer.
pub proof fn lemma_delete_writer_modest(s: Seq<u8>)
    requires
        s.len() <= u64::MAX,
    ensures
        spec_parse_delete_writer(s) matches Err(e) ==> modest(e),
{
}

// ---------------------------------------------------------------------------
// Errors of the DDS layer
// ---------------------------------------------------------------------------

/// The text of a DDS error is short where its name is.
pub proof fn lemma_dds_message(e: DdsErrorView)
    requires
        e matches DdsErrorView::InvalidName(name) ==> string_fits(name),
    ensures
        e.message().len() <= 2_000_000,
{
    match e {
        DdsErrorView::InvalidName(name) => {
            reveal_strlit("invalid name: ");
            lemma_utf8_length(name);
        },
        DdsErrorView::WriterNotFound(id) => {
            reveal_strlit("writer not found: ");
            lemma_decimal_length(id as nat);
        },
        DdsErrorView::WriterOwnership(id) => {
            reveal_strlit("writer ownership violation: writer ");
            reveal_strlit(" belongs to another session");
            lemma_decimal_length(id as nat);
        },
        DdsErrorView::CreateParticipant(rc) => {
            reveal_strlit("failed to create DomainParticipant: DDS error code ");
            lemma_code_length(rc);
        },
        DdsErrorView::CreateTopic(rc) => {
            reveal_strlit("failed to create topic: DDS error code ");
            lemma_code_length(rc);
        },
        DdsErrorView::CreateWriter(rc) => {
            reveal_strlit("failed to create writer: DDS error code ");
            lemma_code_length(rc);
        },
        DdsErrorView::CreateReader(rc) => {
            reveal_strlit("failed to create reader: DDS error code ");
            lemma_code_length(rc);
        },
        DdsErrorView::Write(rc) => {
            reveal_strlit("DDS write failed: error code ");
            lemma_code_length(rc);
        },
        DdsErrorView::Dispose(rc) => {
            reveal_strlit("DDS dispose failed: error code ");
            lemma_code_length(rc);
        },
        DdsErrorView::WriteDispose(rc) => {
            reveal_strlit("DDS writedispose failed: error code ");
            lemma_code_length(rc);
        },
        DdsErrorView::Read(rc) => {
            reveal_strlit("DDS read/take failed: error code ");
            lemma_code_length(rc);
        },
    }
}

proof fn lemma_code_length(rc: i32)
    ensures
        signed_decimal(rc as int).len() <= 21,
{
    if rc < 0 {
        lemma_decimal_length((-rc) as nat);
    } else {
        lemma_decimal_length(rc as nat);
    }
}

} // verus!
