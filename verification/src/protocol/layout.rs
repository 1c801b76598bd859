//! Where everything stands in a message, byte by byte.
use vstd::prelude::*;
use vstd::utf8::{decode_utf8_encode_utf8, encode_utf8, valid_utf8};

use crate::protocol::codec::{
    key_descriptors_bytes, key_field_bytes, key_field_parts, law_string_round_trip,
    spec_read_bool, spec_read_string, string_bytes, string_fits, KeyField, KeyTypeHint,
};
use crate::protocol::error::ProtocolErrorView;
use crate::protocol::header::{
    header_bytes, message_bytes, message_header, spec_parse_header, spec_validate_client_header,
    Header, MsgType,
};
use crate::protocol::payload::{
    endpoint_bytes, error_bytes, law_error_codes, no_writers_bytes, sample_bytes,
    spec_parse_delete_writer, spec_parse_error, spec_parse_unsubscribe, spec_parse_write_mode,
    unsubscribe_bytes, write_mode_bytes, EndpointView, ErrorCode, ErrorPayloadView, NoWritersView,
    SampleView, TopicView, WriteModeView,
};
use crate::qos::codec::{policy_bytes, policy_parts, qos_bytes, string_parts};
use crate::qos::policy::QosPolicyView;
use crate::wire::{
    concat, le16, le16_bytes, le32, le32_bytes, le64, le64_bytes, lemma_concat_join,
    lemma_le16_of_bytes, lemma_le32_of_bytes, lemma_le64_of_bytes,
};

verus! {

broadcast use crate::wire::group_le_lengths;

// ---------------------------------------------------------------------------
// Integers
// ---------------------------------------------------------------------------

/// The number whose bytes these are, the lowest first.
pub open spec fn little_endian(bytes: Seq<u8>) -> int
    decreases bytes.len(),
{
    if bytes.len() == 0 {
        0
    } else {
        bytes[0] + 256 * little_endian(bytes.drop_first())
    }
}

proof fn lemma_little_endian_32(s: Seq<u8>)
    requires
        s.len() == 4,
    ensures
        little_endian(s) == le32(s),
{
    reveal_with_fuel(little_endian, 5);
    let s1 = s.drop_first();
    let s2 = s1.drop_first();
    let s3 = s2.drop_first();
    assert(s1[0] == s[1] && s2[0] == s[2] && s3[0] == s[3]);
}

proof fn lemma_little_endian_16(s: Seq<u8>)
    requires
        s.len() == 2,
    ensures
        little_endian(s) == le16(s),
{
    reveal_with_fuel(little_endian, 3);
    assert(s.drop_first()[0] == s[1]);
}

proof fn lemma_little_endian_join(a: Seq<u8>, b: Seq<u8>)
    requires
        a.len() == 4,
    ensures
        little_endian(a + b) == little_endian(a) + 0x1_0000_0000 * little_endian(b),
{
    reveal_with_fuel(little_endian, 5);
    let s = a + b;
    let s1 = s.drop_first();
    let s2 = s1.drop_first();
    let s3 = s2.drop_first();
    assert(s1[0] == a[1] && s2[0] == a[2] && s3[0] == a[3]);
    assert(s3.drop_first() =~= b);
    let a1 = a.drop_first();
    let a2 = a1.drop_first();
    let a3 = a2.drop_first();
    assert(a1[0] == a[1] && a2[0] == a[2] && a3[0] == a[3]);
    assert(a3.drop_first() =~= Seq::<u8>::empty());
}

/// Integers are written with the lowest byte first, in two, four and eight
/// bytes.
pub proof fn law_integers_are_little_endian(v: int)
    ensures
        0 <= v < 0x1_0000 ==> le16_bytes(v).len() == 2 && little_endian(le16_bytes(v)) == v,
        0 <= v < 0x1_0000_0000 ==> le32_bytes(v).len() == 4 && little_endian(le32_bytes(v)) == v,
        0 <= v < 0x1_0000_0000_0000_0000 ==> le64_bytes(v).len() == 8 && little_endian(
            le64_bytes(v),
        ) == v,
{
    let none = Seq::<u8>::empty();
    if 0 <= v < 0x1_0000 {
        lemma_le16_of_bytes(v, none);
        assert(le16_bytes(v) + none =~= le16_bytes(v));
        lemma_little_endian_16(le16_bytes(v));
    }
    if 0 <= v < 0x1_0000_0000 {
        lemma_le32_of_bytes(v, none);
        assert(le32_bytes(v) + none =~= le32_bytes(v));
        lemma_little_endian_32(le32_bytes(v));
    }
    if 0 <= v < 0x1_0000_0000_0000_0000 {
        lemma_le64_of_bytes(v, none);
        let s = le64_bytes(v);
        assert(s + none =~= s);
        let low = s.take(4);
        let high = s.skip(4);
        assert(s =~= low + high);
        lemma_little_endian_join(low, high);
        lemma_little_endian_32(low);
        lemma_little_endian_32(high);
    }
}

/// Integers are read with the lowest byte first.
pub proof fn law_integers_are_read_little_endian(s: Seq<u8>)
    ensures
        s.len() >= 2 ==> le16(s) == little_endian(s.take(2)),
        s.len() >= 4 ==> le32(s) == little_endian(s.take(4)),
        s.len() >= 8 ==> le64(s) == little_endian(s.take(8)),
{
    if s.len() >= 2 {
        lemma_little_endian_16(s.take(2));
    }
    if s.len() >= 4 {
        lemma_little_endian_32(s.take(4));
    }
    if s.len() >= 8 {
        let high = s.skip(4).take(4);
        assert(s.take(8) =~= s.take(4) + high);
        lemma_little_endian_join(s.take(4), high);
        lemma_little_endian_32(high);
    }
}

// ---------------------------------------------------------------------------
// Headers
// ---------------------------------------------------------------------------

/// The codes of the messages: those of clients, and those of the bridge.
pub proof fn law_message_codes()
    ensures
        MsgType::Subscribe.code() == 0x01,
        MsgType::Unsubscribe.code() == 0x02,
        MsgType::Write.code() == 0x03,
        MsgType::Dispose.code() == 0x04,
        MsgType::WriteDispose.code() == 0x05,
        MsgType::CreateWriter.code() == 0x10,
        MsgType::DeleteWriter.code() == 0x11,
        MsgType::Ping.code() == 0x0F,
        MsgType::Okay.code() == 0x80,
        MsgType::Data.code() == 0xC0,
        MsgType::DataDisposed.code() == 0xC1,
        MsgType::DataNoWriters.code() == 0xC2,
        MsgType::Error.code() == 0xFE,
        MsgType::Pong.code() == 0x8F,
{
}

/// The names of the messages, as they are told.
pub proof fn law_message_names()
    ensures
        MsgType::Subscribe.name() == "Subscribe"@,
        MsgType::Unsubscribe.name() == "Unsubscribe"@,
        MsgType::Write.name() == "Write"@,
        MsgType::Dispose.name() == "Dispose"@,
        MsgType::WriteDispose.name() == "WriteDispose"@,
        MsgType::CreateWriter.name() == "CreateWriter"@,
        MsgType::DeleteWriter.name() == "DeleteWriter"@,
        MsgType::Ping.name() == "Ping"@,
        MsgType::Okay.name() == "Ok"@,
        MsgType::Data.name() == "Data"@,
        MsgType::DataDisposed.name() == "DataDisposed"@,
        MsgType::DataNoWriters.name() == "DataNoWriters"@,
        MsgType::Error.name() == "Error"@,
        MsgType::Pong.name() == "Pong"@,
{
}

/// A header has twelve bytes: "DB", the version, the code of the message, the
/// request id and the length of the payload.
pub proof fn law_header_layout(h: Header)
    ensures
        ({
            let b = header_bytes(h);
            &&& b.len() == 12
            &&& b[0] == 0x44
            &&& b[1] == 0x42
            &&& b[2] == h.version
            &&& b[3] == h.msg_type.code()
            &&& little_endian(b.subrange(4, 8)) == h.request_id
            &&& little_endian(b.subrange(8, 12)) == h.payload_length
        }),
{
    let b = header_bytes(h);
    law_integers_are_little_endian(h.request_id as int);
    law_integers_are_little_endian(h.payload_length as int);
    assert(b.subrange(4, 8) =~= le32_bytes(h.request_id as int));
    assert(b.subrange(8, 12) =~= le32_bytes(h.payload_length as int));
}

/// A header is read off its twelve bytes if and only if they start with "DB" and
/// the fourth is the code of a message; the fields stand where they are written,
/// and the version does not count.
pub proof fn law_headers_that_are_read(s: Seq<u8>)
    ensures
        spec_parse_header(s) is Ok <==> s.len() >= 12 && s[0] == 0x44 && s[1] == 0x42 && exists|
            t: MsgType,
        | #[trigger] t.code() == s[3],
        spec_parse_header(s) matches Ok(h) ==> {
            &&& h.version == s[2]
            &&& h.msg_type.code() == s[3]
            &&& h.request_id == little_endian(s.subrange(4, 8))
            &&& h.payload_length == little_endian(s.subrange(8, 12))
        },
        s.len() < 12 ==> spec_parse_header(s) == Err::<Header, ProtocolErrorView>(
            ProtocolErrorView::Truncated { expected: 12, got: s.len() as int },
        ),
        s.len() >= 12 && !(s[0] == 0x44 && s[1] == 0x42) ==> spec_parse_header(s) == Err::<
            Header,
            ProtocolErrorView,
        >(ProtocolErrorView::BadMagic(s[0], s[1])),
        s.len() >= 12 && s[0] == 0x44 && s[1] == 0x42 && spec_parse_header(s) is Err
            ==> spec_parse_header(s) == Err::<Header, ProtocolErrorView>(
            ProtocolErrorView::InvalidMsgType(s[3]),
        ),
{
    if s.len() >= 12 {
        law_integers_are_read_little_endian(s.skip(4));
        law_integers_are_read_little_endian(s.skip(8));
        assert(s.skip(4).take(4) =~= s.subrange(4, 8));
        assert(s.skip(8).take(4) =~= s.subrange(8, 12));
        if let Ok(h) = spec_parse_header(s) {
            assert(h.msg_type.code() == s[3]);
        }
    }
}

/// A message is its header and, behind it, its payload unchanged. The header
/// has version 1 and says the length of the payload.
pub proof fn law_message_layout(msg_type: MsgType, request_id: u32, payload: Seq<u8>)
    ensures
        ({
            let m = message_bytes(msg_type, request_id, payload);
            &&& m.len() == 12 + payload.len()
            &&& m[0] == 0x44
            &&& m[1] == 0x42
            &&& m[2] == 1
            &&& m[3] == msg_type.code()
            &&& little_endian(m.subrange(4, 8)) == request_id
            &&& payload.len() < 0x1_0000_0000 ==> little_endian(m.subrange(8, 12))
                == payload.len()
            &&& m.skip(12) == payload
        }),
{
    let h = message_header(msg_type, request_id, payload);
    let b = header_bytes(h);
    let m = message_bytes(msg_type, request_id, payload);
    law_header_layout(h);
    assert(m =~= b + payload);
    assert(m.subrange(4, 8) =~= b.subrange(4, 8));
    assert(m.subrange(8, 12) =~= b.subrange(8, 12));
    assert(m.skip(12) =~= payload);
}

/// The header of a client is accepted if and only if its version is supported,
/// its payload is within the limit and its request id is not 0; of several
/// faults, the first of these is told.
pub proof fn law_client_headers_that_are_accepted(h: Header, max_version: u8, max_payload: int)
    ensures
        spec_validate_client_header(h, max_version, max_payload) is Ok <==> h.version
            <= max_version && h.payload_length <= max_payload && h.request_id != 0,
        h.version > max_version ==> spec_validate_client_header(h, max_version, max_payload)
            == Err::<(), ProtocolErrorView>(
            ProtocolErrorView::UnsupportedVersion { got: h.version, max: max_version },
        ),
        h.version <= max_version && h.payload_length > max_payload ==> spec_validate_client_header(
            h,
            max_version,
            max_payload,
        ) == Err::<(), ProtocolErrorView>(
            ProtocolErrorView::PayloadTooLarge { size: h.payload_length as int, max: max_payload },
        ),
        h.version <= max_version && h.payload_length <= max_payload && h.request_id == 0
            ==> spec_validate_client_header(h, max_version, max_payload) == Err::<
            (),
            ProtocolErrorView,
        >(ProtocolErrorView::ReservedRequestId),
{
}

// ---------------------------------------------------------------------------
// Strings and keys
// ---------------------------------------------------------------------------

/// A string is written as the number of its UTF-8 bytes, in four bytes, and
/// those bytes.
pub proof fn law_string_layout(text: Seq<char>)
    requires
        encode_utf8(text).len() < 0x1_0000_0000,
    ensures
        string_bytes(text).len() == 4 + encode_utf8(text).len(),
        little_endian(string_bytes(text).take(4)) == encode_utf8(text).len(),
        string_bytes(text).skip(4) == encode_utf8(text),
{
    let n = encode_utf8(text).len() as int;
    law_integers_are_little_endian(n);
    assert(string_bytes(text).take(4) =~= le32_bytes(n));
    assert(string_bytes(text).skip(4) =~= encode_utf8(text));
}

/// What is wrong with a string: fewer bytes than its length has, a length of
/// more than a mebibyte, fewer bytes than its length says, or bytes that are not
/// UTF-8. Any other string is read, and what is behind it is left.
pub proof fn law_strings_that_are_read(s: Seq<u8>)
    ensures
        ({
            let n = little_endian(s.take(4));
            let (r, rest) = spec_read_string(s);
            &&& s.len() < 4 ==> r == Err::<Seq<char>, ProtocolErrorView>(
                ProtocolErrorView::Truncated { expected: 4, got: s.len() as int },
            )
            &&& s.len() >= 4 && n > 1_048_576 ==> r == Err::<Seq<char>, ProtocolErrorView>(
                ProtocolErrorView::StringTooLong { length: n, max: 1_048_576 },
            )
            &&& s.len() >= 4 && n <= 1_048_576 && s.len() - 4 < n ==> r == Err::<
                Seq<char>,
                ProtocolErrorView,
            >(ProtocolErrorView::Truncated { expected: n, got: s.len() - 4 })
            &&& s.len() >= 4 && n <= 1_048_576 && n <= s.len() - 4 ==> {
                &&& r is Ok <==> valid_utf8(s.subrange(4, 4 + n))
                &&& r is Err ==> r->Err_0 is InvalidUtf8
                &&& r matches Ok(text) ==> encode_utf8(text) == s.subrange(4, 4 + n) && rest
                    == s.skip(4 + n)
            }
        }),
{
    if s.len() >= 4 {
        law_integers_are_read_little_endian(s);
        let n = le32(s);
        if n <= 1_048_576 && n <= s.len() - 4 {
            assert(s.skip(4).take(n) =~= s.subrange(4, 4 + n));
            assert(s.skip(4).skip(n) =~= s.skip(4 + n));
            if valid_utf8(s.subrange(4, 4 + n)) {
                decode_utf8_encode_utf8(s.subrange(4, 4 + n));
            }
        }
    }
}

/// A flag is one byte, and any byte but 0 says yes.
pub proof fn law_flags_that_are_read(s: Seq<u8>)
    ensures
        s.len() == 0 ==> spec_read_bool(s).0 == Err::<bool, ProtocolErrorView>(
            ProtocolErrorView::Truncated { expected: 1, got: 0 },
        ),
        s.len() > 0 ==> spec_read_bool(s) == (
            Ok::<bool, ProtocolErrorView>(s[0] != 0),
            s.drop_first(),
        ),
{
    if s.len() > 0 {
        assert(s.skip(1) =~= s.drop_first());
    }
}

/// Key fields are written as their number, in one byte, and nine bytes each: the
/// offset and the size in four bytes, and the hint.
pub proof fn law_key_descriptors_layout(keys: Seq<KeyField>, key: KeyField)
    ensures
        KeyTypeHint::Opaque.code() == 0,
        KeyTypeHint::Uuid.code() == 1,
        KeyTypeHint::Int32.code() == 2,
        KeyTypeHint::Int64.code() == 3,
        KeyTypeHint::String.code() == 4,
        key_descriptors_bytes(Seq::empty()) == seq![0u8],
        keys.len() <= 255 ==> key_descriptors_bytes(keys)[0] == keys.len(),
        ({
            let more = key_descriptors_bytes(keys.push(key));
            let n = more.len() as int;
            &&& n == key_descriptors_bytes(keys).len() + 9
            &&& more.subrange(1, n - 9) == key_descriptors_bytes(keys).skip(1)
            &&& little_endian(more.subrange(n - 9, n - 5)) == key.offset
            &&& little_endian(more.subrange(n - 5, n - 1)) == key.size
            &&& more[n - 1] == key.type_hint.code()
        }),
{
    let parts = key_field_parts(keys);
    assert(key_field_parts(Seq::<KeyField>::empty()) =~= Seq::<Seq<u8>>::empty());
    assert(key_descriptors_bytes(Seq::empty()) =~= seq![0u8]);
    lemma_concat_last(key_field_parts(keys), key_field_bytes(key));
    assert(key_field_parts(keys.push(key)) =~= parts.push(key_field_bytes(key)));
    let more = key_descriptors_bytes(keys.push(key));
    let n = more.len() as int;
    law_integers_are_little_endian(key.offset as int);
    law_integers_are_little_endian(key.size as int);
    assert(more.subrange(1, n - 9) =~= key_descriptors_bytes(keys).skip(1));
    assert(more.subrange(n - 9, n - 5) =~= le32_bytes(key.offset as int));
    assert(more.subrange(n - 5, n - 1) =~= le32_bytes(key.size as int));
}

proof fn lemma_concat_last(parts: Seq<Seq<u8>>, last: Seq<u8>)
    ensures
        concat(parts.push(last)) == concat(parts) + last,
{
    let one = seq![last];
    assert(one.drop_first() =~= Seq::<Seq<u8>>::empty());
    assert(concat(one) =~= last + concat(Seq::<Seq<u8>>::empty()));
    assert(concat(one) =~= last);
    assert(parts.push(last) =~= parts + one);
    lemma_concat_join(parts, one);
}

// ---------------------------------------------------------------------------
// QoS
// ---------------------------------------------------------------------------

/// Policies are written as their number, in one byte, and one after the other.
pub proof fn law_qos_layout(policies: Seq<QosPolicyView>, policy: QosPolicyView)
    ensures
        qos_bytes(Seq::empty()) == seq![0u8],
        policies.len() <= 255 ==> qos_bytes(policies)[0] == policies.len(),
        qos_bytes(policies.push(policy)).skip(1) == qos_bytes(policies).skip(1) + policy_bytes(
            policy,
        ),
{
    assert(policy_parts(Seq::<QosPolicyView>::empty()) =~= Seq::<Seq<u8>>::empty());
    assert(qos_bytes(Seq::empty()) =~= seq![0u8]);
    lemma_concat_last(policy_parts(policies), policy_bytes(policy));
    assert(policy_parts(policies.push(policy)) =~= policy_parts(policies).push(
        policy_bytes(policy),
    ));
    assert(qos_bytes(policies.push(policy)).skip(1) =~= concat(
        policy_parts(policies.push(policy)),
    ));
    assert(qos_bytes(policies).skip(1) =~= concat(policy_parts(policies)));
}

/// A policy is written as its id and its fields, in the order in which they are
/// documented; kinds and flags in one byte, numbers in four.
pub proof fn law_policy_layout(policy: QosPolicyView)
    ensures
        ({
            let b = policy_bytes(policy);
            match policy {
                QosPolicyView::Reliability { kind, max_blocking_time_ms } => b.len() == 6 && b[0]
                    == 0x01 && b[1] == kind && little_endian(b.skip(2)) == max_blocking_time_ms,
                QosPolicyView::Durability { kind } => b == seq![0x02u8, kind],
                QosPolicyView::History { kind, depth } => b.len() == 6 && b[0] == 0x03 && b[1]
                    == kind && little_endian(b.skip(2)) == depth,
                QosPolicyView::Deadline { period_ms } => b.len() == 5 && b[0] == 0x04
                    && little_endian(b.skip(1)) == period_ms,
                QosPolicyView::LatencyBudget { duration_ms } => b.len() == 5 && b[0] == 0x05
                    && little_endian(b.skip(1)) == duration_ms,
                QosPolicyView::OwnershipStrength { value } => b.len() == 5 && b[0] == 0x06
                    && little_endian(b.skip(1)) == value,
                QosPolicyView::Liveliness { kind, lease_duration_ms } => b.len() == 6 && b[0]
                    == 0x07 && b[1] == kind && little_endian(b.skip(2)) == lease_duration_ms,
                QosPolicyView::DestinationOrder { kind } => b == seq![0x08u8, kind],
                QosPolicyView::Presentation {
                    access_scope,
                    coherent_access,
                    ordered_access,
                } => b == seq![0x09u8, access_scope, coherent_access, ordered_access],
                QosPolicyView::Partition { partitions } => b[0] == 0x0A && (partitions.len() <= 255
                    ==> b[1] == partitions.len()) && b.skip(2) == concat(string_parts(partitions)),
                QosPolicyView::Ownership { kind } => b == seq![0x0Bu8, kind],
                QosPolicyView::WriterDataLifecycle { autodispose_unregistered_instances } => b
                    == seq![0x0Cu8, autodispose_unregistered_instances],
                QosPolicyView::TimeBasedFilter { minimum_separation_ms } => b.len() == 5 && b[0]
                    == 0x0D && little_endian(b.skip(1)) == minimum_separation_ms,
            }
        }),
{
    let b = policy_bytes(policy);
    match policy {
        QosPolicyView::Reliability { kind, max_blocking_time_ms } => {
            lemma_number_behind(b, 2, max_blocking_time_ms);
        },
        QosPolicyView::Durability { kind } => {
            assert(b =~= seq![0x02u8, kind]);
        },
        QosPolicyView::History { kind, depth } => lemma_number_behind(b, 2, depth),
        QosPolicyView::Deadline { period_ms } => lemma_number_behind(b, 1, period_ms),
        QosPolicyView::LatencyBudget { duration_ms } => lemma_number_behind(b, 1, duration_ms),
        QosPolicyView::OwnershipStrength { value } => lemma_number_behind(b, 1, value),
        QosPolicyView::Liveliness { kind, lease_duration_ms } => {
            lemma_number_behind(b, 2, lease_duration_ms);
        },
        QosPolicyView::DestinationOrder { kind } => {
            assert(b =~= seq![0x08u8, kind]);
        },
        QosPolicyView::Presentation { access_scope, coherent_access, ordered_access } => {
            assert(b =~= seq![0x09u8, access_scope, coherent_access, ordered_access]);
        },
        QosPolicyView::Partition { partitions } => {
            assert(b.skip(2) =~= concat(string_parts(partitions)));
        },
        QosPolicyView::Ownership { kind } => {
            assert(b =~= seq![0x0Bu8, kind]);
        },
        QosPolicyView::WriterDataLifecycle { autodispose_unregistered_instances } => {
            assert(b =~= seq![0x0Cu8, autodispose_unregistered_instances]);
        },
        QosPolicyView::TimeBasedFilter { minimum_separation_ms } => {
            lemma_number_behind(b, 1, minimum_separation_ms);
        },
    }
}

proof fn lemma_number_behind(b: Seq<u8>, at: int, v: u32)
    requires
        0 <= at,
        b.len() == at + 4,
        forall|i: int| 0 <= i < 4 ==> b[at + i] == #[trigger] le32_bytes(v as int)[i],
    ensures
        little_endian(b.skip(at)) == v,
{
    law_integers_are_little_endian(v as int);
    assert(b.skip(at) =~= le32_bytes(v as int));
}

/// Partition names are written one after the other, each as a string.
pub proof fn law_partition_names_layout(names: Seq<Seq<char>>, name: Seq<char>)
    ensures
        concat(string_parts(Seq::empty())) == Seq::<u8>::empty(),
        concat(string_parts(names.push(name))) == concat(string_parts(names)) + string_bytes(name),
{
    assert(string_parts(Seq::<Seq<char>>::empty()) =~= Seq::<Seq<u8>>::empty());
    lemma_concat_last(string_parts(names), string_bytes(name));
    assert(string_parts(names.push(name)) =~= string_parts(names).push(string_bytes(name)));
}

// ---------------------------------------------------------------------------
// Payloads
// ---------------------------------------------------------------------------

/// The payload of a SUBSCRIBE or a CREATE_WRITER: topic name, type name, QoS, one
/// byte that is 1 for a keyed topic and 0 otherwise, key descriptors.
pub proof fn law_endpoint_layout(p: EndpointView)
    ensures
        ({
            let b = endpoint_bytes(p);
            let t = string_bytes(p.topic_name).len() as int;
            let y = t + string_bytes(p.typename).len();
            let q = y + qos_bytes(p.qos).len();
            &&& b.take(t) == string_bytes(p.topic_name)
            &&& b.subrange(t, y) == string_bytes(p.typename)
            &&& b.subrange(y, q) == qos_bytes(p.qos)
            &&& b[q] == (if p.is_keyed {
                1u8
            } else {
                0u8
            })
            &&& b.skip(q + 1) == key_descriptors_bytes(p.key_descriptors)
        }),
{
    let b = endpoint_bytes(p);
    let t = string_bytes(p.topic_name).len() as int;
    let y = t + string_bytes(p.typename).len();
    let q = y + qos_bytes(p.qos).len();
    assert(b.take(t) =~= string_bytes(p.topic_name));
    assert(b.subrange(t, y) =~= string_bytes(p.typename));
    assert(b.subrange(y, q) =~= qos_bytes(p.qos));
    assert(b.skip(q + 1) =~= key_descriptors_bytes(p.key_descriptors));
}

/// The payload of an UNSUBSCRIBE: topic name, type name.
pub proof fn law_unsubscribe_layout(p: TopicView)
    ensures
        ({
            let b = unsubscribe_bytes(p);
            let t = string_bytes(p.topic_name).len() as int;
            &&& b.take(t) == string_bytes(p.topic_name)
            &&& b.skip(t) == string_bytes(p.typename)
        }),
{
    let b = unsubscribe_bytes(p);
    let t = string_bytes(p.topic_name).len() as int;
    assert(b.take(t) =~= string_bytes(p.topic_name));
    assert(b.skip(t) =~= string_bytes(p.typename));
}

/// The payload of a write by topic name: the byte 0, topic name, type name, QoS,
/// key descriptors, and the data to the end.
pub proof fn law_topic_mode_layout(
    topic_name: Seq<char>,
    typename: Seq<char>,
    qos: Seq<QosPolicyView>,
    key_descriptors: Seq<KeyField>,
    data: Seq<u8>,
)
    ensures
        ({
            let b = write_mode_bytes(
                WriteModeView::TopicName { topic_name, typename, qos, key_descriptors, data },
            );
            let t = 1 + string_bytes(topic_name).len() as int;
            let y = t + string_bytes(typename).len();
            let q = y + qos_bytes(qos).len();
            let k = q + key_descriptors_bytes(key_descriptors).len();
            &&& b[0] == 0
            &&& b.subrange(1, t) == string_bytes(topic_name)
            &&& b.subrange(t, y) == string_bytes(typename)
            &&& b.subrange(y, q) == qos_bytes(qos)
            &&& b.subrange(q, k) == key_descriptors_bytes(key_descriptors)
            &&& b.skip(k) == data
        }),
{
    let b = write_mode_bytes(
        WriteModeView::TopicName { topic_name, typename, qos, key_descriptors, data },
    );
    let t = 1 + string_bytes(topic_name).len() as int;
    let y = t + string_bytes(typename).len();
    let q = y + qos_bytes(qos).len();
    let k = q + key_descriptors_bytes(key_descriptors).len();
    assert(b.subrange(1, t) =~= string_bytes(topic_name));
    assert(b.subrange(t, y) =~= string_bytes(typename));
    assert(b.subrange(y, q) =~= qos_bytes(qos));
    assert(b.subrange(q, k) =~= key_descriptors_bytes(key_descriptors));
    assert(b.skip(k) =~= data);
}

/// The payload of a write by writer ID: the byte 1, the writer ID and the number
/// of key bytes in four bytes each, the key bytes, and the data to the end.
pub proof fn law_writer_mode_layout(writer_id: u32, key_bytes: Seq<u8>, data: Seq<u8>)
    requires
        key_bytes.len() < 0x1_0000_0000,
    ensures
        ({
            let b = write_mode_bytes(WriteModeView::WriterId { writer_id, key_bytes, data });
            let k = 9 + key_bytes.len() as int;
            &&& b[0] == 1
            &&& little_endian(b.subrange(1, 5)) == writer_id
            &&& little_endian(b.subrange(5, 9)) == key_bytes.len()
            &&& b.subrange(9, k) == key_bytes
            &&& b.skip(k) == data
        }),
{
    let b = write_mode_bytes(WriteModeView::WriterId { writer_id, key_bytes, data });
    let k = 9 + key_bytes.len() as int;
    law_integers_are_little_endian(writer_id as int);
    law_integers_are_little_endian(key_bytes.len() as int);
    assert(b.subrange(1, 5) =~= le32_bytes(writer_id as int));
    assert(b.subrange(5, 9) =~= le32_bytes(key_bytes.len() as int));
    assert(b.subrange(9, k) =~= key_bytes);
    assert(b.skip(k) =~= data);
}

/// The payload of an ERROR: the code in two bytes, and the text. The codes are
/// the documented ones.
pub proof fn law_error_layout(p: ErrorPayloadView)
    ensures
        little_endian(error_bytes(p).take(2)) == p.error_code.code(),
        error_bytes(p).skip(2) == string_bytes(p.error_message),
        ErrorCode::InvalidMessage.code() == 1,
        ErrorCode::TopicNotFound.code() == 2,
        ErrorCode::DdsError.code() == 3,
        ErrorCode::WriterNotFound.code() == 4,
        ErrorCode::ReaderNotFound.code() == 5,
        ErrorCode::InvalidQos.code() == 6,
        ErrorCode::AlreadyExists.code() == 7,
        ErrorCode::InternalError.code() == 8,
        ErrorCode::BufferOverflow.code() == 9,
{
    law_integers_are_little_endian(p.error_code.code() as int);
    assert(error_bytes(p).take(2) =~= le16_bytes(p.error_code.code() as int));
    assert(error_bytes(p).skip(2) =~= string_bytes(p.error_message));
}

/// The payload of a DATA or DATA_DISPOSED: topic name, the time in eight bytes,
/// and the data to the end; that of a DATA_NO_WRITERS has no time.
pub proof fn law_sample_layout(p: SampleView, n: NoWritersView)
    ensures
        ({
            let b = sample_bytes(p);
            let t = string_bytes(p.topic_name).len() as int;
            &&& b.take(t) == string_bytes(p.topic_name)
            &&& little_endian(b.subrange(t, t + 8)) == p.source_timestamp
            &&& b.skip(t + 8) == p.data
        }),
        ({
            let b = no_writers_bytes(n);
            let t = string_bytes(n.topic_name).len() as int;
            &&& b.take(t) == string_bytes(n.topic_name)
            &&& b.skip(t) == n.key_data
        }),
{
    let b = sample_bytes(p);
    let t = string_bytes(p.topic_name).len() as int;
    law_integers_are_little_endian(p.source_timestamp as int);
    assert(b.take(t) =~= string_bytes(p.topic_name));
    assert(b.subrange(t, t + 8) =~= le64_bytes(p.source_timestamp as int));
    assert(b.skip(t + 8) =~= p.data);
    let c = no_writers_bytes(n);
    let u = string_bytes(n.topic_name).len() as int;
    assert(c.take(u) =~= string_bytes(n.topic_name));
    assert(c.skip(u) =~= n.key_data);
}

/// A payload of a write is refused if its first byte is neither 0 nor 1, or if it
/// is empty; the payload of a DELETE_WRITER is read if and only if it has four
/// bytes; what is said of too few or too many tells how many there are.
pub proof fn law_payloads_that_are_refused(s: Seq<u8>)
    ensures
        s.len() == 0 ==> spec_parse_write_mode(s) == Err::<WriteModeView, ProtocolErrorView>(
            ProtocolErrorView::Truncated { expected: 1, got: 0 },
        ),
        s.len() > 0 && s[0] > 1 ==> spec_parse_write_mode(s) == Err::<
            WriteModeView,
            ProtocolErrorView,
        >(ProtocolErrorView::InvalidWriteMode(s[0])),
        s.len() < 4 ==> spec_parse_delete_writer(s) == Err::<u32, ProtocolErrorView>(
            ProtocolErrorView::Truncated { expected: 4, got: s.len() as int },
        ),
        s.len() == 4 ==> spec_parse_delete_writer(s) == Ok::<u32, ProtocolErrorView>(
            little_endian(s) as u32,
        ),
        s.len() > 4 ==> spec_parse_delete_writer(s) == Err::<u32, ProtocolErrorView>(
            ProtocolErrorView::TrailingBytes(s.len() - 4),
        ),
        s.len() < 2 ==> spec_parse_error(s) == Err::<ErrorPayloadView, ProtocolErrorView>(
            ProtocolErrorView::Truncated { expected: 2, got: s.len() as int },
        ),
{
    if s.len() == 4 {
        lemma_little_endian_32(s);
    }
}

/// Bytes behind the last field of an UNSUBSCRIBE or an ERROR are not accepted:
/// the payload is refused, and their number is told.
pub proof fn law_trailing_bytes_are_refused(p: TopicView, e: ErrorPayloadView, rest: Seq<u8>)
    requires
        rest.len() > 0,
        string_fits(p.topic_name),
        string_fits(p.typename),
        string_fits(e.error_message),
    ensures
        spec_parse_unsubscribe(unsubscribe_bytes(p) + rest) == Err::<TopicView, ProtocolErrorView>(
            ProtocolErrorView::TrailingBytes(rest.len() as int),
        ),
        spec_parse_error(error_bytes(e) + rest) == Err::<ErrorPayloadView, ProtocolErrorView>(
            ProtocolErrorView::TrailingBytes(rest.len() as int),
        ),
{
    let name = string_bytes(p.typename) + rest;
    law_string_round_trip(p.topic_name, name);
    law_string_round_trip(p.typename, rest);
    assert(unsubscribe_bytes(p) + rest =~= string_bytes(p.topic_name) + name);
    let b = error_bytes(e) + rest;
    let text = string_bytes(e.error_message) + rest;
    law_string_round_trip(e.error_message, rest);
    lemma_le16_of_bytes(e.error_code.code() as int, text);
    assert(b =~= le16_bytes(e.error_code.code() as int) + text);
    assert(b.skip(2) =~= text);
    law_error_codes(e.error_code.code(), e.error_code);
}

} // verus!
