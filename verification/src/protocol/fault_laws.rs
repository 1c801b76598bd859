//! What is wrong with a payload that is refused: which fault is told, and with
//! which values.
use vstd::prelude::*;

use crate::protocol::codec::{
    bool_byte, key_descriptors_bytes, law_key_descriptors_round_trip, law_string_round_trip,
    spec_parse_key_descriptors, spec_parse_key_field, spec_read_bool, spec_read_string,
    string_bytes, string_fits, KeyField, KeyTypeHint,
};
use crate::protocol::error::ProtocolErrorView;
use crate::protocol::laws::endpoint_valid;
use crate::protocol::layout::{law_integers_are_read_little_endian, little_endian};
use crate::protocol::payload::{
    endpoint_bytes, spec_parse_endpoint, spec_parse_error, spec_parse_no_writers,
    spec_parse_sample, spec_parse_topic_mode, spec_parse_unsubscribe, spec_parse_writer_mode,
    EndpointView, ErrorCode, ErrorPayloadView, NoWritersView, SampleView, TopicView, WriteModeView,
};
use crate::qos::codec::{
    bool_text, policy_bytes, policy_value_bytes, qos_bytes, range_text, spec_parse_policies,
    spec_parse_policy, spec_parse_qos, spec_validate_bool, spec_validate_range,
};
use crate::qos::laws::{law_qos_round_trip, lemma_policy_round_trip, policy_in_range};
use crate::qos::policy::QosPolicyView;
use crate::text::{decimal, stands_at};

verus! {

broadcast use crate::wire::group_le_lengths;

// ---------------------------------------------------------------------------
// QoS policies
// ---------------------------------------------------------------------------

/// A value is accepted if and only if it is in its range; otherwise the text names
/// what it is the value of, the value and the largest one, in this order.
pub proof fn law_values_out_of_range_are_named(name: Seq<char>, value: u8, max: u8)
    ensures
        spec_validate_range(name, value, max) is Ok <==> value <= max,
        value > max ==> spec_validate_range(name, value, max) == Err::<(), ProtocolErrorView>(
            ProtocolErrorView::InvalidQosValue(range_text(name, value, max)),
        ),
        spec_validate_bool(name, value) is Ok <==> value == 0 || value == 1,
        value > 1 ==> spec_validate_bool(name, value) == Err::<(), ProtocolErrorView>(
            ProtocolErrorView::InvalidQosValue(bool_text(name, value)),
        ),
        ({
            let text = range_text(name, value, max);
            let n = name.len() as int;
            let v = decimal(value as nat);
            &&& stands_at(text, 0, name)
            &&& stands_at(text, n, ": "@)
            &&& stands_at(text, n + 2, v)
            &&& stands_at(text, n + 2 + v.len(), " not in 0..="@)
            &&& stands_at(text, n + 14 + v.len(), decimal(max as nat))
            &&& text.len() == n + 14 + v.len() + decimal(max as nat).len()
        }),
        ({
            let text = bool_text(name, value);
            let n = name.len() as int;
            &&& stands_at(text, 0, name)
            &&& stands_at(text, n, ": expected 0 or 1, got "@)
            &&& stands_at(text, n + 23, decimal(value as nat))
            &&& text.len() == n + 23 + decimal(value as nat).len()
        }),
{
    reveal_strlit(": ");
    reveal_strlit(" not in 0..=");
    reveal_strlit(": expected 0 or 1, got ");
    let n = name.len() as int;
    let v = decimal(value as nat);
    let m = decimal(max as nat);
    let text = range_text(name, value, max);
    assert(text.subrange(0, n) =~= name);
    assert(text.subrange(n, n + 2) =~= ": "@);
    assert(text.subrange(n + 2, n + 2 + v.len()) =~= v);
    assert(text.subrange(n + 2 + v.len(), n + 14 + v.len()) =~= " not in 0..="@);
    assert(text.subrange(n + 14 + v.len(), n + 14 + v.len() + m.len()) =~= m);
    let other = bool_text(name, value);
    assert(other.subrange(0, n) =~= name);
    assert(other.subrange(n, n + 23) =~= ": expected 0 or 1, got "@);
    assert(other.subrange(n + 23, n + 23 + v.len()) =~= v);
}

/// Whether the value of a policy is refused exactly where it has fewer than `size`
/// bytes, which is told first, or is out of range, with the given text.
pub open spec fn faulty(id: u8, s: Seq<u8>, size: int, out: bool, text: Seq<char>) -> bool {
    let r = spec_parse_policy(id, s).0;
    if s.len() < size {
        r == Err::<QosPolicyView, ProtocolErrorView>(
            ProtocolErrorView::Truncated { expected: size, got: s.len() as int },
        )
    } else if out {
        r == Err::<QosPolicyView, ProtocolErrorView>(ProtocolErrorView::InvalidQosValue(text))
    } else {
        r is Ok
    }
}

/// The policies, with the bytes that each value needs and the largest number that
/// its kind can have. There are no others.
pub proof fn law_policies_that_are_refused(id: u8, s: Seq<u8>)
    ensures
        faulty(0x01, s, 5, s.len() > 0 && s[0] > 1, range_text("reliability kind"@, s[0], 1)),
        faulty(0x02, s, 1, s.len() > 0 && s[0] > 3, range_text("durability kind"@, s[0], 3)),
        faulty(0x03, s, 5, s.len() > 0 && s[0] > 1, range_text("history kind"@, s[0], 1)),
        faulty(0x07, s, 5, s.len() > 0 && s[0] > 2, range_text("liveliness kind"@, s[0], 2)),
        faulty(0x08, s, 1, s.len() > 0 && s[0] > 1, range_text("destination_order kind"@, s[0], 1)),
        faulty(0x0B, s, 1, s.len() > 0 && s[0] > 1, range_text("ownership kind"@, s[0], 1)),
        faulty(0x04, s, 4, false, Seq::empty()),
        faulty(0x05, s, 4, false, Seq::empty()),
        faulty(0x06, s, 4, false, Seq::empty()),
        faulty(0x0D, s, 4, false, Seq::empty()),
        faulty(
            0x0C,
            s,
            1,
            s.len() > 0 && s[0] > 1,
            bool_text("autodispose_unregistered_instances"@, s[0]),
        ),
        faulty(
            0x09,
            s,
            3,
            s.len() > 2 && (s[0] > 2 || s[1] > 1 || s[2] > 1),
            if s[0] > 2 {
                range_text("presentation access_scope"@, s[0], 2)
            } else if s[1] > 1 {
                bool_text("presentation coherent_access"@, s[1])
            } else {
                bool_text("presentation ordered_access"@, s[2])
            },
        ),
        s.len() == 0 ==> spec_parse_policy(0x0A, s).0 == Err::<QosPolicyView, ProtocolErrorView>(
            ProtocolErrorView::Truncated { expected: 1, got: 0 },
        ),
        id == 0 || id > 0x0D ==> spec_parse_policy(id, s).0 == Err::<
            QosPolicyView,
            ProtocolErrorView,
        >(ProtocolErrorView::InvalidQosPolicyId(id)),
{
    reveal(spec_parse_policy);
}

/// A policy that comes twice is refused, and its id is told.
pub proof fn law_second_policy_of_a_kind_is_refused(
    policy: QosPolicyView,
    count: u8,
    rest: Seq<u8>,
)
    requires
        count >= 2,
        policy_in_range(policy),
    ensures
        spec_parse_qos(seq![count] + policy_bytes(policy) + seq![policy.id()] + rest).0 == Err::<
            Seq<QosPolicyView>,
            ProtocolErrorView,
        >(ProtocolErrorView::DuplicateQosPolicy(policy.id())),
        count > 0 ==> spec_parse_qos(seq![count]).0 == Err::<
            Seq<QosPolicyView>,
            ProtocolErrorView,
        >(ProtocolErrorView::Truncated { expected: 1, got: 0 }),
        spec_parse_qos(Seq::empty()).0 == Err::<Seq<QosPolicyView>, ProtocolErrorView>(
            ProtocolErrorView::Truncated { expected: 1, got: 0 },
        ),
{
    reveal_with_fuel(spec_parse_policies, 3);
    let behind = seq![policy.id()] + rest;
    let s = seq![count] + policy_bytes(policy) + seq![policy.id()] + rest;
    let s1 = s.skip(1);
    assert(s1 =~= seq![policy.id()] + policy_value_bytes(policy) + behind);
    assert(s1.skip(1) =~= policy_value_bytes(policy) + behind);
    lemma_policy_round_trip(policy, behind);
    assert(seq![count].skip(1) =~= Seq::<u8>::empty());
}

// ---------------------------------------------------------------------------
// Keys
// ---------------------------------------------------------------------------

/// A key field is read if and only if it has nine bytes and the last of them is
/// one of the five hints; of too few bytes the number is told, of another hint its
/// byte.
pub proof fn law_key_fields_that_are_refused(s: Seq<u8>)
    ensures
        s.len() < 9 ==> spec_parse_key_field(s).0 == Err::<KeyField, ProtocolErrorView>(
            ProtocolErrorView::Truncated { expected: 9, got: s.len() as int },
        ),
        s.len() >= 9 && s[8] > 4 ==> spec_parse_key_field(s).0 == Err::<
            KeyField,
            ProtocolErrorView,
        >(ProtocolErrorView::InvalidKeyTypeHint(s[8])),
        s.len() >= 9 && s[8] <= 4 ==> {
            &&& spec_parse_key_field(s).0 matches Ok(key)
            &&& key.offset == little_endian(s.subrange(0, 4))
            &&& key.size == little_endian(s.subrange(4, 8))
            &&& key.type_hint.code() == s[8]
            &&& spec_parse_key_field(s).1 == s.skip(9)
        },
        s.len() == 0 ==> spec_parse_key_descriptors(s).0 == Err::<
            Seq<KeyField>,
            ProtocolErrorView,
        >(ProtocolErrorView::Truncated { expected: 1, got: 0 }),
        KeyTypeHint::Opaque.code() == 0,
        KeyTypeHint::Uuid.code() == 1,
        KeyTypeHint::Int32.code() == 2,
        KeyTypeHint::Int64.code() == 3,
        KeyTypeHint::String.code() == 4,
{
    if s.len() >= 9 {
        law_integers_are_read_little_endian(s);
        law_integers_are_read_little_endian(s.skip(4));
        assert(s.take(4) =~= s.subrange(0, 4));
        assert(s.skip(4).take(4) =~= s.subrange(4, 8));
    }
}

// ---------------------------------------------------------------------------
// Payloads
// ---------------------------------------------------------------------------

/// A payload that starts with a string that cannot be read is refused for that,
/// whatever else is wrong with it; so is one whose second string cannot be read.
pub proof fn law_first_fault_is_told(s: Seq<u8>)
    ensures
        spec_read_string(s).0 matches Err(e) ==> {
            &&& spec_parse_endpoint(s) == Err::<EndpointView, ProtocolErrorView>(e)
            &&& spec_parse_unsubscribe(s) == Err::<TopicView, ProtocolErrorView>(e)
            &&& spec_parse_topic_mode(s) == Err::<WriteModeView, ProtocolErrorView>(e)
            &&& spec_parse_sample(s) == Err::<SampleView, ProtocolErrorView>(e)
            &&& spec_parse_no_writers(s) == Err::<NoWritersView, ProtocolErrorView>(e)
        },
        spec_read_string(s).0 is Ok ==> (spec_read_string(spec_read_string(s).1).0 matches Err(e)
            ==> {
            &&& spec_parse_endpoint(s) == Err::<EndpointView, ProtocolErrorView>(e)
            &&& spec_parse_unsubscribe(s) == Err::<TopicView, ProtocolErrorView>(e)
            &&& spec_parse_topic_mode(s) == Err::<WriteModeView, ProtocolErrorView>(e)
        }),
        spec_read_string(s).0 is Ok && spec_read_string(s).1.len() < 8 ==> spec_parse_sample(s)
            == Err::<SampleView, ProtocolErrorView>(
            ProtocolErrorView::Truncated { expected: 8, got: spec_read_string(s).1.len() as int },
        ),
        spec_parse_no_writers(s) is Ok <==> spec_read_string(s).0 is Ok,
        spec_parse_sample(s) is Ok <==> spec_read_string(s).0 is Ok && spec_read_string(s).1.len()
            >= 8,
{
}

/// Behind two strings, the faults of the policies come before those of the flag,
/// and those before those of the keys.
pub proof fn law_faults_come_in_order(topic_name: Seq<char>, typename: Seq<char>, s: Seq<u8>)
    requires
        string_fits(topic_name),
        string_fits(typename),
    ensures
        ({
            let whole = string_bytes(topic_name) + string_bytes(typename) + s;
            let (qos, behind) = spec_parse_qos(s);
            &&& qos matches Err(e) ==> spec_parse_endpoint(whole) == Err::<
                EndpointView,
                ProtocolErrorView,
            >(e) && spec_parse_topic_mode(whole) == Err::<WriteModeView, ProtocolErrorView>(e)
            &&& qos is Ok && behind.len() == 0 ==> spec_parse_endpoint(whole) == Err::<
                EndpointView,
                ProtocolErrorView,
            >(ProtocolErrorView::Truncated { expected: 1, got: 0 })
            &&& qos is Ok && behind.len() > 0 ==> (spec_parse_key_descriptors(
                behind.skip(1),
            ).0 matches Err(e) ==> spec_parse_endpoint(whole) == Err::<
                EndpointView,
                ProtocolErrorView,
            >(e))
            &&& qos is Ok ==> (spec_parse_key_descriptors(behind).0 matches Err(e)
                ==> spec_parse_topic_mode(whole) == Err::<WriteModeView, ProtocolErrorView>(e))
        }),
{
    let name = string_bytes(typename) + s;
    assert(string_bytes(topic_name) + string_bytes(typename) + s =~= string_bytes(topic_name)
        + name);
    law_string_round_trip(topic_name, name);
    law_string_round_trip(typename, s);
}

proof fn lemma_refused_behind(
    p: EndpointView,
    s: Seq<u8>,
    s1: Seq<u8>,
    s2: Seq<u8>,
    s3: Seq<u8>,
    s4: Seq<u8>,
    rest: Seq<u8>,
)
    requires
        rest.len() > 0,
        spec_read_string(s) == (Ok::<Seq<char>, ProtocolErrorView>(p.topic_name), s1),
        spec_read_string(s1) == (Ok::<Seq<char>, ProtocolErrorView>(p.typename), s2),
        spec_parse_qos(s2) == (Ok::<Seq<QosPolicyView>, ProtocolErrorView>(p.qos), s3),
        spec_read_bool(s3).0 is Ok,
        spec_read_bool(s3).1 == s4,
        spec_parse_key_descriptors(s4) == (
            Ok::<Seq<KeyField>, ProtocolErrorView>(p.key_descriptors),
            rest,
        ),
    ensures
        spec_parse_endpoint(s) == Err::<EndpointView, ProtocolErrorView>(
            ProtocolErrorView::TrailingBytes(rest.len() as int),
        ),
{
}

/// Bytes behind the keys of a SUBSCRIBE or a CREATE_WRITER are not accepted: the
/// payload is refused, and their number is told.
#[verifier::rlimit(50)]
pub proof fn law_bytes_behind_the_keys_are_refused(p: EndpointView, rest: Seq<u8>)
    requires
        endpoint_valid(p),
        rest.len() > 0,
    ensures
        spec_parse_endpoint(endpoint_bytes(p) + rest) == Err::<EndpointView, ProtocolErrorView>(
            ProtocolErrorView::TrailingBytes(rest.len() as int),
        ),
{
    let keys = key_descriptors_bytes(p.key_descriptors) + rest;
    let flagged = seq![bool_byte(p.is_keyed)] + keys;
    let policies = qos_bytes(p.qos) + flagged;
    let name = string_bytes(p.typename) + policies;
    let s = string_bytes(p.topic_name) + name;
    assert(endpoint_bytes(p) + rest =~= s) by {
        lemma_regrouped(
            string_bytes(p.topic_name),
            string_bytes(p.typename),
            qos_bytes(p.qos),
            seq![bool_byte(p.is_keyed)],
            key_descriptors_bytes(p.key_descriptors),
            rest,
        );
    }
    law_string_round_trip(p.topic_name, name);
    law_string_round_trip(p.typename, policies);
    law_qos_round_trip(p.qos, flagged);
    assert(flagged.skip(1) =~= keys);
    law_key_descriptors_round_trip(p.key_descriptors, rest);
    lemma_refused_behind(p, s, name, policies, flagged, keys, rest);
}

proof fn lemma_regrouped(
    a: Seq<u8>,
    b: Seq<u8>,
    c: Seq<u8>,
    d: Seq<u8>,
    e: Seq<u8>,
    rest: Seq<u8>,
)
    ensures
        a + b + c + d + e + rest == a + (b + (c + (d + (e + rest)))),
{
    assert(a + b + c + d + e + rest =~= a + (b + (c + (d + (e + rest)))));
}

/// A write by writer ID is read if and only if it has eight bytes and then as many
/// as it says that its key has; otherwise the number that is needed and the number
/// that is there are told.
pub proof fn law_writes_by_id_that_are_refused(s: Seq<u8>)
    ensures
        ({
            let n = little_endian(s.subrange(4, 8));
            &&& s.len() < 8 ==> spec_parse_writer_mode(s) == Err::<
                WriteModeView,
                ProtocolErrorView,
            >(ProtocolErrorView::Truncated { expected: 8, got: s.len() as int })
            &&& s.len() >= 8 && s.len() - 8 < n ==> spec_parse_writer_mode(s) == Err::<
                WriteModeView,
                ProtocolErrorView,
            >(ProtocolErrorView::Truncated { expected: n, got: s.len() - 8 })
            &&& s.len() >= 8 && s.len() - 8 >= n ==> spec_parse_writer_mode(s) == Ok::<
                WriteModeView,
                ProtocolErrorView,
            >(
                WriteModeView::WriterId {
                    writer_id: little_endian(s.subrange(0, 4)) as u32,
                    key_bytes: s.subrange(8, 8 + n),
                    data: s.skip(8 + n),
                },
            )
        }),
{
    if s.len() >= 8 {
        law_integers_are_read_little_endian(s);
        law_integers_are_read_little_endian(s.skip(4));
        assert(s.take(4) =~= s.subrange(0, 4));
        assert(s.skip(4).take(4) =~= s.subrange(4, 8));
        let n = little_endian(s.subrange(4, 8));
        if s.len() - 8 >= n {
            assert(s.skip(8).take(n) =~= s.subrange(8, 8 + n));
            assert(s.skip(8).skip(n) =~= s.skip(8 + n));
        }
    }
}

/// The payload of an ERROR is refused for a code that is none of the nine, and the
/// code is told.
pub proof fn law_error_codes_that_are_refused(s: Seq<u8>)
    ensures
        s.len() >= 2 ==> {
            let code = little_endian(s.subrange(0, 2));
            &&& code == 0 || code > 9 ==> spec_parse_error(s) == Err::<
                ErrorPayloadView,
                ProtocolErrorView,
            >(ProtocolErrorView::InvalidErrorCode(code as u16))
            &&& 1 <= code <= 9 ==> (spec_read_string(s.skip(2)).0 matches Err(e)
                ==> spec_parse_error(s) == Err::<ErrorPayloadView, ProtocolErrorView>(e))
            &&& spec_parse_error(s) matches Ok(p) ==> p.error_code.code() == code
        },
        forall|code: u16|
            1 <= code <= 9 ==> #[trigger] ErrorCode::spec_from_u16(code) is Ok,
{
    if s.len() >= 2 {
        law_integers_are_read_little_endian(s);
        assert(s.take(2) =~= s.subrange(0, 2));
    }
}

} // verus!
