//! The binary encoding of QoS policies.
use bytes::BytesMut;
use vstd::prelude::*;
use vstd::string::*;

use crate::protocol::codec::{
    lemma_prepend_empty, lemma_prepend_prepend, prepend, read_string, spec_read_string,
    string_bytes, truncated, write_string, Reading,
};
use crate::protocol::error::{result_view, ProtocolError, ProtocolErrorView};
use crate::qos::policy::{policy_views, texts, QosPolicy, QosPolicyView, QosSet};
use crate::text::{decimal, push_decimal};
use crate::wire::{
    buffer_limit, concat, contents, get_u32_le, get_u8, le32, le32_bytes, lemma_concat_step,
    low_u8, put_u32_le, put_u8,
};

verus! {

broadcast use crate::wire::group_le_lengths;

// ---------------------------------------------------------------------------
// Values in a range
// ---------------------------------------------------------------------------

/// What is said of a value above the largest one allowed.
pub open spec fn range_text(name: Seq<char>, value: u8, max: u8) -> Seq<char> {
    name + ": "@ + decimal(value as nat) + " not in 0..="@ + decimal(max as nat)
}

/// What is said of a value that should be 0 or 1.
pub open spec fn bool_text(name: Seq<char>, value: u8) -> Seq<char> {
    name + ": expected 0 or 1, got "@ + decimal(value as nat)
}

/// Accepts the values up to `max`.
pub open spec fn spec_validate_range(name: Seq<char>, value: u8, max: u8) -> Result<
    (),
    ProtocolErrorView,
> {
    if value > max {
        Err(ProtocolErrorView::InvalidQosValue(range_text(name, value, max)))
    } else {
        Ok(())
    }
}

/// Accepts 0 and 1.
pub open spec fn spec_validate_bool(name: Seq<char>, value: u8) -> Result<(), ProtocolErrorView> {
    if value > 1 {
        Err(ProtocolErrorView::InvalidQosValue(bool_text(name, value)))
    } else {
        Ok(())
    }
}

/// Accepts the values up to `max`.
pub fn validate_range(name: &str, value: u8, max: u8) -> (r: Result<(), ProtocolError>)
    ensures
        result_view(r) == spec_validate_range(name@, value, max),
{
    if value > max {
        let mut text = name.to_owned();
        text.append(": ");
        push_decimal(&mut text, value as u64);
        text.append(" not in 0..=");
        push_decimal(&mut text, max as u64);
        Err(ProtocolError::InvalidQosValue(text))
    } else {
        Ok(())
    }
}

/// Accepts 0 and 1.
pub fn validate_bool(name: &str, value: u8) -> (r: Result<(), ProtocolError>)
    ensures
        result_view(r) == spec_validate_bool(name@, value),
{
    if value > 1 {
        let mut text = name.to_owned();
        text.append(": expected 0 or 1, got ");
        push_decimal(&mut text, value as u64);
        Err(ProtocolError::InvalidQosValue(text))
    } else {
        Ok(())
    }
}

// ---------------------------------------------------------------------------
// Reading one policy
// ---------------------------------------------------------------------------

/// Reads four bytes as a number.
pub open spec fn spec_read_u32(s: Seq<u8>) -> Reading<u32> {
    if s.len() < 4 {
        truncated(4, s)
    } else {
        (Ok(le32(s) as u32), s.skip(4))
    }
}

/// Reads one byte of at most `max`.
pub open spec fn spec_read_kind(s: Seq<u8>, name: Seq<char>, max: u8) -> Reading<u8> {
    if s.len() < 1 {
        truncated(1, s)
    } else {
        match spec_validate_range(name, s[0], max) {
            Err(e) => (Err(e), s.skip(1)),
            Ok(_) => (Ok(s[0]), s.skip(1)),
        }
    }
}

/// Reads one byte that is 0 or 1.
pub open spec fn spec_read_flag(s: Seq<u8>, name: Seq<char>) -> Reading<u8> {
    if s.len() < 1 {
        truncated(1, s)
    } else {
        match spec_validate_bool(name, s[0]) {
            Err(e) => (Err(e), s.skip(1)),
            Ok(_) => (Ok(s[0]), s.skip(1)),
        }
    }
}

/// Reads one byte of at most `max` and four bytes as a number.
pub open spec fn spec_read_kind_u32(s: Seq<u8>, name: Seq<char>, max: u8) -> Reading<(u8, u32)> {
    if s.len() < 5 {
        truncated(5, s)
    } else {
        match spec_validate_range(name, s[0], max) {
            Err(e) => (Err(e), s.skip(1)),
            Ok(_) => (Ok((s[0], le32(s.skip(1)) as u32)), s.skip(5)),
        }
    }
}

/// Reads the three bytes of a presentation policy.
pub open spec fn spec_read_presentation(s: Seq<u8>) -> Reading<(u8, u8, u8)> {
    if s.len() < 3 {
        truncated(3, s)
    } else {
        match spec_validate_range("presentation access_scope"@, s[0], 2) {
            Err(e) => (Err(e), s.skip(3)),
            Ok(_) => match spec_validate_bool("presentation coherent_access"@, s[1]) {
                Err(e) => (Err(e), s.skip(3)),
                Ok(_) => match spec_validate_bool("presentation ordered_access"@, s[2]) {
                    Err(e) => (Err(e), s.skip(3)),
                    Ok(_) => (Ok((s[0], s[1], s[2])), s.skip(3)),
                },
            },
        }
    }
}

/// Reads `count` strings.
pub open spec fn spec_read_strings(s: Seq<u8>, count: nat) -> Reading<Seq<Seq<char>>>
    decreases count,
{
    if count == 0 {
        (Ok(seq![]), s)
    } else {
        match spec_read_string(s) {
            (Err(e), rest) => (Err(e), rest),
            (Ok(text), rest) => prepend(seq![text], spec_read_strings(rest, (count - 1) as nat)),
        }
    }
}

/// Reads a number of strings, in one byte, and the strings.
pub open spec fn spec_read_partitions(s: Seq<u8>) -> Reading<Seq<Seq<char>>> {
    if s.len() < 1 {
        truncated(1, s)
    } else {
        spec_read_strings(s.skip(1), s[0] as nat)
    }
}

/// What was read, put into a policy.
pub open spec fn as_policy<T>(r: Reading<T>, build: spec_fn(T) -> QosPolicyView) -> Reading<
    QosPolicyView,
> {
    match r {
        (Ok(v), rest) => (Ok(build(v)), rest),
        (Err(e), rest) => (Err(e), rest),
    }
}

/// What the front of `s` says as the value of the policy with the given id.
#[verifier::opaque]
pub open spec fn spec_parse_policy(id: u8, s: Seq<u8>) -> Reading<QosPolicyView> {
    if id == 0x01 {
        as_policy(
            spec_read_kind_u32(s, "reliability kind"@, 1),
            |v: (u8, u32)| QosPolicyView::Reliability { kind: v.0, max_blocking_time_ms: v.1 },
        )
    } else if id == 0x02 {
        as_policy(
            spec_read_kind(s, "durability kind"@, 3),
            |kind: u8| QosPolicyView::Durability { kind },
        )
    } else if id == 0x03 {
        as_policy(
            spec_read_kind_u32(s, "history kind"@, 1),
            |v: (u8, u32)| QosPolicyView::History { kind: v.0, depth: v.1 },
        )
    } else if id == 0x04 {
        as_policy(spec_read_u32(s), |period_ms: u32| QosPolicyView::Deadline { period_ms })
    } else if id == 0x05 {
        as_policy(
            spec_read_u32(s),
            |duration_ms: u32| QosPolicyView::LatencyBudget { duration_ms },
        )
    } else if id == 0x06 {
        as_policy(spec_read_u32(s), |value: u32| QosPolicyView::OwnershipStrength { value })
    } else if id == 0x07 {
        as_policy(
            spec_read_kind_u32(s, "liveliness kind"@, 2),
            |v: (u8, u32)| QosPolicyView::Liveliness { kind: v.0, lease_duration_ms: v.1 },
        )
    } else if id == 0x08 {
        as_policy(
            spec_read_kind(s, "destination_order kind"@, 1),
            |kind: u8| QosPolicyView::DestinationOrder { kind },
        )
    } else if id == 0x09 {
        as_policy(
            spec_read_presentation(s),
            |v: (u8, u8, u8)|
                QosPolicyView::Presentation {
                    access_scope: v.0,
                    coherent_access: v.1,
                    ordered_access: v.2,
                },
        )
    } else if id == 0x0A {
        as_policy(
            spec_read_partitions(s),
            |partitions: Seq<Seq<char>>| QosPolicyView::Partition { partitions },
        )
    } else if id == 0x0B {
        as_policy(
            spec_read_kind(s, "ownership kind"@, 1),
            |kind: u8| QosPolicyView::Ownership { kind },
        )
    } else if id == 0x0C {
        as_policy(
            spec_read_flag(s, "autodispose_unregistered_instances"@),
            |v: u8|
                QosPolicyView::WriterDataLifecycle { autodispose_unregistered_instances: v },
        )
    } else if id == 0x0D {
        as_policy(
            spec_read_u32(s),
            |minimum_separation_ms: u32| QosPolicyView::TimeBasedFilter { minimum_separation_ms },
        )
    } else {
        (Err(ProtocolErrorView::InvalidQosPolicyId(id)), s)
    }
}

fn read_u32(buf: &mut &[u8]) -> (r: Result<u32, ProtocolError>)
    ensures
        (result_view(r), final(buf)@) == spec_read_u32(old(buf)@),
{
    if buf.len() < 4 {
        return Err(ProtocolError::Truncated { expected: 4, got: buf.len() });
    }
    Ok(get_u32_le(buf))
}

fn read_kind(buf: &mut &[u8], name: &str, max: u8) -> (r: Result<u8, ProtocolError>)
    ensures
        (result_view(r), final(buf)@) == spec_read_kind(old(buf)@, name@, max),
{
    if buf.len() < 1 {
        return Err(ProtocolError::Truncated { expected: 1, got: 0 });
    }
    let kind: u8 = get_u8(buf);
    match validate_range(name, kind, max) {
        Err(e) => Err(e),
        Ok(_) => Ok(kind),
    }
}

fn read_flag(buf: &mut &[u8], name: &str) -> (r: Result<u8, ProtocolError>)
    ensures
        (result_view(r), final(buf)@) == spec_read_flag(old(buf)@, name@),
{
    if buf.len() < 1 {
        return Err(ProtocolError::Truncated { expected: 1, got: 0 });
    }
    let flag: u8 = get_u8(buf);
    match validate_bool(name, flag) {
        Err(e) => Err(e),
        Ok(_) => Ok(flag),
    }
}

fn read_kind_u32(buf: &mut &[u8], name: &str, max: u8) -> (r: Result<(u8, u32), ProtocolError>)
    ensures
        (
            match r {
                Ok(v) => Ok(v),
                Err(e) => Err(e@),
            },
            final(buf)@,
        ) == spec_read_kind_u32(old(buf)@, name@, max),
{
    if buf.len() < 5 {
        return Err(ProtocolError::Truncated { expected: 5, got: buf.len() });
    }
    let kind: u8 = get_u8(buf);
    match validate_range(name, kind, max) {
        Err(e) => Err(e),
        Ok(_) => {
            let value: u32 = get_u32_le(buf);
            assert(old(buf)@.skip(1).skip(4) =~= old(buf)@.skip(5));
            Ok((kind, value))
        },
    }
}

fn read_presentation(buf: &mut &[u8]) -> (r: Result<(u8, u8, u8), ProtocolError>)
    ensures
        (
            match r {
                Ok(v) => Ok(v),
                Err(e) => Err(e@),
            },
            final(buf)@,
        ) == spec_read_presentation(old(buf)@),
{
    if buf.len() < 3 {
        return Err(ProtocolError::Truncated { expected: 3, got: buf.len() });
    }
    let access_scope: u8 = get_u8(buf);
    let coherent_access: u8 = get_u8(buf);
    let ordered_access: u8 = get_u8(buf);
    assert(old(buf)@.skip(1).skip(1) =~= old(buf)@.skip(2));
    assert(old(buf)@.skip(2).skip(1) =~= old(buf)@.skip(3));
    match validate_range("presentation access_scope", access_scope, 2) {
        Err(e) => {
            return Err(e);
        },
        Ok(_) => {},
    }
    match validate_bool("presentation coherent_access", coherent_access) {
        Err(e) => {
            return Err(e);
        },
        Ok(_) => {},
    }
    match validate_bool("presentation ordered_access", ordered_access) {
        Err(e) => {
            return Err(e);
        },
        Ok(_) => {},
    }
    Ok((access_scope, coherent_access, ordered_access))
}

fn read_partitions(buf: &mut &[u8]) -> (r: Result<Vec<String>, ProtocolError>)
    ensures
        (
            match r {
                Ok(v) => Ok(texts(v@)),
                Err(e) => Err(e@),
            },
            final(buf)@,
        ) == spec_read_partitions(old(buf)@),
{
    if buf.len() < 1 {
        return Err(ProtocolError::Truncated { expected: 1, got: 0 });
    }
    let count: u8 = get_u8(buf);
    let ghost whole = spec_read_strings(buf@, count as nat);
    let mut partitions: Vec<String> = Vec::new();
    let mut i: u8 = 0;
    proof {
        lemma_prepend_empty(whole);
        assert(texts(partitions@) =~= Seq::<Seq<char>>::empty());
    }
    while i < count
        invariant
            i <= count,
            whole == spec_read_partitions(old(buf)@),
            whole == prepend(
                texts(partitions@),
                spec_read_strings(buf@, (count - i) as nat),
            ),
        decreases count - i,
    {
        let ghost before = partitions@;
        match read_string(buf) {
            Err(e) => {
                return Err(e);
            },
            Ok(text) => {
                proof {
                    let rest = spec_read_strings(buf@, (count - i - 1) as nat);
                    lemma_prepend_prepend(texts(before), seq![text@], rest);
                    assert(texts(before.push(text)) =~= texts(before) + seq![text@]);
                }
                partitions.push(text);
            },
        }
        i = i + 1;
    }
    assert(texts(partitions@) + Seq::<Seq<char>>::empty() =~= texts(partitions@));
    Ok(partitions)
}

/// Reads the value of the policy with the given id.
fn parse_policy(id: u8, buf: &mut &[u8]) -> (r: Result<QosPolicy, ProtocolError>)
    ensures
        (result_view(r), final(buf)@) == spec_parse_policy(id, old(buf)@),
{
    reveal(spec_parse_policy);
    match id {
        0x01 => match read_kind_u32(buf, "reliability kind", 1) {
            Err(e) => Err(e),
            Ok(v) => Ok(QosPolicy::Reliability { kind: v.0, max_blocking_time_ms: v.1 }),
        },
        0x02 => match read_kind(buf, "durability kind", 3) {
            Err(e) => Err(e),
            Ok(kind) => Ok(QosPolicy::Durability { kind }),
        },
        0x03 => match read_kind_u32(buf, "history kind", 1) {
            Err(e) => Err(e),
            Ok(v) => Ok(QosPolicy::History { kind: v.0, depth: v.1 }),
        },
        0x04 => match read_u32(buf) {
            Err(e) => Err(e),
            Ok(period_ms) => Ok(QosPolicy::Deadline { period_ms }),
        },
        0x05 => match read_u32(buf) {
            Err(e) => Err(e),
            Ok(duration_ms) => Ok(QosPolicy::LatencyBudget { duration_ms }),
        },
        0x06 => match read_u32(buf) {
            Err(e) => Err(e),
            Ok(value) => Ok(QosPolicy::OwnershipStrength { value }),
        },
        0x07 => match read_kind_u32(buf, "liveliness kind", 2) {
            Err(e) => Err(e),
            Ok(v) => Ok(QosPolicy::Liveliness { kind: v.0, lease_duration_ms: v.1 }),
        },
        0x08 => match read_kind(buf, "destination_order kind", 1) {
            Err(e) => Err(e),
            Ok(kind) => Ok(QosPolicy::DestinationOrder { kind }),
        },
        0x09 => match read_presentation(buf) {
            Err(e) => Err(e),
            Ok(v) => Ok(
                QosPolicy::Presentation {
                    access_scope: v.0,
                    coherent_access: v.1,
                    ordered_access: v.2,
                },
            ),
        },
        0x0A => match read_partitions(buf) {
            Err(e) => Err(e),
            Ok(partitions) => Ok(QosPolicy::Partition { partitions }),
        },
        0x0B => match read_kind(buf, "ownership kind", 1) {
            Err(e) => Err(e),
            Ok(kind) => Ok(QosPolicy::Ownership { kind }),
        },
        0x0C => match read_flag(buf, "autodispose_unregistered_instances") {
            Err(e) => Err(e),
            Ok(v) => Ok(
                QosPolicy::WriterDataLifecycle { autodispose_unregistered_instances: v },
            ),
        },
        0x0D => match read_u32(buf) {
            Err(e) => Err(e),
            Ok(minimum_separation_ms) => Ok(QosPolicy::TimeBasedFilter { minimum_separation_ms }),
        },
        _ => Err(ProtocolError::InvalidQosPolicyId(id)),
    }
}

// ---------------------------------------------------------------------------
// Reading a set of policies
// ---------------------------------------------------------------------------

/// Reads `count` policies, none with an id in `seen` and no two with the same
/// id.
pub open spec fn spec_parse_policies(s: Seq<u8>, count: nat, seen: Set<u8>) -> Reading<
    Seq<QosPolicyView>,
>
    decreases count,
{
    if count == 0 {
        (Ok(seq![]), s)
    } else if s.len() < 1 {
        truncated(1, s)
    } else if seen.contains(s[0]) {
        (Err(ProtocolErrorView::DuplicateQosPolicy(s[0])), s.skip(1))
    } else {
        match spec_parse_policy(s[0], s.skip(1)) {
            (Err(e), rest) => (Err(e), rest),
            (Ok(policy), rest) => prepend(
                seq![policy],
                spec_parse_policies(rest, (count - 1) as nat, seen.insert(s[0])),
            ),
        }
    }
}

/// What the front of `s` says as a set of policies: their number, in one byte,
/// and for each of them its id and its value.
pub open spec fn spec_parse_qos(s: Seq<u8>) -> Reading<Seq<QosPolicyView>> {
    if s.len() < 1 {
        truncated(1, s)
    } else {
        spec_parse_policies(s.skip(1), s[0] as nat, Set::empty())
    }
}

proof fn lemma_unknown_policy(id: u8, s: Seq<u8>)
    requires
        !(1 <= id <= 13),
    ensures
        spec_parse_policy(id, s).0 is Err,
{
    reveal(spec_parse_policy);
}

/// Whether the bits of `mask` are the ids in `seen`.
spec fn mask_holds(mask: u16, seen: Set<u8>) -> bool {
    &&& forall|id: u8| #![trigger seen.contains(id)] seen.contains(id) ==> 1 <= id <= 13
    &&& forall|id: u8|
        #![trigger seen.contains(id)]
        1 <= id <= 13 ==> (seen.contains(id) <==> mask & (1u16 << id) != 0)
}

proof fn lemma_mask_insert(mask: u16, seen: Set<u8>, id: u8)
    requires
        mask_holds(mask, seen),
        1 <= id <= 13,
    ensures
        mask_holds(mask | (1u16 << id), seen.insert(id)),
{
    let wider = mask | (1u16 << id);
    assert forall|other: u8| 1 <= other <= 13 implies (#[trigger] seen.insert(id).contains(other)
        <==> wider & (1u16 << other) != 0) by {
        assert(seen.contains(other) <==> mask & (1u16 << other) != 0);
        assert((mask | (1u16 << id)) & (1u16 << other) != 0 <==> (mask & (1u16 << other) != 0
            || other == id)) by (bit_vector)
            requires
                1 <= id <= 13,
                1 <= other <= 13,
        ;
    }
}

/// Reads a set of policies.
pub fn parse_qos(buf: &mut &[u8]) -> (r: Result<QosSet, ProtocolError>)
    ensures
        (result_view(r), final(buf)@) == spec_parse_qos(old(buf)@),
{
    if buf.len() < 1 {
        return Err(ProtocolError::Truncated { expected: 1, got: 0 });
    }
    let policy_count: u8 = get_u8(buf);
    let mut policies: Vec<QosPolicy> = Vec::new();
    let mut seen_ids: u16 = 0;  // bit i: id i has been read
    let ghost mut seen: Set<u8> = Set::empty();
    let ghost whole = spec_parse_policies(buf@, policy_count as nat, seen);
    let mut i: u8 = 0;
    proof {
        lemma_prepend_empty(whole);
        assert(policy_views(policies@) =~= Seq::<QosPolicyView>::empty());
        assert(forall|id: u8| 0u16 & (1u16 << id) == 0) by (bit_vector);
    }
    while i < policy_count
        invariant
            i <= policy_count,
            mask_holds(seen_ids, seen),
            whole == spec_parse_qos(old(buf)@),
            whole == prepend(
                policy_views(policies@),
                spec_parse_policies(buf@, (policy_count - i) as nat, seen),
            ),
        decreases policy_count - i,
    {
        let ghost before = buf@;
        let ghost so_far = policies@;
        if buf.len() < 1 {
            return Err(ProtocolError::Truncated { expected: 1, got: 0 });
        }
        let policy_id: u8 = get_u8(buf);
        if 1 <= policy_id && policy_id <= 13 {
            let bit: u16 = 1u16 << policy_id;
            if seen_ids & bit != 0 {
                assert(seen.contains(policy_id));
                return Err(ProtocolError::DuplicateQosPolicy(policy_id));
            }
            proof {
                assert(!seen.contains(policy_id));
                lemma_mask_insert(seen_ids, seen, policy_id);
            }
            seen_ids = seen_ids | bit;
        } else {
            proof {
                assert(!seen.contains(policy_id));
                lemma_unknown_policy(policy_id, buf@);
            }
        }
        match parse_policy(policy_id, buf) {
            Err(e) => {
                return Err(e);
            },
            Ok(policy) => {
                proof {
                    let later = seen.insert(policy_id);
                    let rest = spec_parse_policies(buf@, (policy_count - i - 1) as nat, later);
                    lemma_prepend_prepend(policy_views(so_far), seq![policy@], rest);
                    assert(policy_views(so_far.push(policy)) =~= policy_views(so_far) + seq![
                        policy@,
                    ]);
                    seen = later;
                }
                policies.push(policy);
            },
        }
        i = i + 1;
    }
    assert(policy_views(policies@) + Seq::<QosPolicyView>::empty() =~= policy_views(policies@));
    Ok(QosSet { policies })
}

// ---------------------------------------------------------------------------
// Writing
// ---------------------------------------------------------------------------

/// The bytes of each string.
pub open spec fn string_parts(strings: Seq<Seq<char>>) -> Seq<Seq<u8>> {
    strings.map_values(|s: Seq<char>| string_bytes(s))
}

/// The bytes of a policy's value.
pub open spec fn policy_value_bytes(policy: QosPolicyView) -> Seq<u8> {
    match policy {
        QosPolicyView::Reliability { kind, max_blocking_time_ms } => {
            seq![kind] + le32_bytes(max_blocking_time_ms as int)
        },
        QosPolicyView::Durability { kind } => seq![kind],
        QosPolicyView::History { kind, depth } => seq![kind] + le32_bytes(depth as int),
        QosPolicyView::Deadline { period_ms } => le32_bytes(period_ms as int),
        QosPolicyView::LatencyBudget { duration_ms } => le32_bytes(duration_ms as int),
        QosPolicyView::OwnershipStrength { value } => le32_bytes(value as int),
        QosPolicyView::Liveliness { kind, lease_duration_ms } => {
            seq![kind] + le32_bytes(lease_duration_ms as int)
        },
        QosPolicyView::DestinationOrder { kind } => seq![kind],
        QosPolicyView::Presentation { access_scope, coherent_access, ordered_access } => {
            seq![access_scope, coherent_access, ordered_access]
        },
        QosPolicyView::Partition { partitions } => {
            seq![(partitions.len() as int % 0x100) as u8] + concat(string_parts(partitions))
        },
        QosPolicyView::Ownership { kind } => seq![kind],
        QosPolicyView::WriterDataLifecycle { autodispose_unregistered_instances } => {
            seq![autodispose_unregistered_instances]
        },
        QosPolicyView::TimeBasedFilter { minimum_separation_ms } => {
            le32_bytes(minimum_separation_ms as int)
        },
    }
}

/// The bytes of a policy: its id and its value.
pub open spec fn policy_bytes(policy: QosPolicyView) -> Seq<u8> {
    seq![policy.id()] + policy_value_bytes(policy)
}

/// The bytes of each policy.
pub open spec fn policy_parts(policies: Seq<QosPolicyView>) -> Seq<Seq<u8>> {
    policies.map_values(|p: QosPolicyView| policy_bytes(p))
}

/// The bytes of a set of policies.
pub open spec fn qos_bytes(policies: Seq<QosPolicyView>) -> Seq<u8> {
    seq![(policies.len() as int % 0x100) as u8] + concat(policy_parts(policies))
}

/// Appends a number of strings and the strings.
fn serialize_partitions(partitions: &Vec<String>, buf: &mut BytesMut)
    requires
        contents(*old(buf)).len() + 1 + concat(string_parts(texts(partitions@))).len()
            <= buffer_limit(),
    ensures
        contents(*final(buf)) == contents(*old(buf)) + (seq![
            (partitions@.len() as int % 0x100) as u8,
        ] + concat(string_parts(texts(partitions@)))),
{
    let ghost parts = string_parts(texts(partitions@));
    put_u8(buf, low_u8(partitions.len()));
    let ghost head = contents(*buf);
    assert(parts.take(0) =~= Seq::<Seq<u8>>::empty());
    assert(head =~= head + concat(parts.take(0)));
    let mut i: usize = 0;
    while i < partitions.len()
        invariant
            i <= partitions@.len(),
            parts == string_parts(texts(partitions@)),
            head.len() + concat(parts).len() <= buffer_limit(),
            contents(*buf) == head + concat(parts.take(i as int)),
        decreases partitions@.len() - i,
    {
        let ghost before = contents(*buf);
        proof {
            lemma_concat_step(parts, i as int);
            assert(texts(partitions@)[i as int] == partitions@[i as int]@);
            assert(parts[i as int] == string_bytes(partitions@[i as int]@));
        }
        write_string(buf, partitions[i].as_str());
        i = i + 1;
        assert(contents(*buf) =~= head + concat(parts.take(i as int)));
    }
    assert(parts.take(i as int) =~= parts);
    assert(contents(*buf) =~= contents(*old(buf)) + (seq![
        (partitions@.len() as int % 0x100) as u8,
    ] + concat(parts)));
}

/// Appends the id and the value of a policy.
fn serialize_policy(policy: &QosPolicy, buf: &mut BytesMut)
    requires
        contents(*old(buf)).len() + policy_bytes(policy@).len() <= buffer_limit(),
    ensures
        contents(*final(buf)) == contents(*old(buf)) + policy_bytes(policy@),
{
    put_u8(buf, policy.policy_id());
    match policy {
        QosPolicy::Reliability { kind, max_blocking_time_ms } => {
            put_u8(buf, *kind);
            put_u32_le(buf, *max_blocking_time_ms);
        },
        QosPolicy::Durability { kind } => {
            put_u8(buf, *kind);
        },
        QosPolicy::History { kind, depth } => {
            put_u8(buf, *kind);
            put_u32_le(buf, *depth);
        },
        QosPolicy::Deadline { period_ms } => {
            put_u32_le(buf, *period_ms);
        },
        QosPolicy::LatencyBudget { duration_ms } => {
            put_u32_le(buf, *duration_ms);
        },
        QosPolicy::OwnershipStrength { value } => {
            put_u32_le(buf, *value);
        },
        QosPolicy::Liveliness { kind, lease_duration_ms } => {
            put_u8(buf, *kind);
            put_u32_le(buf, *lease_duration_ms);
        },
        QosPolicy::DestinationOrder { kind } => {
            put_u8(buf, *kind);
        },
        QosPolicy::Presentation { access_scope, coherent_access, ordered_access } => {
            put_u8(buf, *access_scope);
            put_u8(buf, *coherent_access);
            put_u8(buf, *ordered_access);
        },
        QosPolicy::Partition { partitions } => {
            serialize_partitions(partitions, buf);
        },
        QosPolicy::Ownership { kind } => {
            put_u8(buf, *kind);
        },
        QosPolicy::WriterDataLifecycle { autodispose_unregistered_instances } => {
            put_u8(buf, *autodispose_unregistered_instances);
        },
        QosPolicy::TimeBasedFilter { minimum_separation_ms } => {
            put_u32_le(buf, *minimum_separation_ms);
        },
    }
    assert(contents(*buf) =~= contents(*old(buf)) + policy_bytes(policy@));
}

/// Appends a set of policies.
pub fn serialize_qos(qos: &QosSet, buf: &mut BytesMut)
    requires
        contents(*old(buf)).len() + qos_bytes(qos@).len() <= buffer_limit(),
    ensures
        contents(*final(buf)) == contents(*old(buf)) + qos_bytes(qos@),
{
    let ghost parts = policy_parts(qos@);
    put_u8(buf, low_u8(qos.policies.len()));
    let ghost head = contents(*buf);
    assert(parts.take(0) =~= Seq::<Seq<u8>>::empty());
    assert(head =~= head + concat(parts.take(0)));
    let mut i: usize = 0;
    while i < qos.policies.len()
        invariant
            i <= qos.policies@.len(),
            parts == policy_parts(qos@),
            head.len() + concat(parts).len() <= buffer_limit(),
            contents(*buf) == head + concat(parts.take(i as int)),
        decreases qos.policies@.len() - i,
    {
        proof {
            lemma_concat_step(parts, i as int);
            assert(qos@[i as int] == qos.policies@[i as int]@);
            assert(parts[i as int] == policy_bytes(qos.policies@[i as int]@));
        }
        serialize_policy(&qos.policies[i], buf);
        i = i + 1;
        assert(contents(*buf) =~= head + concat(parts.take(i as int)));
    }
    assert(parts.take(i as int) =~= parts);
    assert(contents(*buf) =~= contents(*old(buf)) + qos_bytes(qos@));
}

} // verus!
