//! What is set on a DDS entity for each policy, value by value.
use vstd::prelude::*;

use crate::dds::participant::contains_nul;
use crate::dds::qos_handle::{
    setting_of, settings_of, AccessScope, DestinationOrderKind, DurabilityKind, HistoryKind,
    LivelinessKind, OwnershipKind, QosSettingView, ReliabilityKind,
};
use crate::qos::laws::policy_in_range;
use crate::qos::policy::QosPolicyView;

verus! {

/// Every policy is set, each by its own value and in its place: the settings are
/// as many as the policies, and one more policy is one more setting.
pub proof fn law_every_policy_is_set(policies: Seq<QosPolicyView>, policy: QosPolicyView)
    ensures
        settings_of(Seq::empty()) == Seq::<QosSettingView>::empty(),
        settings_of(policies.push(policy)) == settings_of(policies).push(setting_of(policy)),
{
    assert(settings_of(Seq::<QosPolicyView>::empty()) =~= Seq::<QosSettingView>::empty());
    assert(settings_of(policies.push(policy)) =~= settings_of(policies).push(setting_of(policy)));
}

/// Times are handed on in nanoseconds, a million for each millisecond; a
/// deadline or a lease of 0 is infinite, and no other is.
pub proof fn law_times_are_set_in_nanoseconds(kind: u8, ms: u32)
    ensures
        setting_of(QosPolicyView::Reliability { kind, max_blocking_time_ms: ms })
            matches QosSettingView::Reliability { max_blocking_ns, .. } && max_blocking_ns
            == 1_000_000 * ms,
        setting_of(QosPolicyView::LatencyBudget { duration_ms: ms })
            matches QosSettingView::LatencyBudget { ns } && ns == 1_000_000 * ms,
        setting_of(QosPolicyView::TimeBasedFilter { minimum_separation_ms: ms })
            matches QosSettingView::TimeBasedFilter { ns } && ns == 1_000_000 * ms,
        setting_of(QosPolicyView::Deadline { period_ms: ms }) matches QosSettingView::Deadline {
            ns,
        } && (ms > 0 ==> ns == 1_000_000 * ms) && (ms == 0 <==> ns == 0x7FFF_FFFF_FFFF_FFFF),
        setting_of(QosPolicyView::Liveliness { kind, lease_duration_ms: ms })
            matches QosSettingView::Liveliness { lease_ns, .. } && (ms > 0 ==> lease_ns
            == 1_000_000 * ms) && (ms == 0 <==> lease_ns == 0x7FFF_FFFF_FFFF_FFFF),
{
}

/// Kinds are handed on as they are numbered on the wire.
pub proof fn law_kinds_are_set_as_numbered(kind: u8, n: u32)
    ensures
        setting_of(QosPolicyView::Reliability { kind, max_blocking_time_ms: n })
            matches QosSettingView::Reliability { kind: k, .. } && (k
            == ReliabilityKind::BestEffort <==> kind == 0),
        setting_of(QosPolicyView::Durability { kind }) matches QosSettingView::Durability {
            kind: k,
        } && (k == DurabilityKind::Volatile <==> kind == 0) && (k
            == DurabilityKind::TransientLocal <==> kind == 1) && (k == DurabilityKind::Transient
            <==> kind == 2),
        setting_of(QosPolicyView::History { kind, depth: n }) matches QosSettingView::History {
            kind: k,
            ..
        } && (k == HistoryKind::KeepLast <==> kind == 0),
        setting_of(QosPolicyView::Liveliness { kind, lease_duration_ms: n })
            matches QosSettingView::Liveliness { kind: k, .. } && (k == LivelinessKind::Automatic
            <==> kind == 0) && (k == LivelinessKind::ManualByParticipant <==> kind == 1),
        setting_of(QosPolicyView::DestinationOrder { kind })
            matches QosSettingView::DestinationOrder { kind: k } && (k
            == DestinationOrderKind::ByReceptionTimestamp <==> kind == 0),
        setting_of(QosPolicyView::Ownership { kind }) matches QosSettingView::Ownership {
            kind: k,
        } && (k == OwnershipKind::Shared <==> kind == 0),
        setting_of(
            QosPolicyView::WriterDataLifecycle { autodispose_unregistered_instances: kind },
        ) matches QosSettingView::WriterDataLifecycle { autodispose } && (autodispose <==> kind
            != 0),
{
}

/// A presentation is handed on field by field; a depth and a strength bit by bit,
/// so that what fits into a signed number is that number.
pub proof fn law_other_fields_are_set_unchanged(scope: u8, coherent: u8, ordered: u8, n: u32)
    ensures
        setting_of(
            QosPolicyView::Presentation {
                access_scope: scope,
                coherent_access: coherent,
                ordered_access: ordered,
            },
        ) matches QosSettingView::Presentation { scope: k, coherent: c, ordered: o } && (k
            == AccessScope::Instance <==> scope == 0) && (k == AccessScope::Topic <==> scope == 1)
            && (c <==> coherent != 0) && (o <==> ordered != 0),
        setting_of(QosPolicyView::History { kind: scope, depth: n })
            matches QosSettingView::History { depth, .. } && -0x8000_0000 <= depth < 0x8000_0000
            && (depth - n) % 0x1_0000_0000 == 0,
        setting_of(QosPolicyView::OwnershipStrength { value: n })
            matches QosSettingView::OwnershipStrength { value } && -0x8000_0000 <= value
            < 0x8000_0000 && (value - n) % 0x1_0000_0000 == 0,
{
}

/// Partition names are handed on in their order; a name with a NUL in it, which
/// DDS cannot hold, becomes an empty one.
pub proof fn law_partition_names_are_set_in_order(names: Seq<Seq<char>>)
    ensures
        setting_of(QosPolicyView::Partition { partitions: names })
            matches QosSettingView::Partition { names: set } && set.len() == names.len()
            && forall|i: int|
            0 <= i < names.len() ==> #[trigger] set[i] == (if contains_nul(names[i]) {
                Seq::<char>::empty()
            } else {
                names[i]
            }),
{
}

/// Different policies are set differently: of two policies that a payload can
/// hold, without a NUL in a name, no two have the same setting.
pub proof fn law_different_policies_are_set_differently(a: QosPolicyView, b: QosPolicyView)
    requires
        policy_in_range(a),
        policy_in_range(b),
        a matches QosPolicyView::Partition { partitions } ==> forall|i: int|
            0 <= i < partitions.len() ==> !contains_nul(#[trigger] partitions[i]),
        b matches QosPolicyView::Partition { partitions } ==> forall|i: int|
            0 <= i < partitions.len() ==> !contains_nul(#[trigger] partitions[i]),
    ensures
        setting_of(a) == setting_of(b) <==> a == b,
{
    if setting_of(a) == setting_of(b) {
        match (a, b) {
            (
                QosPolicyView::Partition { partitions: p },
                QosPolicyView::Partition { partitions: q },
            ) => {
                law_partition_names_are_set_in_order(p);
                law_partition_names_are_set_in_order(q);
                let sp = setting_of(a)->Partition_names;
                assert(p.len() == q.len());
                assert forall|i: int| 0 <= i < p.len() implies p[i] == q[i] by {
                    assert(sp[i] == p[i]);
                    assert(sp[i] == q[i]);
                }
                assert(p =~= q);
            },
            _ => {},
        }
    }
}

} // verus!
