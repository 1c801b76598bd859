//! QoS policies as settings of a DDS entity.
use vstd::prelude::*;
use vstd::string::*;

use crate::dds::participant::{contains_nul, has_nul};
use crate::qos::policy::{texts, QosPolicy, QosPolicyView, QosSet};

verus! {

#[derive(Debug, Clone, Copy, PartialEq, Eq, Structural)]
pub enum ReliabilityKind {
    BestEffort,
    Reliable,
}

#[derive(Debug, Clone, Copy, PartialEq, Eq, Structural)]
pub enum DurabilityKind {
    Volatile,
    TransientLocal,
    Transient,
    Persistent,
}

#[derive(Debug, Clone, Copy, PartialEq, Eq, Structural)]
pub enum HistoryKind {
    KeepLast,
    KeepAll,
}

#[derive(Debug, Clone, Copy, PartialEq, Eq, Structural)]
pub enum LivelinessKind {
    Automatic,
    ManualByParticipant,
    ManualByTopic,
}

#[derive(Debug, Clone, Copy, PartialEq, Eq, Structural)]
pub enum DestinationOrderKind {
    ByReceptionTimestamp,
    BySourceTimestamp,
}

#[derive(Debug, Clone, Copy, PartialEq, Eq, Structural)]
pub enum AccessScope {
    Instance,
    Topic,
    Group,
}

#[derive(Debug, Clone, Copy, PartialEq, Eq, Structural)]
pub enum OwnershipKind {
    Shared,
    Exclusive,
}

/// One setting of a DDS entity. Times are in nanoseconds; `i64::MAX` is
/// infinite.
#[allow(inconsistent_fields)]
#[derive(Debug, PartialEq)]
pub enum QosSetting {
    Reliability { kind: ReliabilityKind, max_blocking_ns: i64 },
    Durability { kind: DurabilityKind },
    History { kind: HistoryKind, depth: i32 },
    Deadline { ns: i64 },
    LatencyBudget { ns: i64 },
    OwnershipStrength { value: i32 },
    Liveliness { kind: LivelinessKind, lease_ns: i64 },
    DestinationOrder { kind: DestinationOrderKind },
    Presentation { scope: AccessScope, coherent: bool, ordered: bool },
    Partition { names: Vec<String> },
    Ownership { kind: OwnershipKind },
    WriterDataLifecycle { autodispose: bool },
    TimeBasedFilter { ns: i64 },
}

/// The mathematical value of a [`QosSetting`].
#[allow(inconsistent_fields)]
#[verifier::ext_equal]
pub enum QosSettingView {
    Reliability { kind: ReliabilityKind, max_blocking_ns: int },
    Durability { kind: DurabilityKind },
    History { kind: HistoryKind, depth: int },
    Deadline { ns: int },
    LatencyBudget { ns: int },
    OwnershipStrength { value: int },
    Liveliness { kind: LivelinessKind, lease_ns: int },
    DestinationOrder { kind: DestinationOrderKind },
    Presentation { scope: AccessScope, coherent: bool, ordered: bool },
    Partition { names: Seq<Seq<char>> },
    Ownership { kind: OwnershipKind },
    WriterDataLifecycle { autodispose: bool },
    TimeBasedFilter { ns: int },
}

impl View for QosSetting {
    type V = QosSettingView;

    open spec fn view(&self) -> QosSettingView {
        match *self {
            QosSetting::Reliability { kind, max_blocking_ns } => {
                QosSettingView::Reliability { kind, max_blocking_ns: max_blocking_ns as int }
            },
            QosSetting::Durability { kind } => QosSettingView::Durability { kind },
            QosSetting::History { kind, depth } => {
                QosSettingView::History { kind, depth: depth as int }
            },
            QosSetting::Deadline { ns } => QosSettingView::Deadline { ns: ns as int },
            QosSetting::LatencyBudget { ns } => QosSettingView::LatencyBudget { ns: ns as int },
            QosSetting::OwnershipStrength { value } => {
                QosSettingView::OwnershipStrength { value: value as int }
            },
            QosSetting::Liveliness { kind, lease_ns } => {
                QosSettingView::Liveliness { kind, lease_ns: lease_ns as int }
            },
            QosSetting::DestinationOrder { kind } => QosSettingView::DestinationOrder { kind },
            QosSetting::Presentation { scope, coherent, ordered } => {
                QosSettingView::Presentation { scope, coherent, ordered }
            },
            QosSetting::Partition { names } => QosSettingView::Partition { names: texts(names@) },
            QosSetting::Ownership { kind } => QosSettingView::Ownership { kind },
            QosSetting::WriterDataLifecycle { autodispose } => {
                QosSettingView::WriterDataLifecycle { autodispose }
            },
            QosSetting::TimeBasedFilter { ns } => QosSettingView::TimeBasedFilter {
                ns: ns as int,
            },
        }
    }
}

/// A number of milliseconds in nanoseconds.
pub open spec fn ns(ms: u32) -> int {
    ms * 1_000_000
}

/// A number of milliseconds in nanoseconds, where zero stands for infinite.
pub open spec fn ns_or_infinite(ms: u32) -> int {
    if ms == 0 {
        i64::MAX as int
    } else {
        ns(ms)
    }
}

/// The signed number with the bits of `v`.
pub open spec fn signed(v: u32) -> int {
    if v < 0x8000_0000 {
        v as int
    } else {
        v - 0x1_0000_0000
    }
}

/// A partition name as it is handed on: a name with a NUL in it is dropped.
pub open spec fn partition_name(name: Seq<char>) -> Seq<char> {
    if contains_nul(name) {
        seq![]
    } else {
        name
    }
}

/// The setting that a policy asks for. A kind above those that are known is
/// taken as the last of them.
pub open spec fn setting_of(policy: QosPolicyView) -> QosSettingView {
    match policy {
        QosPolicyView::Reliability { kind, max_blocking_time_ms } => QosSettingView::Reliability {
            kind: if kind == 0 {
                ReliabilityKind::BestEffort
            } else {
                ReliabilityKind::Reliable
            },
            max_blocking_ns: ns(max_blocking_time_ms),
        },
        QosPolicyView::Durability { kind } => QosSettingView::Durability {
            kind: if kind == 0 {
                DurabilityKind::Volatile
            } else if kind == 1 {
                DurabilityKind::TransientLocal
            } else if kind == 2 {
                DurabilityKind::Transient
            } else {
                DurabilityKind::Persistent
            },
        },
        QosPolicyView::History { kind, depth } => QosSettingView::History {
            kind: if kind == 0 {
                HistoryKind::KeepLast
            } else {
                HistoryKind::KeepAll
            },
            depth: signed(depth),
        },
        QosPolicyView::Deadline { period_ms } => {
            QosSettingView::Deadline { ns: ns_or_infinite(period_ms) }
        },
        QosPolicyView::LatencyBudget { duration_ms } => {
            QosSettingView::LatencyBudget { ns: ns(duration_ms) }
        },
        QosPolicyView::OwnershipStrength { value } => {
            QosSettingView::OwnershipStrength { value: signed(value) }
        },
        QosPolicyView::Liveliness { kind, lease_duration_ms } => QosSettingView::Liveliness {
            kind: if kind == 0 {
                LivelinessKind::Automatic
            } else if kind == 1 {
                LivelinessKind::ManualByParticipant
            } else {
                LivelinessKind::ManualByTopic
            },
            lease_ns: ns_or_infinite(lease_duration_ms),
        },
        QosPolicyView::DestinationOrder { kind } => QosSettingView::DestinationOrder {
            kind: if kind == 0 {
                DestinationOrderKind::ByReceptionTimestamp
            } else {
                DestinationOrderKind::BySourceTimestamp
            },
        },
        QosPolicyView::Presentation { access_scope, coherent_access, ordered_access } => {
            QosSettingView::Presentation {
                scope: if access_scope == 0 {
                    AccessScope::Instance
                } else if access_scope == 1 {
                    AccessScope::Topic
                } else {
                    AccessScope::Group
                },
                coherent: coherent_access != 0,
                ordered: ordered_access != 0,
            }
        },
        QosPolicyView::Partition { partitions } => QosSettingView::Partition {
            names: partitions.map_values(|name: Seq<char>| partition_name(name)),
        },
        QosPolicyView::Ownership { kind } => QosSettingView::Ownership {
            kind: if kind == 0 {
                OwnershipKind::Shared
            } else {
                OwnershipKind::Exclusive
            },
        },
        QosPolicyView::WriterDataLifecycle { autodispose_unregistered_instances } => {
            QosSettingView::WriterDataLifecycle {
                autodispose: autodispose_unregistered_instances != 0,
            }
        },
        QosPolicyView::TimeBasedFilter { minimum_separation_ms } => {
            QosSettingView::TimeBasedFilter { ns: ns(minimum_separation_ms) }
        },
    }
}

/// The settings that a list of policies asks for, in its order.
pub open spec fn settings_of(policies: Seq<QosPolicyView>) -> Seq<QosSettingView> {
    policies.map_values(|p: QosPolicyView| setting_of(p))
}

/// The values of a list of settings.
pub open spec fn setting_views(settings: Seq<QosSetting>) -> Seq<QosSettingView> {
    settings.map_values(|s: QosSetting| s@)
}

fn to_ns(ms: u32) -> (n: i64)
    ensures
        n == ns(ms),
{
    (ms as i64) * 1_000_000
}

fn to_ns_or_infinite(ms: u32) -> (n: i64)
    ensures
        n == ns_or_infinite(ms),
{
    if ms == 0 {
        i64::MAX
    } else {
        to_ns(ms)
    }
}

fn to_signed(v: u32) -> (n: i32)
    ensures
        n == signed(v),
{
    if v < 0x8000_0000 {
        v as i32
    } else {
        (v as i64 - 0x1_0000_0000) as i32
    }
}

fn partition_names(partitions: &Vec<String>) -> (names: Vec<String>)
    ensures
        texts(names@) == texts(partitions@).map_values(|name: Seq<char>| partition_name(name)),
{
    let ghost wanted = texts(partitions@).map_values(|name: Seq<char>| partition_name(name));
    let mut names: Vec<String> = Vec::new();
    let mut i: usize = 0;
    while i < partitions.len()
        invariant
            i <= partitions@.len(),
            wanted == texts(partitions@).map_values(|name: Seq<char>| partition_name(name)),
            texts(names@) == wanted.take(i as int),
        decreases partitions@.len() - i,
    {
        let ghost before = names@;
        let name: String = if has_nul(partitions[i].as_str()) {
            String::new()
        } else {
            partitions[i].clone()
        };
        assert(wanted[i as int] == partition_name(partitions@[i as int]@));
        assert(name@ =~= wanted[i as int]);
        names.push(name);
        assert(texts(names@) =~= texts(before).push(name@));
        i = i + 1;
        assert(texts(names@) =~= wanted.take(i as int));
    }
    assert(wanted.take(i as int) =~= wanted);
    names
}

/// The setting that a policy asks for.
pub fn qos_setting(policy: &QosPolicy) -> (setting: QosSetting)
    ensures
        setting@ == setting_of(policy@),
{
    match policy {
        QosPolicy::Reliability { kind, max_blocking_time_ms } => QosSetting::Reliability {
            kind: match *kind {
                0 => ReliabilityKind::BestEffort,
                _ => ReliabilityKind::Reliable,
            },
            max_blocking_ns: to_ns(*max_blocking_time_ms),
        },
        QosPolicy::Durability { kind } => QosSetting::Durability {
            kind: match *kind {
                0 => DurabilityKind::Volatile,
                1 => DurabilityKind::TransientLocal,
                2 => DurabilityKind::Transient,
                _ => DurabilityKind::Persistent,
            },
        },
        QosPolicy::History { kind, depth } => QosSetting::History {
            kind: match *kind {
                0 => HistoryKind::KeepLast,
                _ => HistoryKind::KeepAll,
            },
            depth: to_signed(*depth),
        },
        QosPolicy::Deadline { period_ms } => {
            QosSetting::Deadline { ns: to_ns_or_infinite(*period_ms) }
        },
        QosPolicy::LatencyBudget { duration_ms } => {
            QosSetting::LatencyBudget { ns: to_ns(*duration_ms) }
        },
        QosPolicy::OwnershipStrength { value } => {
            QosSetting::OwnershipStrength { value: to_signed(*value) }
        },
        QosPolicy::Liveliness { kind, lease_duration_ms } => QosSetting::Liveliness {
            kind: match *kind {
                0 => LivelinessKind::Automatic,
                1 => LivelinessKind::ManualByParticipant,
                _ => LivelinessKind::ManualByTopic,
            },
            lease_ns: to_ns_or_infinite(*lease_duration_ms),
        },
        QosPolicy::DestinationOrder { kind } => QosSetting::DestinationOrder {
            kind: match *kind {
                0 => DestinationOrderKind::ByReceptionTimestamp,
                _ => DestinationOrderKind::BySourceTimestamp,
            },
        },
        QosPolicy::Presentation { access_scope, coherent_access, ordered_access } => {
            QosSetting::Presentation {
                scope: match *access_scope {
                    0 => AccessScope::Instance,
                    1 => AccessScope::Topic,
                    _ => AccessScope::Group,
                },
                coherent: *coherent_access != 0,
                ordered: *ordered_access != 0,
            }
        },
        QosPolicy::Partition { partitions } => {
            QosSetting::Partition { names: partition_names(partitions) }
        },
        QosPolicy::Ownership { kind } => QosSetting::Ownership {
            kind: match *kind {
                0 => OwnershipKind::Shared,
                _ => OwnershipKind::Exclusive,
            },
        },
        QosPolicy::WriterDataLifecycle { autodispose_unregistered_instances } => {
            QosSetting::WriterDataLifecycle {
                autodispose: *autodispose_unregistered_instances != 0,
            }
        },
        QosPolicy::TimeBasedFilter { minimum_separation_ms } => {
            QosSetting::TimeBasedFilter { ns: to_ns(*minimum_separation_ms) }
        },
    }
}

/// The settings of a DDS entity that is created with QoS policies.
#[derive(Debug, PartialEq)]
pub struct QosHandle {
    pub settings: Vec<QosSetting>,
}

impl QosHandle {
    /// Convert a QosSet to the settings of a DDS entity.
    /// Returns `None` if the QoS set is empty: the entity then takes the
    /// defaults.
    pub fn from_qos_set(qos: &QosSet) -> (handle: Option<Self>)
        ensures
            match handle {
                None => qos@.len() == 0,
                Some(h) => qos@.len() > 0 && setting_views(h.settings@) == settings_of(qos@),
            },
    {
        if qos.policies.is_empty() {
            return None;
        }
        let ghost wanted = settings_of(qos@);
        let mut settings: Vec<QosSetting> = Vec::new();
        let mut i: usize = 0;
        while i < qos.policies.len()
            invariant
                i <= qos.policies@.len(),
                wanted == settings_of(qos@),
                setting_views(settings@) == wanted.take(i as int),
            decreases qos.policies@.len() - i,
        {
            let ghost before = settings@;
            let setting = qos_setting(&qos.policies[i]);
            assert(wanted[i as int] == setting_of(qos.policies@[i as int]@));
            settings.push(setting);
            assert(setting_views(settings@) =~= setting_views(before).push(setting@));
            i = i + 1;
            assert(setting_views(settings@) =~= wanted.take(i as int));
        }
        assert(wanted.take(i as int) =~= wanted);
        Some(QosHandle { settings })
    }
}

/// The settings to create an entity with: none for an empty QoS set.
pub fn make_qos(qos: &QosSet) -> (handle: Option<QosHandle>)
    ensures
        match handle {
            None => qos@.len() == 0,
            Some(h) => qos@.len() > 0 && setting_views(h.settings@) == settings_of(qos@),
        },
{
    QosHandle::from_qos_set(qos)
}

} // verus!
