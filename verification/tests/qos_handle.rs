//! What is set on a DDS entity for each policy.
use cyclone_dds_ws_bridge::dds::qos_handle::{
    qos_setting, AccessScope, DestinationOrderKind, DurabilityKind, HistoryKind, LivelinessKind,
    OwnershipKind, QosSetting, ReliabilityKind,
};
use cyclone_dds_ws_bridge::dds::{make_qos, QosHandle};
use cyclone_dds_ws_bridge::qos::{QosPolicy, QosSet};

#[test]
fn no_policies_need_no_handle() {
    assert!(make_qos(&QosSet::default()).is_none());
    assert!(QosHandle::from_qos_set(&QosSet::default()).is_none());
}

#[test]
fn policies_are_set_in_their_order() {
    let qos = QosSet {
        policies: vec![
            QosPolicy::Durability { kind: 1 },
            QosPolicy::Reliability { kind: 0, max_blocking_time_ms: 7 },
        ],
    };
    let expected = vec![
        QosSetting::Durability { kind: DurabilityKind::TransientLocal },
        QosSetting::Reliability { kind: ReliabilityKind::BestEffort, max_blocking_ns: 7_000_000 },
    ];
    assert_eq!(make_qos(&qos).unwrap().settings, expected);
}

#[test]
fn milliseconds_become_nanoseconds() {
    assert_eq!(
        qos_setting(&QosPolicy::LatencyBudget { duration_ms: 4294967295 }),
        QosSetting::LatencyBudget { ns: 4_294_967_295_000_000 }
    );
    assert_eq!(
        qos_setting(&QosPolicy::TimeBasedFilter { minimum_separation_ms: 100 }),
        QosSetting::TimeBasedFilter { ns: 100_000_000 }
    );
    assert_eq!(
        qos_setting(&QosPolicy::Reliability { kind: 1, max_blocking_time_ms: 100 }),
        QosSetting::Reliability { kind: ReliabilityKind::Reliable, max_blocking_ns: 100_000_000 }
    );
}

#[test]
fn a_period_of_zero_is_infinite() {
    assert_eq!(
        qos_setting(&QosPolicy::Deadline { period_ms: 0 }),
        QosSetting::Deadline { ns: i64::MAX }
    );
    assert_eq!(
        qos_setting(&QosPolicy::Deadline { period_ms: 5 }),
        QosSetting::Deadline { ns: 5_000_000 }
    );
    assert_eq!(
        qos_setting(&QosPolicy::Liveliness { kind: 2, lease_duration_ms: 0 }),
        QosSetting::Liveliness { kind: LivelinessKind::ManualByTopic, lease_ns: i64::MAX }
    );
    assert_eq!(
        qos_setting(&QosPolicy::Liveliness { kind: 0, lease_duration_ms: 1 }),
        QosSetting::Liveliness { kind: LivelinessKind::Automatic, lease_ns: 1_000_000 }
    );
    assert_eq!(
        qos_setting(&QosPolicy::LatencyBudget { duration_ms: 0 }),
        QosSetting::LatencyBudget { ns: 0 }
    );
}

#[test]
fn the_other_policies() {
    assert_eq!(
        qos_setting(&QosPolicy::History { kind: 1, depth: 10 }),
        QosSetting::History { kind: HistoryKind::KeepAll, depth: 10 }
    );
    assert_eq!(
        qos_setting(&QosPolicy::History { kind: 0, depth: 4294967295 }),
        QosSetting::History { kind: HistoryKind::KeepLast, depth: -1 }
    );
    assert_eq!(
        qos_setting(&QosPolicy::OwnershipStrength { value: 42 }),
        QosSetting::OwnershipStrength { value: 42 }
    );
    assert_eq!(
        qos_setting(&QosPolicy::DestinationOrder { kind: 1 }),
        QosSetting::DestinationOrder { kind: DestinationOrderKind::BySourceTimestamp }
    );
    assert_eq!(
        qos_setting(&QosPolicy::Presentation {
            access_scope: 2,
            coherent_access: 1,
            ordered_access: 0,
        }),
        QosSetting::Presentation { scope: AccessScope::Group, coherent: true, ordered: false }
    );
    assert_eq!(
        qos_setting(&QosPolicy::Ownership { kind: 1 }),
        QosSetting::Ownership { kind: OwnershipKind::Exclusive }
    );
    assert_eq!(
        qos_setting(&QosPolicy::WriterDataLifecycle { autodispose_unregistered_instances: 0 }),
        QosSetting::WriterDataLifecycle { autodispose: false }
    );
    assert_eq!(
        qos_setting(&QosPolicy::Durability { kind: 3 }),
        QosSetting::Durability { kind: DurabilityKind::Persistent }
    );
    assert_eq!(
        qos_setting(&QosPolicy::Partition { partitions: vec!["a".into(), "b\0c".into()] }),
        QosSetting::Partition { names: vec!["a".into(), "".into()] }
    );
}
