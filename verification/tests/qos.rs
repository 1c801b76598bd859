//! QoS policies: encoding and normal form.
use bytes::{BufMut, BytesMut};
use cyclone_dds_ws_bridge::protocol::ProtocolError;
use cyclone_dds_ws_bridge::qos::{parse_qos, serialize_qos, QosPolicy, QosSet};

fn qos_round_trip(qos: &QosSet) -> QosSet {
    let mut buf = BytesMut::new();
    serialize_qos(qos, &mut buf);
    let bytes = buf.freeze();
    let mut slice: &[u8] = &bytes;
    parse_qos(&mut slice).unwrap()
}

#[test]
fn test_empty_qos() {
    let qos = QosSet::default();
    let parsed = qos_round_trip(&qos);
    assert_eq!(parsed.policies.len(), 0);
}

#[test]
fn test_reliability() {
    let qos = QosSet {
        policies: vec![QosPolicy::Reliability {
            kind: 1,
            max_blocking_time_ms: 100,
        }],
    };
    assert_eq!(qos, qos_round_trip(&qos));
}

#[test]
fn test_durability() {
    let qos = QosSet {
        policies: vec![QosPolicy::Durability { kind: 1 }],
    };
    assert_eq!(qos, qos_round_trip(&qos));
}

#[test]
fn test_history() {
    let qos = QosSet {
        policies: vec![QosPolicy::History { kind: 0, depth: 10 }],
    };
    assert_eq!(qos, qos_round_trip(&qos));
}

#[test]
fn test_deadline() {
    let qos = QosSet {
        policies: vec![QosPolicy::Deadline { period_ms: 500 }],
    };
    assert_eq!(qos, qos_round_trip(&qos));
}

#[test]
fn test_latency_budget() {
    let qos = QosSet {
        policies: vec![QosPolicy::LatencyBudget { duration_ms: 50 }],
    };
    assert_eq!(qos, qos_round_trip(&qos));
}

#[test]
fn test_ownership_strength() {
    let qos = QosSet {
        policies: vec![QosPolicy::OwnershipStrength { value: 42 }],
    };
    assert_eq!(qos, qos_round_trip(&qos));
}

#[test]
fn test_liveliness() {
    let qos = QosSet {
        policies: vec![QosPolicy::Liveliness {
            kind: 2,
            lease_duration_ms: 1000,
        }],
    };
    assert_eq!(qos, qos_round_trip(&qos));
}

#[test]
fn test_destination_order() {
    let qos = QosSet {
        policies: vec![QosPolicy::DestinationOrder { kind: 1 }],
    };
    assert_eq!(qos, qos_round_trip(&qos));
}

#[test]
fn test_presentation() {
    let qos = QosSet {
        policies: vec![QosPolicy::Presentation {
            access_scope: 1,
            coherent_access: 1,
            ordered_access: 0,
        }],
    };
    assert_eq!(qos, qos_round_trip(&qos));
}

#[test]
fn test_partition() {
    let qos = QosSet {
        policies: vec![QosPolicy::Partition {
            partitions: vec!["part_a".into(), "part_b".into()],
        }],
    };
    assert_eq!(qos, qos_round_trip(&qos));
}

#[test]
fn test_partition_empty() {
    let qos = QosSet {
        policies: vec![QosPolicy::Partition {
            partitions: vec![],
        }],
    };
    assert_eq!(qos, qos_round_trip(&qos));
}

#[test]
fn test_ownership() {
    let qos = QosSet {
        policies: vec![QosPolicy::Ownership { kind: 1 }],
    };
    assert_eq!(qos, qos_round_trip(&qos));
}

#[test]
fn test_writer_data_lifecycle() {
    let qos = QosSet {
        policies: vec![QosPolicy::WriterDataLifecycle {
            autodispose_unregistered_instances: 0,
        }],
    };
    assert_eq!(qos, qos_round_trip(&qos));
}

#[test]
fn test_time_based_filter() {
    let qos = QosSet {
        policies: vec![QosPolicy::TimeBasedFilter {
            minimum_separation_ms: 100,
        }],
    };
    assert_eq!(qos, qos_round_trip(&qos));
}

#[test]
fn test_multiple_policies() {
    let qos = QosSet {
        policies: vec![
            QosPolicy::Reliability {
                kind: 1,
                max_blocking_time_ms: 100,
            },
            QosPolicy::Durability { kind: 1 },
            QosPolicy::History {
                kind: 0,
                depth: 10,
            },
        ],
    };
    assert_eq!(qos, qos_round_trip(&qos));
}

#[test]
fn test_invalid_policy_id() {
    let data = [1u8, 0xFF]; // 1 policy, invalid id 0xFF
    let mut slice: &[u8] = &data;
    let err = parse_qos(&mut slice).unwrap_err();
    assert!(matches!(err, ProtocolError::InvalidQosPolicyId(0xFF)));
}

#[test]
fn test_duplicate_policy_rejected() {
    // Two Reliability policies
    let mut buf = BytesMut::new();
    buf.put_u8(2); // policy_count
    // First Reliability
    buf.put_u8(0x01);
    buf.put_u8(1); // kind=RELIABLE
    buf.put_u32_le(100);
    // Second Reliability (duplicate)
    buf.put_u8(0x01);
    buf.put_u8(0); // kind=BEST_EFFORT
    buf.put_u32_le(0);

    let bytes = buf.freeze();
    let mut slice: &[u8] = &bytes;
    let err = parse_qos(&mut slice).unwrap_err();
    assert!(matches!(err, ProtocolError::DuplicateQosPolicy(0x01)));
}

#[test]
fn test_invalid_reliability_kind() {
    let mut buf = BytesMut::new();
    buf.put_u8(1);
    buf.put_u8(0x01); // Reliability
    buf.put_u8(2); // invalid kind (must be 0 or 1)
    buf.put_u32_le(100);

    let bytes = buf.freeze();
    let mut slice: &[u8] = &bytes;
    let err = parse_qos(&mut slice).unwrap_err();
    assert!(matches!(err, ProtocolError::InvalidQosValue(_)));
}

#[test]
fn test_invalid_durability_kind() {
    let mut buf = BytesMut::new();
    buf.put_u8(1);
    buf.put_u8(0x02); // Durability
    buf.put_u8(4); // invalid (must be 0..=3)

    let bytes = buf.freeze();
    let mut slice: &[u8] = &bytes;
    assert!(matches!(
        parse_qos(&mut slice),
        Err(ProtocolError::InvalidQosValue(_))
    ));
}

#[test]
fn test_invalid_bool_field() {
    let mut buf = BytesMut::new();
    buf.put_u8(1);
    buf.put_u8(0x0C); // WriterDataLifecycle
    buf.put_u8(2); // invalid bool (must be 0 or 1)

    let bytes = buf.freeze();
    let mut slice: &[u8] = &bytes;
    assert!(matches!(
        parse_qos(&mut slice),
        Err(ProtocolError::InvalidQosValue(_))
    ));
}

#[test]
fn test_invalid_presentation_coherent_access() {
    let mut buf = BytesMut::new();
    buf.put_u8(1);
    buf.put_u8(0x09); // Presentation
    buf.put_u8(0); // access_scope OK
    buf.put_u8(5); // coherent_access invalid
    buf.put_u8(0); // ordered_access OK

    let bytes = buf.freeze();
    let mut slice: &[u8] = &bytes;
    assert!(matches!(
        parse_qos(&mut slice),
        Err(ProtocolError::InvalidQosValue(_))
    ));
}

#[test]
fn test_normalized_eq_explicit_defaults_vs_omitted() {
    let explicit = QosSet {
        policies: vec![QosPolicy::Reliability {
            kind: 1,
            max_blocking_time_ms: 100,
        }],
    };
    let implicit = QosSet::default();
    assert!(explicit.normalized_eq(&implicit));
}

#[test]
fn test_normalized_eq_different() {
    let a = QosSet {
        policies: vec![QosPolicy::Durability { kind: 1 }],
    };
    let b = QosSet {
        policies: vec![QosPolicy::Durability { kind: 0 }],
    };
    assert!(!a.normalized_eq(&b));
}

#[test]
fn test_normalized_eq_order_independent() {
    let a = QosSet {
        policies: vec![
            QosPolicy::Durability { kind: 1 },
            QosPolicy::History {
                kind: 0,
                depth: 10,
            },
        ],
    };
    let b = QosSet {
        policies: vec![
            QosPolicy::History {
                kind: 0,
                depth: 10,
            },
            QosPolicy::Durability { kind: 1 },
        ],
    };
    assert!(a.normalized_eq(&b));
}

#[test]
fn test_normalize_removes_defaults() {
    let qos = QosSet {
        policies: vec![
            QosPolicy::Reliability {
                kind: 1,
                max_blocking_time_ms: 100,
            },
            QosPolicy::Durability { kind: 0 },
            QosPolicy::History { kind: 0, depth: 1 },
            QosPolicy::Ownership { kind: 0 },
        ],
    };
    let normalized = qos.normalize();
    assert!(normalized.policies.is_empty());
}

#[test]
fn test_normalize_keeps_non_defaults() {
    let qos = QosSet {
        policies: vec![
            QosPolicy::Reliability {
                kind: 0, // BEST_EFFORT (non-default)
                max_blocking_time_ms: 100,
            },
            QosPolicy::Durability { kind: 1 }, // TRANSIENT_LOCAL (non-default)
        ],
    };
    let normalized = qos.normalize();
    assert_eq!(normalized.policies.len(), 2);
}

fn durability(kind: u8) -> QosPolicy {
    QosPolicy::Durability { kind }
}

fn history() -> QosPolicy {
    QosPolicy::History { kind: 0, depth: 10 }
}

#[test]
fn normalized_equality_counts_policies() {
    let twice = QosSet { policies: vec![durability(1), durability(1)] };
    let mixed = QosSet { policies: vec![durability(1), history()] };
    assert!(!twice.normalized_eq(&mixed));
    assert!(!mixed.normalized_eq(&twice));
    assert!(twice.normalized_eq(&twice));
    let once = QosSet { policies: vec![durability(1)] };
    assert!(!twice.normalized_eq(&once));
    let padded = QosSet { policies: vec![durability(0), durability(1)] };
    assert!(padded.normalized_eq(&once));
    assert!(!padded.same_policies(&once));
    assert!(mixed.same_policies(&QosSet { policies: vec![history(), durability(1)] }));
}
