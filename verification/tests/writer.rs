//! The registry of writers.
use cyclone_dds_ws_bridge::dds::{DdsError, DdsWriter, Topic, WriteOp, WriterRegistry};
use cyclone_dds_ws_bridge::protocol::KeyDescriptors;
use cyclone_dds_ws_bridge::qos::{QosPolicy, QosSet};

fn make_topic(name: &str, typename: &str) -> Topic {
    Topic {
        handle: 0,
        topic_name: name.to_string(),
        typename: typename.to_string(),
        key_descriptors: KeyDescriptors { keys: vec![] },
    }
}

fn make_writer(id: u32, topic: Topic, qos: QosSet) -> DdsWriter {
    DdsWriter {
        handle: 0,
        writer_id: id,
        topic,
        qos_normalized: qos.normalize(),
    }
}

#[test]
fn test_register_and_get() {
    let mut reg = WriterRegistry::new();
    let writer = make_writer(100, make_topic("t", "T"), QosSet::default());
    reg.register(writer, 1);
    assert!(reg.get(100, 1).is_ok());
}

#[test]
fn test_ownership_check() {
    let mut reg = WriterRegistry::new();
    let writer = make_writer(100, make_topic("t", "T"), QosSet::default());
    reg.register(writer, 1);
    assert!(matches!(reg.get(100, 2), Err(DdsError::WriterOwnership(100))));
}

#[test]
fn test_not_found() {
    let reg = WriterRegistry::new();
    assert!(matches!(reg.get(999, 1), Err(DdsError::WriterNotFound(999))));
}

#[test]
fn test_delete() {
    let mut reg = WriterRegistry::new();
    let writer = make_writer(100, make_topic("t", "T"), QosSet::default());
    reg.register(writer, 1);
    assert!(reg.delete(100, 1).is_ok());
    assert!(matches!(reg.get(100, 1), Err(DdsError::WriterNotFound(100))));
}

#[test]
fn test_delete_ownership_check() {
    let mut reg = WriterRegistry::new();
    let writer = make_writer(100, make_topic("t", "T"), QosSet::default());
    reg.register(writer, 1);
    assert!(matches!(reg.delete(100, 2), Err(DdsError::WriterOwnership(100))));
}

#[test]
fn writer_test_remove_session() {
    let mut reg = WriterRegistry::new();
    let w1 = make_writer(100, make_topic("t1", "T"), QosSet::default());
    let w2 = make_writer(101, make_topic("t2", "T"), QosSet::default());
    reg.register(w1, 1);
    reg.register(w2, 1);
    reg.remove_session(1);
    assert!(matches!(reg.get(100, 1), Err(DdsError::WriterNotFound(100))));
    assert!(matches!(reg.get(101, 1), Err(DdsError::WriterNotFound(101))));
}

#[test]
fn test_find_by_topic_matches_qos() {
    let mut reg = WriterRegistry::new();
    let qos_a = QosSet {
        policies: vec![QosPolicy::Durability { kind: 1 }],
    };
    let qos_b = QosSet {
        policies: vec![QosPolicy::Durability { kind: 2 }],
    };
    let w = make_writer(100, make_topic("t", "T"), qos_a.clone());
    reg.register(w, 1);

    // Same QoS => found
    assert!(reg.find_by_topic(1, "t", "T", &qos_a).is_some());
    // Different QoS => not found
    assert!(reg.find_by_topic(1, "t", "T", &qos_b).is_none());
}

#[test]
fn test_find_by_topic_wrong_session() {
    let mut reg = WriterRegistry::new();
    let w = make_writer(100, make_topic("t", "T"), QosSet::default());
    reg.register(w, 1);
    assert!(reg.find_by_topic(2, "t", "T", &QosSet::default()).is_none());
}

#[test]
fn writers_are_counted() {
    let mut reg = WriterRegistry::new();
    assert_eq!(reg.count(), 0);
    reg.register(make_writer(100, make_topic("t", "T"), QosSet::default()), 1);
    reg.register(make_writer(101, make_topic("t", "T"), QosSet::default()), 2);
    assert_eq!(reg.count(), 2);
    reg.delete(100, 1).unwrap();
    assert_eq!(reg.count(), 1);
}

#[test]
fn a_writer_is_found_by_its_id_whoever_owns_it() {
    let mut reg = WriterRegistry::new();
    assert_eq!(reg.register(make_writer(7, make_topic("t", "T"), QosSet::default()), 1), 7);
    assert_eq!(reg.find_by_id(7).unwrap().topic.topic_name, "t");
    assert!(reg.find_by_id(8).is_none());
}

#[test]
fn the_first_matching_writer_of_the_session_is_found() {
    let mut reg = WriterRegistry::new();
    reg.register(make_writer(5, make_topic("t", "T"), QosSet::default()), 1);
    reg.register(make_writer(6, make_topic("t", "T"), QosSet::default()), 1);
    reg.register(make_writer(4, make_topic("t", "T"), QosSet::default()), 2);
    assert_eq!(reg.find_by_topic(1, "t", "T", &QosSet::default()).unwrap().writer_id, 5);
    assert_eq!(reg.find_by_topic(2, "t", "T", &QosSet::default()).unwrap().writer_id, 4);
    assert!(reg.find_by_topic(1, "u", "T", &QosSet::default()).is_none());
    assert!(reg.find_by_topic(1, "t", "U", &QosSet::default()).is_none());
    reg.delete(5, 1).unwrap();
    assert_eq!(reg.find_by_topic(1, "t", "T", &QosSet::default()).unwrap().writer_id, 6);
}

#[test]
fn a_default_policy_does_not_hinder_reuse() {
    let mut reg = WriterRegistry::new();
    reg.register(make_writer(5, make_topic("t", "T"), QosSet::default()), 1);
    let explicit = QosSet {
        policies: vec![QosPolicy::Reliability { kind: 1, max_blocking_time_ms: 100 }],
    };
    assert!(reg.find_by_topic(1, "t", "T", &explicit).is_some());
}

#[test]
fn a_refused_deletion_leaves_the_writer() {
    let mut reg = WriterRegistry::new();
    reg.register(make_writer(5, make_topic("t", "T"), QosSet::default()), 1);
    assert!(matches!(reg.delete(5, 2), Err(DdsError::WriterOwnership(5))));
    assert!(matches!(reg.delete(6, 1), Err(DdsError::WriterNotFound(6))));
    assert!(reg.get(5, 1).is_ok());
    assert!(reg.take_released().is_empty());
}

#[test]
fn handles_of_writers_that_left_are_handed_out_once() {
    let mut reg = WriterRegistry::new();
    let mut ids: u32 = 1;
    for handle in [10, 11, 12] {
        let w = DdsWriter::new(handle, &make_topic("t", "T"), QosSet::default(), &mut ids);
        reg.register(w.unwrap(), 1);
    }
    assert_eq!(ids, 4);
    reg.delete(2, 1).unwrap();
    assert_eq!(reg.take_released(), vec![11]);
    reg.remove_session(1);
    assert_eq!(reg.take_released(), vec![10, 12]);
    assert!(reg.take_released().is_empty());
    assert_eq!(reg.count(), 0);
}

#[test]
fn a_writer_that_dds_refuses_uses_no_id() {
    let mut ids: u32 = 1;
    let r = DdsWriter::new(-3, &make_topic("t", "T"), QosSet::default(), &mut ids);
    assert!(matches!(r, Err(DdsError::CreateWriter(-3))));
    assert_eq!(ids, 1);
}

#[test]
fn operations_report_their_own_error() {
    assert!(WriteOp::Write.outcome(0).is_ok());
    assert!(WriteOp::Write.outcome(4).is_ok());
    assert!(matches!(WriteOp::Write.outcome(-1), Err(DdsError::Write(-1))));
    assert!(matches!(WriteOp::Dispose.outcome(-2), Err(DdsError::Dispose(-2))));
    assert!(matches!(WriteOp::WriteDispose.outcome(-3), Err(DdsError::WriteDispose(-3))));
}
