//! The registry of readers, and what is forwarded of a sample.
use std::collections::HashSet;

use cyclone_dds_ws_bridge::dds::reader::{
    instance_state_from, TakenSample, Taking, MAX_SAMPLES,
};
use cyclone_dds_ws_bridge::dds::{DdsError, DdsReader, InstanceState, ReaderRegistry, Topic};
use cyclone_dds_ws_bridge::protocol::KeyDescriptors;
use cyclone_dds_ws_bridge::qos::{QosPolicy, QosSet};

fn make_topic(name: &str, typename: &str) -> Topic {
    Topic {
        handle: 0,
        topic_name: name.to_string(),
        typename: typename.to_string(),
        key_descriptors: KeyDescriptors { keys: vec![] },
    }
}

fn make_reader(id: u64, topic: Topic, qos: QosSet) -> DdsReader {
    DdsReader {
        reader_id: id,
        handle: 0,
        topic,
        qos_normalized: qos.normalize(),
        subscribers: HashSet::new(),
    }
}

fn durable(kind: u8) -> QosSet {
    QosSet { policies: vec![QosPolicy::Durability { kind }] }
}

#[test]
fn test_ref_count_is_subscribers_len() {
    let mut reader = make_reader(1, make_topic("t", "T"), QosSet::default());
    assert_eq!(reader.ref_count(), 0);
    reader.subscribers.insert(10);
    assert_eq!(reader.ref_count(), 1);
    reader.subscribers.insert(20);
    assert_eq!(reader.ref_count(), 2);
    // Same session inserted again: no change
    reader.subscribers.insert(20);
    assert_eq!(reader.ref_count(), 2);
}

#[test]
fn test_unsubscribe_without_qos() {
    let mut reg = ReaderRegistry::new();
    let topic = make_topic("t", "T");
    assert_eq!(reg.subscribe(&topic, &QosSet::default(), 42, 0).unwrap(), 1);

    // Unsubscribe with only topic+type (no QoS)
    assert!(reg.unsubscribe("t", "T", 42));
    // Reader should be removed (last subscriber)
    assert!(reg.all_readers().is_empty());
    assert_eq!(reg.key_count(), 0);
}

#[test]
fn test_unsubscribe_not_found() {
    let mut reg = ReaderRegistry::new();
    assert!(!reg.unsubscribe("t", "T", 42));
}

#[test]
fn test_shared_reader_not_removed_until_last() {
    let mut reg = ReaderRegistry::new();
    let topic = make_topic("t", "T");
    assert_eq!(reg.subscribe(&topic, &QosSet::default(), 10, 0).unwrap(), 1);
    assert_eq!(reg.subscribe(&topic, &QosSet::default(), 20, 0).unwrap(), 1);

    // First unsubscribe: reader still alive
    assert!(reg.unsubscribe("t", "T", 10));
    assert_eq!(reg.all_readers().len(), 1);

    // Second unsubscribe: reader removed
    assert!(reg.unsubscribe("t", "T", 20));
    assert!(reg.all_readers().is_empty());
}

#[test]
fn reader_test_remove_session() {
    let mut reg = ReaderRegistry::new();
    let topic = make_topic("t", "T");
    assert_eq!(reg.subscribe(&topic, &QosSet::default(), 42, 0).unwrap(), 1);

    reg.remove_session(42);
    assert!(reg.all_readers().is_empty());
    assert_eq!(reg.subscription_count(), 0);
}

#[test]
fn readers_are_shared_by_topic_type_and_qos() {
    let mut reg = ReaderRegistry::new();
    let topic = make_topic("t", "T");
    let plain = reg.subscribe(&topic, &QosSet::default(), 1, 10).unwrap();
    let explicit = QosSet { policies: vec![QosPolicy::History { kind: 0, depth: 1 }] };
    assert_eq!(reg.shared_reader("t", "T", &explicit), Some(plain));
    assert_eq!(reg.subscribe(&topic, &explicit, 2, 11).unwrap(), plain);
    assert_eq!(reg.shared_reader("t", "T", &durable(1)), None);
    let other = reg.subscribe(&topic, &durable(1), 3, 12).unwrap();
    assert_ne!(other, plain);
    assert_eq!(reg.get(plain).unwrap().handle, 10);
    assert_eq!(reg.get(other).unwrap().handle, 12);
    assert_eq!(reg.get_subscribers(plain).unwrap().len(), 2);
    assert!(reg.get_subscribers(plain).unwrap().contains(&2));
    assert!(reg.get_subscribers(99).is_none());
    let mut ids = reg.reader_ids();
    ids.sort();
    assert_eq!(ids, vec![1, 2]);
}

#[test]
fn readers_are_shared_in_whatever_order_the_policies_come() {
    let mut reg = ReaderRegistry::new();
    let topic = make_topic("t", "T");
    let d = || QosPolicy::Durability { kind: 1 };
    let h = || QosPolicy::History { kind: 0, depth: 10 };
    let first = QosSet { policies: vec![d(), h()] };
    let second = QosSet { policies: vec![h(), QosPolicy::Ownership { kind: 0 }, d()] };
    assert!(first.normalized_eq(&second));
    let id = reg.subscribe(&topic, &first, 1, 10).unwrap();
    reg.subscribe(&make_topic("u", "T"), &first, 1, 11).unwrap();
    assert_eq!(reg.shared_reader("t", "T", &second), Some(id));
    assert_eq!(reg.subscribe(&topic, &second, 2, 12).unwrap(), id);
    assert_eq!(reg.key_count(), 2);
    assert_eq!(reg.get(id).unwrap().ref_count(), 2);
    let fewer = QosSet { policies: vec![d()] };
    assert_ne!(reg.subscribe(&topic, &fewer, 3, 13).unwrap(), id);
}

#[test]
fn a_reader_that_dds_refuses_leaves_nothing() {
    let mut reg = ReaderRegistry::new();
    let r = reg.subscribe(&make_topic("t", "T"), &QosSet::default(), 1, -5);
    assert!(matches!(r, Err(DdsError::CreateReader(-5))));
    assert_eq!(reg.key_count(), 0);
    assert_eq!(reg.subscription_count(), 0);
    assert!(reg.reader_ids().is_empty());
}

#[test]
fn a_session_that_ends_leaves_every_reader() {
    let mut reg = ReaderRegistry::new();
    reg.subscribe(&make_topic("a", "T"), &QosSet::default(), 1, 10).unwrap();
    reg.subscribe(&make_topic("b", "T"), &QosSet::default(), 1, 11).unwrap();
    reg.subscribe(&make_topic("b", "T"), &QosSet::default(), 2, 12).unwrap();
    reg.remove_session(1);
    assert_eq!(reg.reader_ids(), vec![2]);
    assert_eq!(reg.get(2).unwrap().ref_count(), 1);
    assert_eq!(reg.take_released(), vec![10]);
    assert!(reg.unsubscribe("b", "T", 2));
    assert_eq!(reg.take_released(), vec![11]);
    assert!(reg.take_released().is_empty());
}

#[test]
fn a_second_subscription_with_other_qos_is_forgotten_with_the_session() {
    let mut reg = ReaderRegistry::new();
    let topic = make_topic("t", "T");
    reg.subscribe(&topic, &QosSet::default(), 1, 10).unwrap();
    reg.subscribe(&topic, &durable(1), 1, 11).unwrap();
    assert_eq!(reg.subscription_count(), 1);
    reg.remove_session(1);
    assert!(reg.reader_ids().is_empty());
    assert_eq!(reg.key_count(), 0);
}

#[test]
fn instance_states_follow_the_dds_numbers() {
    assert_eq!(instance_state_from(1), InstanceState::Alive);
    assert_eq!(instance_state_from(2), InstanceState::Disposed);
    assert_eq!(instance_state_from(4), InstanceState::NoWriters);
    assert_eq!(instance_state_from(0), InstanceState::Alive);
}

#[test]
fn samples_without_data_are_forwarded_only_with_a_change_of_state() {
    let reader = make_reader(1, make_topic("t", "T"), QosSet::default());
    let sample = |instance_state: u32, valid_data: bool, data: Vec<u8>| TakenSample {
        instance_state,
        valid_data,
        source_timestamp: -7,
        data,
    };
    let taken = vec![
        sample(1, true, vec![1]),
        sample(1, false, vec![2]),
        sample(2, false, vec![3]),
        sample(4, false, vec![4]),
        sample(2, true, vec![5]),
    ];
    let got = reader.take_samples(&taken);
    let states: Vec<InstanceState> = got.iter().map(|s| s.instance_state).collect();
    assert_eq!(
        states,
        vec![
            InstanceState::Alive,
            InstanceState::Disposed,
            InstanceState::NoWriters,
            InstanceState::Disposed
        ]
    );
    assert!(got.iter().all(|s| s.topic_name == "t" && s.source_timestamp == -7));
    assert_eq!(got[0].data, vec![1]);
    assert_eq!(got[1].data, vec![3]);
}

#[test]
fn samples_are_taken_up_to_the_maximum() {
    let mut taking = Taking::new(2);
    assert!(taking.goes_on());
    assert!(taking.returned(1));
    assert!(taking.goes_on());
    assert!(taking.returned(1));
    assert!(!taking.goes_on());
    assert!(!taking.returned(1));
    assert!(!Taking::new(0).goes_on());
    let mut full = Taking::new(MAX_SAMPLES);
    let mut n: usize = 0;
    while full.goes_on() {
        assert!(full.returned(1));
        n += 1;
    }
    assert_eq!(n, 256);
}

#[test]
fn taking_stops_at_the_first_code_that_is_not_positive() {
    for rc in [0, -1, i32::MIN] {
        let mut taking = Taking::new(256);
        assert!(taking.returned(1));
        assert!(!taking.returned(rc));
        assert!(!taking.goes_on());
        assert!(!taking.returned(1));
    }
}
