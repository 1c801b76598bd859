//! Readers, and which sessions are subscribed to which of them.
use std::collections::{HashMap, HashSet};

use vstd::multiset::Multiset;
use vstd::prelude::*;
use vstd::slice::slice_to_vec;
use vstd::std_specs::iter::IteratorSpec;
use vstd::string::*;

use crate::assoc::{only, AssocList, MapKey};
use crate::dds::error::{DdsError, DdsErrorView};
use crate::dds::participant::{Topic, TopicEntityView};
use crate::protocol::error::result_view;
use crate::qos::policy::{normal_form, QosPolicyView, QosSet};

verus! {

broadcast use vstd::std_specs::hash::group_hash_axioms;

pub const DDS_IST_ALIVE: u32 = 1;

pub const DDS_IST_NOT_ALIVE_DISPOSED: u32 = 2;

pub const DDS_IST_NOT_ALIVE_NO_WRITERS: u32 = 4;

// ---------------------------------------------------------------------------
// Samples
// ---------------------------------------------------------------------------

/// Data received from DDS, ready to be forwarded to subscribed sessions.
#[derive(Debug)]
pub struct ReceivedSample {
    pub topic_name: String,
    pub instance_state: InstanceState,
    /// DDS source timestamp in nanoseconds. May be negative (pre-epoch) in rare cases.
    pub source_timestamp: i64,
    pub data: Vec<u8>,
}

/// The mathematical value of a [`ReceivedSample`].
#[verifier::ext_equal]
pub struct ReceivedSampleView {
    pub topic_name: Seq<char>,
    pub instance_state: InstanceState,
    pub source_timestamp: i64,
    pub data: Seq<u8>,
}

impl View for ReceivedSample {
    type V = ReceivedSampleView;

    open spec fn view(&self) -> ReceivedSampleView {
        ReceivedSampleView {
            topic_name: self.topic_name@,
            instance_state: self.instance_state,
            source_timestamp: self.source_timestamp,
            data: self.data@,
        }
    }
}

#[derive(Debug, Clone, Copy, PartialEq, Eq, Structural)]
pub enum InstanceState {
    Alive,
    Disposed,
    NoWriters,
}

/// A sample as it was taken from a DDS reader.
#[derive(Debug)]
pub struct TakenSample {
    /// The state of the instance, in the numbers of the DDS interface.
    pub instance_state: u32,
    pub valid_data: bool,
    pub source_timestamp: i64,
    pub data: Vec<u8>,
}

/// What a state in the numbers of the DDS interface means. An unknown number is
/// taken as alive.
pub open spec fn instance_state_of(state: u32) -> InstanceState {
    if state == DDS_IST_NOT_ALIVE_DISPOSED {
        InstanceState::Disposed
    } else if state == DDS_IST_NOT_ALIVE_NO_WRITERS {
        InstanceState::NoWriters
    } else {
        InstanceState::Alive
    }
}

/// What is forwarded of a sample: nothing where it only says that an instance
/// is alive.
pub open spec fn forwarded(topic_name: Seq<char>, taken: TakenSample) -> Option<
    ReceivedSampleView,
> {
    let instance_state = instance_state_of(taken.instance_state);
    if taken.valid_data || instance_state != InstanceState::Alive {
        Some(
            ReceivedSampleView {
                topic_name,
                instance_state,
                source_timestamp: taken.source_timestamp,
                data: taken.data@,
            },
        )
    } else {
        None
    }
}

/// What is forwarded of each sample of a topic.
pub open spec fn forwarding(topic_name: Seq<char>) -> spec_fn(TakenSample) -> Option<
    ReceivedSampleView,
> {
    |taken: TakenSample| forwarded(topic_name, taken)
}

/// The values of a list of samples.
pub open spec fn sample_views(samples: Seq<ReceivedSample>) -> Seq<ReceivedSampleView> {
    samples.map_values(|s: ReceivedSample| s@)
}

/// What a state in the numbers of the DDS interface means.
pub fn instance_state_from(state: u32) -> (r: InstanceState)
    ensures
        r == instance_state_of(state),
{
    if state == DDS_IST_NOT_ALIVE_DISPOSED {
        InstanceState::Disposed
    } else if state == DDS_IST_NOT_ALIVE_NO_WRITERS {
        InstanceState::NoWriters
    } else {
        InstanceState::Alive
    }
}

// ---------------------------------------------------------------------------
// Readers
// ---------------------------------------------------------------------------

/// A DDS DataReader.
#[derive(Debug)]
pub struct DdsReader {
    pub reader_id: u64,
    pub handle: i32,
    pub topic: Topic,
    pub qos_normalized: QosSet,
    /// Sessions subscribed to this reader. The reader is deleted when this is empty.
    pub subscribers: HashSet<u64>,
}

/// The mathematical value of a [`DdsReader`].
#[verifier::ext_equal]
pub struct ReaderView {
    pub reader_id: u64,
    pub handle: i32,
    pub topic: TopicEntityView,
    pub qos_normalized: Seq<QosPolicyView>,
    pub subscribers: Set<u64>,
}

impl View for DdsReader {
    type V = ReaderView;

    open spec fn view(&self) -> ReaderView {
        ReaderView {
            reader_id: self.reader_id,
            handle: self.handle,
            topic: self.topic@,
            qos_normalized: self.qos_normalized@,
            subscribers: self.subscribers@,
        }
    }
}

impl ReaderView {
    /// The reader with one more subscriber.
    pub open spec fn joined(self, session_id: u64) -> ReaderView {
        ReaderView { subscribers: self.subscribers.insert(session_id), ..self }
    }

    /// The reader without a subscriber.
    pub open spec fn left(self, session_id: u64) -> ReaderView {
        ReaderView { subscribers: self.subscribers.remove(session_id), ..self }
    }
}

impl DdsReader {
    /// The reader with the handle that its creation gave; a negative one is an
    /// error code, and then no ID is taken.
    pub fn new(
        handle: i32,
        topic: &Topic,
        qos_normalized: QosSet,
        ids: &mut u64,
    ) -> (r: Result<Self, DdsError>)
        ensures
            match r {
                Ok(reader) => {
                    &&& handle >= 0
                    &&& reader@ == (ReaderView {
                        reader_id: *old(ids),
                        handle,
                        topic: topic@,
                        qos_normalized: qos_normalized@,
                        subscribers: Set::empty(),
                    })
                    &&& *final(ids) == next_id(*old(ids))
                },
                Err(e) => handle < 0 && e@ == DdsErrorView::CreateReader(handle) && *final(ids)
                    == *old(ids),
            },
    {
        if handle < 0 {
            return Err(DdsError::CreateReader(handle));
        }
        let reader_id: u64 = *ids;
        *ids = reader_id.wrapping_add(1);
        Ok(
            DdsReader {
                reader_id,
                handle,
                topic: topic.clone(),
                qos_normalized,
                subscribers: HashSet::new(),
            },
        )
    }

    /// Number of sessions currently subscribed to this reader.
    pub fn ref_count(&self) -> (n: usize)
        ensures
            n == self@.subscribers.len(),
    {
        self.subscribers.len()
    }

    /// What is forwarded of the samples that were taken from this reader, in
    /// their order.
    pub fn take_samples(&self, taken: &Vec<TakenSample>) -> (samples: Vec<ReceivedSample>)
        ensures
            sample_views(samples@) == taken@.filter_map(forwarding(self@.topic.topic_name)),
    {
        let ghost f = forwarding(self@.topic.topic_name);
        let mut samples: Vec<ReceivedSample> = Vec::new();
        let mut i: usize = 0;
        assert(taken@.take(0) =~= Seq::<TakenSample>::empty());
        assert(sample_views(samples@) =~= taken@.take(0).filter_map(f)) by {
            reveal(Seq::filter_map);
        }
        while i < taken.len()
            invariant
                i <= taken@.len(),
                f == forwarding(self@.topic.topic_name),
                sample_views(samples@) == taken@.take(i as int).filter_map(f),
            decreases taken@.len() - i,
        {
            let sample: &TakenSample = &taken[i];
            let ghost before = samples@;
            let instance_state = instance_state_from(sample.instance_state);
            if sample.valid_data || instance_state != InstanceState::Alive {
                let received = ReceivedSample {
                    topic_name: self.topic.topic_name.clone(),
                    instance_state,
                    source_timestamp: sample.source_timestamp,
                    data: slice_to_vec(sample.data.as_slice()),
                };
                samples.push(received);
                assert(sample_views(samples@) =~= sample_views(before) + seq![received@]);
            }
            i = i + 1;
            proof {
                reveal(Seq::filter_map);
                let now = taken@.take(i as int);
                assert(now.drop_last() =~= taken@.take(i - 1));
                assert(now.last() == *sample);
            }
        }
        assert(taken@.take(i as int) =~= taken@);
        samples
    }
}

/// The ID after `id`.
pub open spec fn next_id(id: u64) -> u64 {
    if id == u64::MAX {
        0
    } else {
        (id + 1) as u64
    }
}

// ---------------------------------------------------------------------------
// Taking samples
// ---------------------------------------------------------------------------

/// How many samples are taken from a reader at most, each time its turn comes.
pub const MAX_SAMPLES: usize = 256;

/// How far the taking of samples from a reader has come. Samples are taken one
/// by one, until there are as many as asked for or a take brings none.
#[derive(Debug)]
pub struct Taking {
    taken: usize,
    max: usize,
    stopped: bool,
}

/// The mathematical value of a [`Taking`].
#[verifier::ext_equal]
pub struct TakingView {
    pub taken: nat,
    pub max: nat,
    pub stopped: bool,
}

impl View for Taking {
    type V = TakingView;

    closed spec fn view(&self) -> TakingView {
        TakingView { taken: self.taken as nat, max: self.max as nat, stopped: self.stopped }
    }
}

impl TakingView {
    /// The start: nothing is taken.
    pub open spec fn start(max: nat) -> TakingView {
        TakingView { taken: 0, max, stopped: false }
    }

    /// Whether one more sample is to be taken.
    pub open spec fn goes_on(self) -> bool {
        !self.stopped && self.taken < self.max
    }

    /// Whether a take with the given return code has brought a sample, and how
    /// far the taking has come then. A code that is not positive, be it an error
    /// or the end of what is there, stops it.
    pub open spec fn returned(self, rc: i32) -> (bool, TakingView) {
        if !self.goes_on() {
            (false, self)
        } else if rc > 0 {
            (true, TakingView { taken: self.taken + 1, ..self })
        } else {
            (false, TakingView { stopped: true, ..self })
        }
    }

    /// How far the taking has come after a number of takes.
    pub open spec fn returned_all(self, codes: Seq<i32>) -> TakingView
        decreases codes.len(),
    {
        if codes.len() == 0 {
            self
        } else {
            self.returned_all(codes.drop_last()).returned(codes.last()).1
        }
    }
}

impl Taking {
    /// Nothing is taken yet, and at most `max` samples will be.
    pub fn new(max: usize) -> (taking: Self)
        ensures
            taking@ == TakingView::start(max as nat),
    {
        Taking { taken: 0, max, stopped: false }
    }

    /// Whether one more sample is to be taken.
    pub fn goes_on(&self) -> (more: bool)
        ensures
            more == self@.goes_on(),
    {
        !self.stopped && self.taken < self.max
    }

    /// Takes note of the return code of a take. Returns whether it has brought
    /// a sample.
    pub fn returned(&mut self, rc: i32) -> (brought: bool)
        ensures
            (brought, final(self)@) == old(self)@.returned(rc),
    {
        if !self.goes_on() {
            false
        } else if rc > 0 {
            self.taken = self.taken + 1;
            true
        } else {
            self.stopped = true;
            false
        }
    }
}

/// How many codes are positive before the first that is not.
pub open spec fn positive_first(codes: Seq<i32>) -> nat
    decreases codes.len(),
{
    if codes.len() == 0 || codes[0] <= 0 {
        0
    } else {
        1 + positive_first(codes.drop_first())
    }
}

proof fn lemma_positive_first(codes: Seq<i32>)
    ensures
        positive_first(codes) <= codes.len(),
        forall|i: int| 0 <= i < positive_first(codes) ==> #[trigger] codes[i] > 0,
        positive_first(codes) < codes.len() ==> codes[positive_first(codes) as int] <= 0,
    decreases codes.len(),
{
    if codes.len() > 0 && codes[0] > 0 {
        let rest = codes.drop_first();
        lemma_positive_first(rest);
        assert forall|i: int| 0 <= i < positive_first(codes) implies #[trigger] codes[i] > 0 by {
            if i > 0 {
                assert(rest[i - 1] == codes[i]);
            }
        }
        if positive_first(codes) < codes.len() {
            assert(rest[positive_first(rest) as int] == codes[positive_first(codes) as int]);
        }
    }
}

/// Whatever the takes return, as many samples are taken as come before the first
/// code that is not positive, and no more than `max`. The taking goes on as long
/// as neither has been reached.
pub proof fn law_samples_taken(max: nat, codes: Seq<i32>)
    ensures
        ({
            let t = TakingView::start(max).returned_all(codes);
            let first = positive_first(codes);
            &&& t.max == max
            &&& t.taken == if first <= max {
                first
            } else {
                max
            }
            &&& t.goes_on() <==> first == codes.len() && codes.len() < max
        }),
    decreases codes.len(),
{
    lemma_positive_first(codes);
    if codes.len() > 0 {
        let before = codes.drop_last();
        law_samples_taken(max, before);
        lemma_positive_first(before);
        let first = positive_first(codes);
        let first_before = positive_first(before);
        if first_before < before.len() {
            assert(before[first_before as int] == codes[first_before as int]);
            if first < first_before {
                assert(before[first as int] == codes[first as int]);
            }
            assert(first == first_before);
        } else {
            if first < before.len() {
                assert(before[first as int] == codes[first as int]);
            }
        }
    }
}

// ---------------------------------------------------------------------------
// Keys
// ---------------------------------------------------------------------------

/// Key for sharing readers: (topic_name, typename, normalized_qos).
#[derive(Debug)]
pub struct ReaderKey {
    topic_name: String,
    typename: String,
    // QoS in normalized form; the order of the policies does not count
    qos: QosSet,
}

/// The mathematical value of a [`ReaderKey`]: topic, type and the policies of
/// the normal form, without an order.
pub type ReaderKeyView = (Seq<char>, Seq<char>, Multiset<QosPolicyView>);

impl View for ReaderKey {
    type V = ReaderKeyView;

    closed spec fn view(&self) -> ReaderKeyView {
        (self.topic_name@, self.typename@, self.qos@.to_multiset())
    }
}

impl MapKey for ReaderKey {
    fn same_key_as(&self, other: &Self) -> (same: bool) {
        self.topic_name == other.topic_name && self.typename == other.typename
            && self.qos.same_policies(&other.qos)
    }
}

/// The key under which a reader is shared.
pub open spec fn reader_key(
    topic_name: Seq<char>,
    typename: Seq<char>,
    qos: Seq<QosPolicyView>,
) -> ReaderKeyView {
    (topic_name, typename, normal_form(qos).to_multiset())
}

impl ReaderKey {
    /// The key under which a reader is shared.
    pub fn new(topic_name: &str, typename: &str, qos: &QosSet) -> (key: Self)
        ensures
            key@ == reader_key(topic_name@, typename@, qos@),
    {
        ReaderKey {
            topic_name: topic_name.to_owned(),
            typename: typename.to_owned(),
            qos: qos.normalize(),
        }
    }
}

/// A subscription of a session: by topic and type, since the end of a
/// subscription names no QoS.
#[derive(Debug)]
pub struct SubscriptionKey {
    session_id: u64,
    topic_name: String,
    typename: String,
}

impl View for SubscriptionKey {
    type V = (u64, Seq<char>, Seq<char>);

    closed spec fn view(&self) -> (u64, Seq<char>, Seq<char>) {
        (self.session_id, self.topic_name@, self.typename@)
    }
}

impl MapKey for SubscriptionKey {
    fn same_key_as(&self, other: &Self) -> (same: bool) {
        self.session_id == other.session_id && self.topic_name == other.topic_name && self.typename
            == other.typename
    }
}

impl SubscriptionKey {
    fn new(session_id: u64, topic_name: &str, typename: &str) -> (key: Self)
        ensures
            key@ == (session_id, topic_name@, typename@),
    {
        SubscriptionKey {
            session_id,
            topic_name: topic_name.to_owned(),
            typename: typename.to_owned(),
        }
    }
}

// ---------------------------------------------------------------------------
// The registry
// ---------------------------------------------------------------------------

/// Registry of readers, shared by (topic_name, typename, normalized_qos).
/// Reference-counted via `subscribers.len()`: the DDS reader is deleted when
/// the last subscriber leaves.
pub struct ReaderRegistry {
    /// reader_id -> DdsReader
    readers: HashMap<u64, DdsReader>,
    /// ReaderKey -> reader_id (for sharing)
    key_to_reader: AssocList<ReaderKey, u64>,
    /// (session_id, topic_name, typename) -> reader_id
    /// Allows unsubscribe without QoS (the protocol only sends topic+type).
    session_subscriptions: AssocList<SubscriptionKey, u64>,
    /// The ID of the next reader.
    next_reader_id: u64,
    /// The handles of readers that have left the registry and are still to be
    /// deleted.
    released: Vec<i32>,
}

/// The mathematical value of a [`ReaderRegistry`].
#[verifier::ext_equal]
pub struct ReaderRegistryView {
    pub readers: Map<u64, ReaderView>,
    pub keys: Map<ReaderKeyView, u64>,
    pub subscriptions: Map<(u64, Seq<char>, Seq<char>), u64>,
    pub next_reader_id: u64,
    pub released: Seq<i32>,
}

impl View for ReaderRegistry {
    type V = ReaderRegistryView;

    closed spec fn view(&self) -> ReaderRegistryView {
        ReaderRegistryView {
            readers: self.readers@.map_values(|r: DdsReader| r@),
            keys: self.key_to_reader@,
            subscriptions: self.session_subscriptions@,
            next_reader_id: self.next_reader_id,
            released: self.released@,
        }
    }
}

/// Accepts every reader but one.
pub open spec fn not_reader<A>(reader_id: u64) -> spec_fn(A, u64) -> bool {
    |k: A, id: u64| id != reader_id
}

/// Accepts every reader that is not listed.
spec fn not_readers<A>(gone: Seq<u64>) -> spec_fn(A, u64) -> bool {
    |k: A, id: u64| !gone.contains(id)
}

/// What is in the first elements of a list, and in one more.
pub proof fn lemma_take_push(ids: Seq<u64>, i: int)
    requires
        0 <= i < ids.len(),
    ensures
        ids.take(i + 1) == ids.take(i).push(ids[i]),
        forall|id: u64| #[trigger]
            ids.take(i + 1).contains(id) <==> ids.take(i).contains(id) || id == ids[i],
{
    assert(ids.take(i + 1) =~= ids.take(i).push(ids[i]));
    lemma_push_member(ids.take(i), ids[i]);
}

proof fn lemma_push_member(ids: Seq<u64>, id: u64)
    ensures
        forall|other: u64| #[trigger]
            ids.push(id).contains(other) <==> ids.contains(other) || other == id,
        ids.no_duplicates() && !ids.contains(id) ==> ids.push(id).no_duplicates(),
{
    let longer = ids.push(id);
    assert forall|other: u64| #[trigger] longer.contains(other) <==> ids.contains(other) || other
        == id by {
        if longer.contains(other) {
            let k = choose|k: int| 0 <= k < longer.len() && longer[k] == other;
            if k < ids.len() {
                assert(ids[k] == other);
            }
        }
        if ids.contains(other) {
            let k = choose|k: int| 0 <= k < ids.len() && ids[k] == other;
            assert(longer[k] == other);
        }
        if other == id {
            assert(longer[ids.len() as int] == other);
        }
    }
    if ids.no_duplicates() && !ids.contains(id) {
        assert forall|i: int, j: int|
            0 <= i < longer.len() && 0 <= j < longer.len() && i != j implies longer[i]
            != longer[j] by {
            if i < ids.len() {
                assert(ids.contains(ids[i]));
            }
            if j < ids.len() {
                assert(ids.contains(ids[j]));
            }
        }
    }
}

/// A session is the only subscriber if and only if it is one and nobody is left
/// without it.
pub proof fn lemma_only_subscriber(subscribers: Set<u64>, session_id: u64)
    ensures
        subscribers == set![session_id] <==> subscribers.contains(session_id)
            && subscribers.remove(session_id) == Set::<u64>::empty(),
{
    if subscribers == set![session_id] {
        assert(subscribers.remove(session_id) =~= Set::<u64>::empty());
    }
    if subscribers.contains(session_id) && subscribers.remove(session_id) == Set::<u64>::empty() {
        assert forall|id: u64| subscribers.contains(id) implies id == session_id by {
            if id != session_id {
                assert(subscribers.remove(session_id).contains(id));
            }
        }
        assert(subscribers =~= set![session_id]);
    }
}

/// Accepts the subscriptions of other sessions.
pub open spec fn not_session(session_id: u64) -> spec_fn(
    (u64, Seq<char>, Seq<char>),
    u64,
) -> bool {
    |k: (u64, Seq<char>, Seq<char>), id: u64| k.0 != session_id
}

impl ReaderRegistryView {
    /// The reader that a subscription would share.
    pub open spec fn shared(self, key: ReaderKeyView) -> Option<u64> {
        if self.keys.contains_key(key) && self.readers.contains_key(self.keys[key]) {
            Some(self.keys[key])
        } else {
            None
        }
    }

    /// What a subscription gives, and the registry after it: the shared reader
    /// where there is one, an error where the creation of a reader has failed,
    /// and a new reader otherwise.
    pub open spec fn subscribe(
        self,
        topic: TopicEntityView,
        qos: Seq<QosPolicyView>,
        session_id: u64,
        created: i32,
    ) -> (Result<u64, DdsErrorView>, ReaderRegistryView) {
        let key = reader_key(topic.topic_name, topic.typename, qos);
        let sub = (session_id, topic.topic_name, topic.typename);
        match self.shared(key) {
            Some(id) => (
                Ok(id),
                ReaderRegistryView {
                    readers: self.readers.insert(id, self.readers[id].joined(session_id)),
                    subscriptions: self.subscriptions.insert(sub, id),
                    ..self
                },
            ),
            None => if created < 0 {
                (Err(DdsErrorView::CreateReader(created)), self)
            } else {
                let id = self.next_reader_id;
                let reader = ReaderView {
                    reader_id: id,
                    handle: created,
                    topic,
                    qos_normalized: normal_form(qos),
                    subscribers: set![session_id],
                };
                (
                    Ok(id),
                    ReaderRegistryView {
                        readers: self.readers.insert(id, reader),
                        keys: self.keys.insert(key, id),
                        subscriptions: self.subscriptions.insert(sub, id),
                        next_reader_id: next_id(id),
                        released: if self.readers.contains_key(id) {
                            self.released.push(self.readers[id].handle)
                        } else {
                            self.released
                        },
                    },
                )
            },
        }
    }

    /// Whether the end of a subscription finds it, and the registry after it. A
    /// reader without subscribers is released.
    pub open spec fn unsubscribe(
        self,
        topic_name: Seq<char>,
        typename: Seq<char>,
        session_id: u64,
    ) -> (bool, ReaderRegistryView) {
        let sub = (session_id, topic_name, typename);
        if !self.subscriptions.contains_key(sub) {
            (false, self)
        } else {
            let id = self.subscriptions[sub];
            let rest = ReaderRegistryView { subscriptions: self.subscriptions.remove(sub), ..self };
            if !self.readers.contains_key(id) {
                (false, rest)
            } else {
                let reader = self.readers[id].left(session_id);
                if reader.subscribers == Set::<u64>::empty() {
                    (
                        true,
                        ReaderRegistryView {
                            readers: self.readers.remove(id),
                            keys: only(self.keys, not_reader(id)),
                            released: self.released.push(reader.handle),
                            ..rest
                        },
                    )
                } else {
                    (true, ReaderRegistryView { readers: self.readers.insert(id, reader), ..rest })
                }
            }
        }
    }

    /// Whether a reader has no subscriber but the given session.
    pub open spec fn only_for(self, id: u64, session_id: u64) -> bool {
        &&& self.readers.contains_key(id)
        &&& self.readers[id].subscribers == set![session_id]
    }

    /// The readers after a session has ended: those that nobody else is
    /// subscribed to are gone, and no other has the session as a subscriber.
    pub open spec fn readers_without(self, session_id: u64) -> Map<u64, ReaderView> {
        Map::new(
            |id: u64| self.readers.contains_key(id) && !self.only_for(id, session_id),
            |id: u64| self.readers[id].left(session_id),
        )
    }

    /// The keys after a session has ended: those of the readers that stay.
    pub open spec fn keys_without(self, session_id: u64) -> Map<ReaderKeyView, u64> {
        only(
            self.keys,
            |k: ReaderKeyView, id: u64| !self.only_for(id, session_id),
        )
    }

    /// The readers when those in `done` have been looked at as a session ends.
    spec fn readers_after(self, session_id: u64, done: Seq<u64>) -> Map<u64, ReaderView> {
        Map::new(
            |id: u64|
                self.readers.contains_key(id) && !(done.contains(id) && self.only_for(
                    id,
                    session_id,
                )),
            |id: u64|
                if done.contains(id) {
                    self.readers[id].left(session_id)
                } else {
                    self.readers[id]
                },
        )
    }

    /// Whether `gone` lists the readers that leave when a session ends, each
    /// once.
    pub open spec fn leaving(self, session_id: u64, gone: Seq<u64>) -> bool {
        &&& gone.no_duplicates()
        &&& forall|id: u64| #[trigger] gone.contains(id) <==> self.only_for(id, session_id)
    }

    /// Whether `after` is the registry after a session has ended. The readers
    /// that leave are released, in some order.
    pub open spec fn session_removed(self, session_id: u64, after: ReaderRegistryView) -> bool {
        &&& after.readers == self.readers_without(session_id)
        &&& after.keys == self.keys_without(session_id)
        &&& after.subscriptions == only(self.subscriptions, not_session(session_id))
        &&& after.next_reader_id == self.next_reader_id
        &&& exists|gone: Seq<u64>| #[trigger]
            self.leaving(session_id, gone) && after.released == self.released + self.handles(gone)
    }

    /// Whether `ids` lists all readers, each once.
    pub open spec fn listing(self, ids: Seq<u64>) -> bool {
        &&& ids.no_duplicates()
        &&& forall|id: u64| #[trigger] ids.contains(id) <==> self.readers.contains_key(id)
    }

    /// The handles of the given readers.
    pub open spec fn handles(self, ids: Seq<u64>) -> Seq<i32> {
        ids.map_values(|id: u64| self.readers[id].handle)
    }
}

impl ReaderRegistry {
    /// Whether no key is filed twice.
    pub closed spec fn wf(&self) -> bool {
        self.key_to_reader.wf() && self.session_subscriptions.wf()
    }

    /// The registry without readers.
    pub fn new() -> (reg: Self)
        ensures
            reg.wf(),
            reg@ == (ReaderRegistryView {
                readers: Map::empty(),
                keys: Map::empty(),
                subscriptions: Map::empty(),
                next_reader_id: 1,
                released: Seq::empty(),
            }),
    {
        let reg = ReaderRegistry {
            readers: HashMap::new(),
            key_to_reader: AssocList::new(),
            session_subscriptions: AssocList::new(),
            next_reader_id: 1,
            released: Vec::new(),
        };
        assert(reg@.readers =~= Map::<u64, ReaderView>::empty());
        reg
    }

    /// The reader that a subscription would share, where there is one.
    pub fn shared_reader(&self, topic_name: &str, typename: &str, qos: &QosSet) -> (r: Option<u64>)
        requires
            self.wf(),
        ensures
            r == self@.shared(reader_key(topic_name@, typename@, qos@)),
    {
        let key = ReaderKey::new(topic_name, typename, qos);
        match self.key_to_reader.get(&key) {
            Some(id) => {
                if self.readers.contains_key(id) {
                    Some(*id)
                } else {
                    None
                }
            },
            None => None,
        }
    }

    /// Subscribe a session to a reader. Creates a new reader if none exists
    /// for the given (topic, type, qos) combination.
    /// Returns the reader_id.
    ///
    /// `created` is what the creation of the reader gave, a handle or a
    /// negative error code; it counts only where [`Self::shared_reader`] finds
    /// no reader.
    pub fn subscribe(
        &mut self,
        topic: &Topic,
        qos_set: &QosSet,
        session_id: u64,
        created: i32,
    ) -> (r: Result<u64, DdsError>)
        requires
            old(self).wf(),
        ensures
            final(self).wf(),
            (result_view(r), final(self)@) == old(self)@.subscribe(
                topic@,
                qos_set@,
                session_id,
                created,
            ),
    {
        let sub = SubscriptionKey::new(
            session_id,
            topic.topic_name.as_str(),
            topic.typename.as_str(),
        );
        match self.shared_reader(topic.topic_name.as_str(), topic.typename.as_str(), qos_set) {
            Some(reader_id) => {
                match self.readers.remove(&reader_id) {
                    Some(mut reader) => {
                        reader.subscribers.insert(session_id);
                        self.readers.insert(reader_id, reader);
                    },
                    None => {},
                }
                self.session_subscriptions.insert(sub, reader_id);
                proof {
                    let wanted = old(self)@.subscribe(topic@, qos_set@, session_id, created).1;
                    assert(self@.readers =~= wanted.readers);
                }
                return Ok(reader_id);
            },
            None => {},
        }
        let key = ReaderKey::new(topic.topic_name.as_str(), topic.typename.as_str(), qos_set);
        let mut ids: u64 = self.next_reader_id;
        let mut reader = match DdsReader::new(created, topic, qos_set.normalize(), &mut ids) {
            Ok(reader) => reader,
            Err(e) => {
                return Err(e);
            },
        };
        self.next_reader_id = ids;
        let reader_id: u64 = reader.reader_id;
        reader.subscribers.insert(session_id);
        assert(reader@.subscribers =~= set![session_id]);
        self.session_subscriptions.insert(sub, reader_id);
        self.key_to_reader.insert(key, reader_id);
        match self.readers.insert(reader_id, reader) {
            Some(gone) => {
                self.released.push(gone.handle);
            },
            None => {},
        }
        proof {
            let wanted = old(self)@.subscribe(topic@, qos_set@, session_id, created).1;
            assert(self@.readers =~= wanted.readers);
        }
        Ok(reader_id)
    }

    /// Unsubscribe a session from a reader by topic_name and typename.
    /// (The protocol's UNSUBSCRIBE message only carries topic+type, not QoS.)
    /// Returns true if the session was actually subscribed.
    pub fn unsubscribe(
        &mut self,
        topic_name: &str,
        typename: &str,
        session_id: u64,
    ) -> (found: bool)
        requires
            old(self).wf(),
        ensures
            final(self).wf(),
            (found, final(self)@) == old(self)@.unsubscribe(topic_name@, typename@, session_id),
    {
        let sub = SubscriptionKey::new(session_id, topic_name, typename);
        let reader_id: u64 = match self.session_subscriptions.remove(&sub) {
            Some(id) => id,
            None => {
                assert(self@.subscriptions =~= old(self)@.subscriptions);
                return false;
            },
        };
        match self.readers.remove(&reader_id) {
            None => {
                assert(self@.readers =~= old(self)@.readers);
                false
            },
            Some(mut reader) => {
                reader.subscribers.remove(&session_id);
                if reader.subscribers.is_empty() {
                    self.released.push(reader.handle);
                    let keep = |k: &ReaderKey, id: &u64| -> (stays: bool)
                        ensures
                            stays <==> id != reader_id,
                    {
                        *id != reader_id
                    };
                    self.key_to_reader.retain(keep, Ghost(not_reader(reader_id)));
                    proof {
                        assert(reader@.subscribers =~= Set::<u64>::empty());
                        let wanted = old(self)@.unsubscribe(topic_name@, typename@, session_id).1;
                        assert(self@.readers =~= wanted.readers);
                    }
                } else {
                    self.readers.insert(reader_id, reader);
                    proof {
                        assert(reader@.subscribers != Set::<u64>::empty());
                        let wanted = old(self)@.unsubscribe(topic_name@, typename@, session_id).1;
                        assert(self@.readers =~= wanted.readers);
                    }
                }
                true
            },
        }
    }

    /// The IDs of all readers, in some order.
    pub fn reader_ids(&self) -> (ids: Vec<u64>)
        ensures
            self@.listing(ids@),
    {
        let mut ids: Vec<u64> = Vec::new();
        for id in it: self.readers.keys()
            invariant
                ids@.len() == it.index(),
                forall|i: int| 0 <= i < ids@.len() ==> ids@[i] == *it.seq()[i],
                it.seq() == vstd::std_specs::hash::spec_keys_iter(&self.readers).remaining(),
        {
            ids.push(*id);
        }
        proof {
            let keys = vstd::std_specs::hash::spec_keys_iter(&self.readers).remaining();
            assert(ids@ =~= keys.unref());
            assert(keys.unref().to_set() == self.readers@.dom());
            assert forall|id: u64| #[trigger]
                ids@.contains(id) <==> self@.readers.contains_key(id) by {
                assert(ids@.to_set().contains(id) <==> ids@.contains(id));
            }
        }
        ids
    }

    /// Remove all subscriptions for a session (cleanup on disconnect).
    pub fn remove_session(&mut self, session_id: u64)
        requires
            old(self).wf(),
        ensures
            final(self).wf(),
            old(self)@.session_removed(session_id, final(self)@),
    {
        let ids = self.reader_ids();
        let other_session = |k: &SubscriptionKey, id: &u64| -> (stays: bool)
            ensures
                stays <==> k@.0 != session_id,
        {
            k.session_id != session_id
        };
        self.session_subscriptions.retain(other_session, Ghost(not_session(session_id)));
        let ghost before = old(self)@;
        let ghost mut gone: Seq<u64> = Seq::empty();
        let mut i: usize = 0;
        proof {
            assert(self@.readers =~= before.readers_after(session_id, ids@.take(0)));
            assert(self@.keys =~= only(before.keys, not_readers(gone)));
            assert(self@.released =~= before.released + before.handles(gone));
        }
        while i < ids.len()
            invariant
                i <= ids@.len(),
                ids@.no_duplicates(),
                forall|id: u64| #[trigger]
                    ids@.contains(id) <==> before.readers.contains_key(id),
                self.wf(),
                before == old(self)@,
                self@.readers == before.readers_after(session_id, ids@.take(i as int)),
                self@.keys == only(before.keys, not_readers(gone)),
                self@.subscriptions == only(before.subscriptions, not_session(session_id)),
                self@.next_reader_id == before.next_reader_id,
                self@.released == before.released + before.handles(gone),
                gone.no_duplicates(),
                forall|id: u64| #[trigger]
                    gone.contains(id) <==> ids@.take(i as int).contains(id) && before.only_for(
                        id,
                        session_id,
                    ),
            decreases ids@.len() - i,
        {
            let reader_id: u64 = ids[i];
            let ghost start = self@;
            let ghost done = ids@.take(i as int);
            let ghost was_gone = gone;
            proof {
                lemma_take_push(ids@, i as int);
                assert(ids@.contains(reader_id));
                if done.contains(reader_id) {
                    let k = choose|k: int| 0 <= k < done.len() && done[k] == reader_id;
                    assert(ids@[k] == ids@[i as int]);
                }
                assert(start.readers.contains_key(reader_id));
                assert(start.readers[reader_id] == before.readers[reader_id]);
                lemma_only_subscriber(before.readers[reader_id].subscribers, session_id);
            }
            match self.readers.remove(&reader_id) {
                None => {
                    assert(!start.readers.contains_key(reader_id));
                },
                Some(mut reader) => {
                    assert(reader@ == before.readers[reader_id]);
                    let joined: bool = reader.subscribers.remove(&session_id);
                    assert(reader@ == before.readers[reader_id].left(session_id));
                    if joined && reader.subscribers.is_empty() {
                        assert(reader@.subscribers =~= Set::<u64>::empty());
                        assert(before.only_for(reader_id, session_id));
                        self.released.push(reader.handle);
                        let keep = |k: &ReaderKey, id: &u64| -> (stays: bool)
                            ensures
                                stays <==> id != reader_id,
                        {
                            *id != reader_id
                        };
                        self.key_to_reader.retain(keep, Ghost(not_reader(reader_id)));
                        proof {
                            gone = was_gone.push(reader_id);
                            lemma_push_member(was_gone, reader_id);
                            assert(before.handles(gone) =~= before.handles(was_gone).push(
                                reader.handle,
                            ));
                        }
                    } else {
                        assert(!before.only_for(reader_id, session_id));
                        self.readers.insert(reader_id, reader);
                    }
                },
            }
            i = i + 1;
            proof {
                let now = ids@.take(i as int);
                let target = before.readers_after(session_id, now);
                assert forall|id: u64|
                    #![trigger self@.readers.dom().contains(id)]
                    #![trigger target.dom().contains(id)]
                    self@.readers.dom().contains(id) == target.dom().contains(id) && (
                    target.dom().contains(id) ==> self@.readers[id] == target[id]) by {
                    assert(now.contains(id) <==> done.contains(id) || id == reader_id);
                    if id != reader_id {
                        assert(self@.readers.dom().contains(id) == start.readers.dom().contains(
                            id,
                        ));
                        if self@.readers.dom().contains(id) {
                            assert(self@.readers[id] == start.readers[id]);
                        }
                    } else {
                        assert(self@.readers.dom().contains(id) == !before.only_for(id, session_id));
                    }
                }
                assert(self@.readers =~= target);
                assert(self@.keys =~= only(before.keys, not_readers(gone)));
                assert(self@.released =~= before.released + before.handles(gone));
                assert forall|id: u64| #[trigger]
                    gone.contains(id) <==> now.contains(id) && before.only_for(
                        id,
                        session_id,
                    ) by {
                    assert(now.contains(id) <==> done.contains(id) || id == reader_id);
                    assert(was_gone.contains(id) <==> done.contains(id) && before.only_for(
                        id,
                        session_id,
                    ));
                }
            }
        }
        proof {
            assert(ids@.take(i as int) =~= ids@);
            assert(self@.readers =~= before.readers_without(session_id));
            assert forall|id: u64| #[trigger]
                gone.contains(id) <==> before.only_for(id, session_id) by {
                assert(ids@.contains(id) <==> before.readers.contains_key(id));
            }
            assert(self@.keys =~= before.keys_without(session_id));
            assert(before.leaving(session_id, gone));
        }
    }

    /// Get a reader by ID.
    pub fn get(&self, reader_id: u64) -> (r: Option<&DdsReader>)
        ensures
            match r {
                Some(reader) => self@.readers.contains_key(reader_id) && reader@
                    == self@.readers[reader_id],
                None => !self@.readers.contains_key(reader_id),
            },
    {
        self.readers.get(&reader_id)
    }

    /// Get all readers (for polling in the bridge event loop), in some order.
    pub fn all_readers(&self) -> (all: Vec<&DdsReader>)
        ensures
            exists|ids: Seq<u64>| #[trigger] self@.listing(ids) && all@.len() == ids.len() && forall|
                i: int,
            | 0 <= i < ids.len() ==> (#[trigger] all@[i])@ == self@.readers[ids[i]],
    {
        let ids = self.reader_ids();
        let mut all: Vec<&DdsReader> = Vec::new();
        let mut i: usize = 0;
        assert(self@.listing(ids@));
        while i < ids.len()
            invariant
                i <= ids@.len(),
                self@.listing(ids@),
                all@.len() == i,
                forall|j: int| 0 <= j < i ==> (#[trigger] all@[j])@ == self@.readers[ids@[j]],
            decreases ids@.len() - i,
        {
            assert(ids@.contains(ids@[i as int]));
            match self.readers.get(&ids[i]) {
                Some(reader) => {
                    all.push(reader);
                },
                None => {
                    assert(!self@.readers.contains_key(ids@[i as int]));
                },
            }
            i = i + 1;
        }
        all
    }

    /// Get subscribers for a given reader.
    pub fn get_subscribers(&self, reader_id: u64) -> (r: Option<&HashSet<u64>>)
        ensures
            match r {
                Some(sessions) => self@.readers.contains_key(reader_id) && sessions@
                    == self@.readers[reader_id].subscribers,
                None => !self@.readers.contains_key(reader_id),
            },
    {
        match self.readers.get(&reader_id) {
            Some(reader) => Some(&reader.subscribers),
            None => None,
        }
    }

    /// The number of subscriptions, over all sessions.
    pub fn subscription_count(&self) -> (n: usize)
        requires
            self.wf(),
        ensures
            n == self@.subscriptions.dom().len(),
            self@.subscriptions.dom().finite(),
    {
        self.session_subscriptions.len()
    }

    /// The number of keys under which readers are shared.
    pub fn key_count(&self) -> (n: usize)
        requires
            self.wf(),
        ensures
            n == self@.keys.dom().len(),
            self@.keys.dom().finite(),
    {
        self.key_to_reader.len()
    }

    /// Takes the handles of readers that have left the registry and are still
    /// to be deleted.
    pub fn take_released(&mut self) -> (handles: Vec<i32>)
        requires
            old(self).wf(),
        ensures
            final(self).wf(),
            handles@ == old(self)@.released,
            final(self)@ == (ReaderRegistryView { released: Seq::empty(), ..old(self)@ }),
    {
        let mut handles: Vec<i32> = Vec::new();
        handles.append(&mut self.released);
        assert(handles@ =~= old(self)@.released);
        handles
    }
}

} // verus!
