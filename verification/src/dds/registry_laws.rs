//! What the registries are for, operation by operation: what each one adds,
//! and that it touches nothing else.
use vstd::prelude::*;
use vstd::utf8::{encode_scalar, encode_utf8};

use crate::dds::error::DdsErrorView;
use crate::dds::laws::{
    key_of, reader_filed, readers_consistent, writers_consistent,
};
use crate::dds::participant::{
    contains_nul, name_error, spec_get_or_create_topic, ParticipantView, TopicEntityView,
};
use crate::dds::reader::{instance_state_of, next_id, reader_key, InstanceState, ReaderRegistryView};
use crate::dds::writer::{other_than, WriteOp, WriterRegistryView, WriterView};
use crate::protocol::codec::KeyField;
use crate::qos::laws::law_normal_form_idempotent;
use crate::qos::policy::{normal_form, normalized_same, QosPolicyView};

verus! {

// ---------------------------------------------------------------------------
// Topics
// ---------------------------------------------------------------------------

/// A topic is there after it was asked for: the one that was there under its
/// names, or else a new one with the handle that was created, the names and the
/// key fields. Where its names cannot be used or the creation has failed, nothing
/// changes; no other topic ever does.
pub proof fn law_topics_are_cached_by_their_names(
    p: ParticipantView,
    topic_name: Seq<char>,
    typename: Seq<char>,
    keys: Seq<KeyField>,
    created: i32,
)
    ensures
        ({
            let key = (topic_name, typename);
            let (r, q) = spec_get_or_create_topic(p, topic_name, typename, keys, created);
            &&& q.handle == p.handle
            &&& p.topics.contains_key(key) ==> r == Ok::<TopicEntityView, DdsErrorView>(
                p.topics[key],
            ) && q == p
            &&& !p.topics.contains_key(key) ==> {
                &&& r is Ok <==> created >= 0 && !contains_nul(topic_name) && !contains_nul(
                    typename,
                )
                &&& r is Err ==> q == p
                &&& r matches Ok(t) ==> t.handle == created && t.topic_name == topic_name
                    && t.typename == typename && t.key_descriptors == keys
                &&& !contains_nul(topic_name) && !contains_nul(typename) && created < 0 ==> r
                    == Err::<TopicEntityView, DdsErrorView>(DdsErrorView::CreateTopic(created))
                &&& contains_nul(topic_name) ==> r == Err::<TopicEntityView, DdsErrorView>(
                    DdsErrorView::InvalidName(topic_name),
                )
                &&& !contains_nul(topic_name) && contains_nul(typename) ==> r == Err::<
                    TopicEntityView,
                    DdsErrorView,
                >(DdsErrorView::InvalidName(typename))
            }
            &&& r matches Ok(t) ==> q.topics.contains_key(key) && q.topics[key] == t
            &&& forall|other: (Seq<char>, Seq<char>)|
                other != key ==> (#[trigger] q.topics.contains_key(other)
                    <==> p.topics.contains_key(other)) && (p.topics.contains_key(other)
                    ==> q.topics[other] == p.topics[other])
            &&& name_error(topic_name, typename) is Some <==> contains_nul(topic_name)
                || contains_nul(typename)
        }),
{
}

/// A name has a NUL in it if and only if one of its characters is the NUL: no
/// other character is written with a zero byte.
pub proof fn law_nul_is_a_character(name: Seq<char>)
    ensures
        contains_nul(name) <==> name.contains('\0'),
    decreases name.len(),
{
    let bytes = encode_utf8(name);
    if name.len() == 0 {
        assert(bytes =~= Seq::<u8>::empty());
    } else {
        let first = encode_scalar(name[0] as u32);
        let rest = name.drop_first();
        law_nul_is_a_character(rest);
        lemma_zero_byte(name[0]);
        assert(bytes == first + encode_utf8(rest));
        lemma_contains_either(first, encode_utf8(rest), 0u8);
        if name.contains('\0') {
            let k = choose|k: int| 0 <= k < name.len() && name[k] == '\0';
            if k > 0 {
                assert(rest[k - 1] == '\0');
            }
        }
        if rest.contains('\0') {
            let k = choose|k: int| 0 <= k < rest.len() && rest[k] == '\0';
            assert(name[k + 1] == '\0');
        }
        if name[0] == '\0' {
            assert(name.contains(name[0]));
        }
    }
}

proof fn lemma_contains_either(a: Seq<u8>, b: Seq<u8>, x: u8)
    ensures
        (a + b).contains(x) <==> a.contains(x) || b.contains(x),
{
    if (a + b).contains(x) {
        let k = choose|k: int| 0 <= k < (a + b).len() && (a + b)[k] == x;
        if k < a.len() {
            assert(a[k] == x);
        } else {
            assert(b[k - a.len()] == x);
        }
    }
    if a.contains(x) {
        let k = choose|k: int| 0 <= k < a.len() && a[k] == x;
        assert((a + b)[k] == x);
    }
    if b.contains(x) {
        let k = choose|k: int| 0 <= k < b.len() && b[k] == x;
        assert((a + b)[a.len() + k] == x);
    }
}

proof fn lemma_zero_byte(c: char)
    ensures
        encode_scalar(c as u32).contains(0u8) <==> c == '\0',
{
    let n = c as u32;
    let bytes = encode_scalar(n);
    assert(n <= 0x7F ==> ((n & 0x7F) as u8 == 0 <==> n == 0)) by (bit_vector);
    assert(0xC0 | ((n >> 6) & 0x1F) as u8 != 0) by (bit_vector);
    assert(0xE0 | ((n >> 12) & 0x0F) as u8 != 0) by (bit_vector);
    assert(0xF0 | ((n >> 18) & 0x7) as u8 != 0) by (bit_vector);
    assert(0x80 | (n & 0x3F) as u8 != 0) by (bit_vector);
    assert(0x80 | ((n >> 6) & 0x3F) as u8 != 0) by (bit_vector);
    assert(0x80 | ((n >> 12) & 0x3F) as u8 != 0) by (bit_vector);
    assert(n == 0 <==> c == '\0');
    if n == 0 {
        assert(bytes[0] == 0u8);
    }
}

// ---------------------------------------------------------------------------
// Writers
// ---------------------------------------------------------------------------

/// A writer that is registered is filed under its ID, for its session, behind the
/// writers that the session has; no other writer, and no other session, is
/// touched, and nothing is released.
pub proof fn law_registration_adds_one_writer(r: WriterRegistryView, w: WriterView, s: u64)
    requires
        !r.writers.contains_key(w.writer_id),
    ensures
        ({
            let q = r.register(w, s);
            &&& q.writers.contains_key(w.writer_id)
            &&& q.writers[w.writer_id].0 == w
            &&& q.writers[w.writer_id].1 == s
            &&& forall|id: u32|
                id != w.writer_id ==> (#[trigger] q.writers.contains_key(id)
                    <==> r.writers.contains_key(id)) && (r.writers.contains_key(id)
                    ==> q.writers[id] == r.writers[id])
            &&& q.ids_of(s) == r.ids_of(s).push(w.writer_id)
            &&& forall|t: u64| t != s ==> #[trigger] q.ids_of(t) == r.ids_of(t)
            &&& q.released == r.released
        }),
{
}

/// A writer is handed out to the session that owns it, and to no other: to any
/// other session it says that it is another's, and where there is none of that
/// ID, that there is none.
pub proof fn law_writers_are_handed_to_their_owner(r: WriterRegistryView, id: u32, s: u64)
    ensures
        r.get(id, s) is Ok <==> r.writers.contains_key(id) && r.writers[id].1 == s,
        r.get(id, s) matches Ok(w) ==> w == r.writers[id].0,
        !r.writers.contains_key(id) ==> r.get(id, s) == Err::<WriterView, DdsErrorView>(
            DdsErrorView::WriterNotFound(id),
        ),
        r.writers.contains_key(id) && r.writers[id].1 != s ==> r.get(id, s) == Err::<
            WriterView,
            DdsErrorView,
        >(DdsErrorView::WriterOwnership(id)),
{
}

/// The writer that is found for a topic stays the same while others are
/// registered behind it: the one that was registered first is found.
pub proof fn law_first_writer_stays_found(
    r: WriterRegistryView,
    w: WriterView,
    s: u64,
    topic_name: Seq<char>,
    typename: Seq<char>,
    qos: Seq<QosPolicyView>,
)
    requires
        writers_consistent(r),
        !r.writers.contains_key(w.writer_id),
    ensures
        r.find_by_topic(s, topic_name, typename, qos) is Some ==> r.register(w, s).find_by_topic(
            s,
            topic_name,
            typename,
            qos,
        ) == r.find_by_topic(s, topic_name, typename, qos),
        r.find_by_topic(s, topic_name, typename, qos) is None ==> r.register(w, s).find_by_topic(
            s,
            topic_name,
            typename,
            qos,
        ) == (if w.topic.topic_name == topic_name && w.topic.typename == typename
            && normalized_same(w.qos_normalized, qos) {
            Some(w)
        } else {
            None
        }),
{
    let q = r.register(w, s);
    let ids = r.ids_of(s);
    assert forall|i: int| 0 <= i < ids.len() implies #[trigger] ids[i] != w.writer_id by {
        assert(ids.contains(ids[i]));
    }
    lemma_first_fit_behind(r, w, s, ids, topic_name, typename, qos);
}

proof fn lemma_first_fit_behind(
    r: WriterRegistryView,
    w: WriterView,
    s: u64,
    ids: Seq<u32>,
    topic_name: Seq<char>,
    typename: Seq<char>,
    qos: Seq<QosPolicyView>,
)
    requires
        !r.writers.contains_key(w.writer_id),
        forall|i: int| 0 <= i < ids.len() ==> #[trigger] ids[i] != w.writer_id,
    ensures
        ({
            let before = r.first_fit(ids, topic_name, typename, qos);
            let after = r.register(w, s).first_fit(
                ids.push(w.writer_id),
                topic_name,
                typename,
                qos,
            );
            &&& before is Some ==> after == before
            &&& before is None ==> after == (if w.topic.topic_name == topic_name
                && w.topic.typename == typename && normalized_same(w.qos_normalized, qos) {
                Some(w)
            } else {
                None
            })
        }),
    decreases ids.len(),
{
    reveal_with_fuel(WriterRegistryView::first_fit, 2);
    let q = r.register(w, s);
    let longer = ids.push(w.writer_id);
    if ids.len() == 0 {
        assert(longer.drop_first() =~= Seq::<u32>::empty());
    } else {
        let rest = ids.drop_first();
        assert forall|i: int| 0 <= i < rest.len() implies #[trigger] rest[i] != w.writer_id by {
            assert(rest[i] == ids[i + 1]);
        }
        lemma_first_fit_behind(r, w, s, rest, topic_name, typename, qos);
        assert(longer.drop_first() =~= rest.push(w.writer_id));
        assert(longer[0] == ids[0]);
        assert(q.fits(ids[0], topic_name, typename, qos) == r.fits(
            ids[0],
            topic_name,
            typename,
            qos,
        ));
    }
}

/// A return code of an operation is an error if and only if it is negative, and
/// the error is that of the operation, with the code.
pub proof fn law_negative_codes_are_errors(op: WriteOp, rc: i32)
    ensures
        op.spec_outcome(rc) is Ok <==> rc >= 0,
        rc < 0 ==> WriteOp::Write.spec_outcome(rc) == Err::<(), DdsErrorView>(
            DdsErrorView::Write(rc),
        ),
        rc < 0 ==> WriteOp::Dispose.spec_outcome(rc) == Err::<(), DdsErrorView>(
            DdsErrorView::Dispose(rc),
        ),
        rc < 0 ==> WriteOp::WriteDispose.spec_outcome(rc) == Err::<(), DdsErrorView>(
            DdsErrorView::WriteDispose(rc),
        ),
{
}

// ---------------------------------------------------------------------------
// Readers
// ---------------------------------------------------------------------------

/// Where no reader is there for a topic, a type and a QoS, a subscription brings
/// a new one: under the next ID, with the handle that was created, the topic and
/// the normal form of the QoS, and the session as its only subscriber. Where its
/// creation has failed, nothing changes.
pub proof fn law_subscription_brings_a_reader(
    r: ReaderRegistryView,
    topic: TopicEntityView,
    qos: Seq<QosPolicyView>,
    s: u64,
    created: i32,
)
    requires
        readers_consistent(r),
        !r.readers.contains_key(r.next_reader_id),
        forall|id: u64| #[trigger]
            r.readers.contains_key(id) ==> !(r.readers[id].topic.topic_name == topic.topic_name
                && r.readers[id].topic.typename == topic.typename && normalized_same(
                r.readers[id].qos_normalized,
                qos,
            )),
    ensures
        ({
            let (given, q) = r.subscribe(topic, qos, s, created);
            let id = r.next_reader_id;
            &&& created < 0 ==> given == Err::<u64, DdsErrorView>(
                DdsErrorView::CreateReader(created),
            ) && q == r
            &&& created >= 0 ==> {
                &&& given == Ok::<u64, DdsErrorView>(id)
                &&& q.readers.contains_key(id)
                &&& q.readers[id].reader_id == id
                &&& q.readers[id].handle == created
                &&& q.readers[id].topic == topic
                &&& q.readers[id].qos_normalized == normal_form(qos)
                &&& forall|t: u64| #[trigger] q.readers[id].subscribers.contains(t) <==> t == s
                &&& q.released == r.released
                &&& id < u64::MAX ==> q.next_reader_id == id + 1
            }
        }),
{
    law_normal_form_idempotent(qos);
    let key = reader_key(topic.topic_name, topic.typename, qos);
    if r.keys.contains_key(key) {
        let id = r.keys[key];
        assert(r.readers.contains_key(id) && key_of(r.readers[id]) == key);
        assert(reader_filed(r, id));
        assert(normalized_same(r.readers[id].qos_normalized, qos));
    }
}

/// A subscription touches one reader and one subscription: that of the session to
/// the topic and the type. The subscribers of the reader are those it had and the
/// session.
pub proof fn law_subscription_touches_one_reader(
    r: ReaderRegistryView,
    topic: TopicEntityView,
    qos: Seq<QosPolicyView>,
    s: u64,
    created: i32,
)
    requires
        !r.readers.contains_key(r.next_reader_id),
    ensures
        ({
            let (given, q) = r.subscribe(topic, qos, s, created);
            let sub = (s, topic.topic_name, topic.typename);
            &&& given matches Ok(id) ==> {
                &&& q.subscriptions.contains_key(sub) && q.subscriptions[sub] == id
                &&& r.readers.contains_key(id) ==> forall|t: u64| #[trigger]
                    q.readers[id].subscribers.contains(t) <==> r.readers[id].subscribers.contains(t)
                        || t == s
                &&& forall|other: u64|
                    other != id ==> (#[trigger] q.readers.contains_key(other)
                        <==> r.readers.contains_key(other)) && (r.readers.contains_key(other)
                        ==> q.readers[other] == r.readers[other])
            }
            &&& given is Err ==> q == r
            &&& forall|other: (u64, Seq<char>, Seq<char>)|
                other != sub ==> (#[trigger] q.subscriptions.contains_key(other)
                    <==> r.subscriptions.contains_key(other)) && (r.subscriptions.contains_key(
                    other,
                ) ==> q.subscriptions[other] == r.subscriptions[other])
        }),
{
}

/// The end of a subscription takes one session from one reader: the other
/// subscribers stay, and so do the other readers and the other subscriptions.
pub proof fn law_unsubscribing_touches_one_reader(
    r: ReaderRegistryView,
    topic_name: Seq<char>,
    typename: Seq<char>,
    s: u64,
)
    ensures
        ({
            let sub = (s, topic_name, typename);
            let (found, q) = r.unsubscribe(topic_name, typename, s);
            &&& !r.subscriptions.contains_key(sub) ==> !found && q == r
            &&& r.subscriptions.contains_key(sub) ==> {
                let id = r.subscriptions[sub];
                &&& found <==> r.readers.contains_key(id)
                &&& q.readers.contains_key(id) ==> forall|t: u64| #[trigger]
                    q.readers[id].subscribers.contains(t) <==> r.readers[id].subscribers.contains(t)
                        && t != s
                &&& r.readers.contains_key(id) ==> (q.readers.contains_key(id) <==> exists|t: u64|
                    #[trigger] r.readers[id].subscribers.contains(t) && t != s)
                &&& forall|other: u64|
                    other != id ==> (#[trigger] q.readers.contains_key(other)
                        <==> r.readers.contains_key(other)) && (r.readers.contains_key(other)
                        ==> q.readers[other] == r.readers[other])
                &&& !q.subscriptions.contains_key(sub)
            }
            &&& forall|other: (u64, Seq<char>, Seq<char>)|
                other != sub ==> (#[trigger] q.subscriptions.contains_key(other)
                    <==> r.subscriptions.contains_key(other)) && (r.subscriptions.contains_key(
                    other,
                ) ==> q.subscriptions[other] == r.subscriptions[other])
        }),
{
    let sub = (s, topic_name, typename);
    if r.subscriptions.contains_key(sub) && r.readers.contains_key(r.subscriptions[sub]) {
        let id = r.subscriptions[sub];
        let left = r.readers[id].subscribers.remove(s);
        if exists|t: u64| #[trigger] r.readers[id].subscribers.contains(t) && t != s {
            let t = choose|t: u64| #[trigger] r.readers[id].subscribers.contains(t) && t != s;
            assert(left.contains(t));
        } else {
            assert(left =~= Set::<u64>::empty());
        }
    }
}

/// The states of instances, in the numbers of the DDS interface: 2 is disposed, 4
/// is without writers, and any other is alive.
pub proof fn law_instance_states(state: u32)
    ensures
        instance_state_of(state) == InstanceState::Disposed <==> state == 2,
        instance_state_of(state) == InstanceState::NoWriters <==> state == 4,
        instance_state_of(state) == InstanceState::Alive <==> state != 2 && state != 4,
{
}

/// IDs go up by one, and start again at 0 behind the last.
pub proof fn law_ids_go_up_by_one(id: u64)
    ensures
        id < u64::MAX ==> next_id(id) == id + 1,
        id == u64::MAX ==> next_id(id) == 0,
{
}

// ---------------------------------------------------------------------------
// Ends
// ---------------------------------------------------------------------------

/// Whether a handle is that of a reader with no subscriber but the given session.
pub open spec fn goes_with(r: ReaderRegistryView, s: u64, handle: i32) -> bool {
    exists|id: u64| #[trigger] r.only_for(id, s) && r.readers[id].handle == handle
}

/// The end of a session takes nothing from the others: their subscriptions stay as
/// they are, and a reader that stays loses that session as a subscriber and no
/// other. Behind the handles that were to be released come those of the readers
/// that go, each of them and nothing else.
pub proof fn law_end_of_a_session_takes_its_own(
    r: ReaderRegistryView,
    s: u64,
    q: ReaderRegistryView,
)
    requires
        r.session_removed(s, q),
    ensures
        q.next_reader_id == r.next_reader_id,
        forall|sub: (u64, Seq<char>, Seq<char>)| #[trigger]
            q.subscriptions.contains_key(sub) <==> r.subscriptions.contains_key(sub) && sub.0 != s,
        forall|sub: (u64, Seq<char>, Seq<char>)| #[trigger]
            q.subscriptions.contains_key(sub) ==> q.subscriptions[sub] == r.subscriptions[sub],
        forall|id: u64, t: u64|
            q.readers.contains_key(id) ==> (#[trigger] q.readers[id].subscribers.contains(t)
                <==> r.readers[id].subscribers.contains(t) && t != s),
        q.released.len() >= r.released.len(),
        q.released.take(r.released.len() as int) == r.released,
        forall|i: int|
            r.released.len() <= i < q.released.len() ==> goes_with(r, s, #[trigger] q.released[i]),
        forall|id: u64| #[trigger]
            r.only_for(id, s) ==> exists|i: int|
                r.released.len() <= i < q.released.len() && #[trigger] q.released[i]
                    == r.readers[id].handle,
{
    let gone = choose|gone: Seq<u64>| #[trigger]
        r.leaving(s, gone) && q.released == r.released + r.handles(gone);
    let n = r.released.len() as int;
    assert(q.released.take(n) =~= r.released);
    assert forall|i: int| n <= i < q.released.len() implies goes_with(
        r,
        s,
        #[trigger] q.released[i],
    ) by {
        let id = gone[i - n];
        assert(gone.contains(id));
        assert(r.only_for(id, s));
        assert(q.released[i] == r.handles(gone)[i - n]);
    }
    assert forall|id: u64| #[trigger] r.only_for(id, s) implies exists|i: int|
        n <= i < q.released.len() && #[trigger] q.released[i] == r.readers[id].handle by {
        assert(gone.contains(id));
        let k = choose|k: int| 0 <= k < gone.len() && gone[k] == id;
        assert(q.released[n + k] == r.handles(gone)[k]);
    }
}

/// The end of a session leaves the lists of writers of the others as they are, and
/// releases the writers of the session, in the order in which they were
/// registered, behind what was to be released.
pub proof fn law_end_of_a_session_releases_its_writers(r: WriterRegistryView, s: u64)
    requires
        writers_consistent(r),
        r.ids_of(s).no_duplicates(),
    ensures
        ({
            let q = r.remove_session(s);
            let ids = r.ids_of(s);
            let n = r.released.len() as int;
            &&& forall|t: u64| t != s ==> #[trigger] q.ids_of(t) == r.ids_of(t)
            &&& q.released.len() == n + ids.len()
            &&& forall|i: int| 0 <= i < n ==> #[trigger] q.released[i] == r.released[i]
            &&& forall|i: int|
                0 <= i < ids.len() ==> #[trigger] q.released[n + i]
                    == r.writers[ids[i]].0.handle
        }),
{
    if r.sessions.contains_key(s) {
        let start = WriterRegistryView {
            writers: r.writers,
            sessions: r.sessions.remove(s),
            released: r.released,
        };
        let ids = r.ids_of(s);
        assert forall|i: int| 0 <= i < ids.len() implies start.writers.contains_key(
            #[trigger] ids[i],
        ) by {
            assert(ids.contains(ids[i]));
        }
        lemma_released_in_order(start, ids);
    }
}

proof fn lemma_released_in_order(r: WriterRegistryView, ids: Seq<u32>)
    requires
        ids.no_duplicates(),
        forall|i: int| 0 <= i < ids.len() ==> r.writers.contains_key(#[trigger] ids[i]),
    ensures
        r.without(ids).sessions == r.sessions,
        r.without(ids).released == r.released + ids.map_values(
            |id: u32| r.writers[id].0.handle,
        ),
        forall|id: u32|
            r.writers.contains_key(id) && !ids.contains(id) ==> #[trigger] r.without(
                ids,
            ).writers.contains_key(id) && r.without(ids).writers[id] == r.writers[id],
    decreases ids.len(),
{
    let handle = |id: u32| r.writers[id].0.handle;
    if ids.len() == 0 {
        assert(r.released + ids.map_values(handle) =~= r.released);
    } else {
        let most = ids.drop_last();
        let last = ids.last();
        assert(forall|i: int| 0 <= i < most.len() ==> #[trigger] most[i] == ids[i]);
        lemma_released_in_order(r, most);
        assert(!most.contains(last));
        assert(r.writers.contains_key(ids[ids.len() - 1]));
        assert(r.without(most).writers.contains_key(last));
        assert(ids.map_values(handle) =~= most.map_values(handle).push(handle(last)));
        assert(r.without(ids).released =~= r.released + ids.map_values(handle));
        assert forall|id: u32|
            r.writers.contains_key(id) && !ids.contains(id) implies #[trigger] r.without(
            ids,
        ).writers.contains_key(id) && r.without(ids).writers[id] == r.writers[id] by {
            assert(ids[ids.len() - 1] == last);
            assert(!most.contains(id)) by {
                if most.contains(id) {
                    let k = choose|k: int| 0 <= k < most.len() && most[k] == id;
                    assert(ids[k] == id);
                }
            }
            assert(r.without(most).writers.contains_key(id));
        }
    }
}

/// A session goes on with the writer that it has for a topic when another of its
/// writers is deleted.
pub proof fn law_deletion_leaves_the_found_writer(
    r: WriterRegistryView,
    id: u32,
    s: u64,
    topic_name: Seq<char>,
    typename: Seq<char>,
    qos: Seq<QosPolicyView>,
)
    requires
        writers_consistent(r),
        r.find_by_topic(s, topic_name, typename, qos) matches Some(w) ==> w.writer_id != id,
    ensures
        r.delete(id, s).1.find_by_topic(s, topic_name, typename, qos) == r.find_by_topic(
            s,
            topic_name,
            typename,
            qos,
        ),
{
    if r.get(id, s) is Ok {
        let ids = r.ids_of(s);
        assert(ids.contains(id));
        assert(r.sessions.contains_key(s));
        assert forall|i: int| 0 <= i < ids.len() implies r.writers.contains_key(#[trigger] ids[i])
            && r.writers[ids[i]].0.writer_id == ids[i] by {
            assert(ids.contains(ids[i]));
        }
        lemma_first_fit_without(r, id, s, ids, topic_name, typename, qos);
        assert(r.delete(id, s).1.ids_of(s) == ids.filter(other_than(id)));
    }
}

/// The first of two lists of writers that fits is in the first list, or else in
/// the second.
proof fn lemma_first_fit_joined(
    r: WriterRegistryView,
    a: Seq<u32>,
    b: Seq<u32>,
    topic_name: Seq<char>,
    typename: Seq<char>,
    qos: Seq<QosPolicyView>,
)
    ensures
        r.first_fit(a + b, topic_name, typename, qos) == (match r.first_fit(
            a,
            topic_name,
            typename,
            qos,
        ) {
            Some(w) => Some(w),
            None => r.first_fit(b, topic_name, typename, qos),
        }),
    decreases a.len(),
{
    if a.len() == 0 {
        assert(a + b =~= b);
    } else {
        assert((a + b).drop_first() =~= a.drop_first() + b);
        lemma_first_fit_joined(r, a.drop_first(), b, topic_name, typename, qos);
    }
}

proof fn lemma_first_fit_without(
    r: WriterRegistryView,
    id: u32,
    s: u64,
    ids: Seq<u32>,
    topic_name: Seq<char>,
    typename: Seq<char>,
    qos: Seq<QosPolicyView>,
)
    requires
        r.get(id, s) is Ok,
        forall|i: int|
            0 <= i < ids.len() ==> r.writers.contains_key(#[trigger] ids[i])
                && r.writers[ids[i]].0.writer_id == ids[i],
        r.first_fit(ids, topic_name, typename, qos) matches Some(w) ==> w.writer_id != id,
    ensures
        r.delete(id, s).1.first_fit(ids.filter(other_than(id)), topic_name, typename, qos)
            == r.first_fit(ids, topic_name, typename, qos),
    decreases ids.len(),
{
    reveal(Seq::filter);
    reveal_with_fuel(WriterRegistryView::first_fit, 2);
    let q = r.delete(id, s).1;
    if ids.len() > 0 {
        let most = ids.drop_last();
        let last = ids.last();
        let kept = most.filter(other_than(id));
        assert forall|i: int| 0 <= i < most.len() implies r.writers.contains_key(#[trigger] most[i])
            && r.writers[most[i]].0.writer_id == most[i] by {
            assert(most[i] == ids[i]);
        }
        assert(ids[ids.len() - 1] == last);
        assert(ids =~= most + seq![last]);
        lemma_first_fit_joined(r, most, seq![last], topic_name, typename, qos);
        lemma_first_fit_without(r, id, s, most, topic_name, typename, qos);
        lemma_first_fit_joined(q, kept, seq![last], topic_name, typename, qos);
        assert(seq![last].drop_first() =~= Seq::<u32>::empty());
        if last != id {
            assert(ids.filter(other_than(id)) =~= kept + seq![last]);
            assert(q.fits(last, topic_name, typename, qos) == r.fits(
                last,
                topic_name,
                typename,
                qos,
            ));
        } else {
            assert(ids.filter(other_than(id)) =~= kept);
        }
    }
}

// ---------------------------------------------------------------------------
// IDs that come again
// ---------------------------------------------------------------------------

/// IDs start again behind the last. A writer or a reader that takes the ID of one
/// that is still there takes its place, and the handle of the one that was there is
/// released.
pub proof fn law_replaced_entities_are_released(
    w: WriterRegistryView,
    writer: WriterView,
    r: ReaderRegistryView,
    topic: TopicEntityView,
    qos: Seq<QosPolicyView>,
    s: u64,
    created: i32,
)
    requires
        w.writers.contains_key(writer.writer_id),
        r.readers.contains_key(r.next_reader_id),
        r.shared(reader_key(topic.topic_name, topic.typename, qos)) is None,
        created >= 0,
    ensures
        ({
            let after = w.register(writer, s);
            &&& after.writers[writer.writer_id] == (writer, s)
            &&& after.released == w.released.push(w.writers[writer.writer_id].0.handle)
        }),
        ({
            let (given, after) = r.subscribe(topic, qos, s, created);
            &&& given == Ok::<u64, DdsErrorView>(r.next_reader_id)
            &&& after.readers[r.next_reader_id].handle == created
            &&& after.released == r.released.push(r.readers[r.next_reader_id].handle)
        }),
{
}

} // verus!
