//! What holds of the registries across operations.
use vstd::prelude::*;

use crate::dds::error::DdsErrorView;
use crate::dds::participant::TopicEntityView;
use crate::dds::reader::{
    lemma_only_subscriber, reader_key, ReaderKeyView, ReaderRegistryView, ReaderView,
};
use crate::dds::writer::{other_than, WriterRegistryView, WriterView};
use crate::qos::laws::law_normal_form_idempotent;
use crate::qos::policy::{normal_form, normalized_same, QosPolicyView};

verus! {

// ---------------------------------------------------------------------------
// Writers
// ---------------------------------------------------------------------------

/// Whether the writers are filed under their own IDs, and the lists of the
/// sessions are the writers that the sessions own.
pub open spec fn writers_consistent(r: WriterRegistryView) -> bool {
    &&& forall|id: u32| #[trigger]
        r.writers.contains_key(id) ==> r.writers[id].0.writer_id == id && r.ids_of(
            r.writers[id].1,
        ).contains(id)
    &&& forall|s: u64, id: u32| #[trigger]
        r.ids_of(s).contains(id) ==> r.writers.contains_key(id) && r.writers[id].1 == s
}

/// A new registry is consistent.
pub proof fn law_new_writers_consistent()
    ensures
        writers_consistent(
            WriterRegistryView {
                writers: Map::empty(),
                sessions: Map::empty(),
                released: Seq::empty(),
            },
        ),
{
}

proof fn lemma_push_contains(ids: Seq<u32>, id: u32)
    ensures
        ids.push(id).contains(id),
        forall|other: u32|
            other != id ==> (#[trigger] ids.push(id).contains(other) <==> ids.contains(other)),
{
    assert(ids.push(id)[ids.len() as int] == id);
    assert forall|other: u32| other != id implies (#[trigger] ids.push(id).contains(other)
        <==> ids.contains(other)) by {
        if ids.push(id).contains(other) {
            let k = choose|k: int| 0 <= k < ids.push(id).len() && ids.push(id)[k] == other;
            assert(ids[k] == other);
        }
        if ids.contains(other) {
            let k = choose|k: int| 0 <= k < ids.len() && ids[k] == other;
            assert(ids.push(id)[k] == other);
        }
    }
}

/// A writer that is registered under a fresh ID keeps the registry consistent.
/// Its session gets it, any other session is refused, and what holds of other
/// writers stays.
pub proof fn law_register(r: WriterRegistryView, w: WriterView, s: u64)
    requires
        writers_consistent(r),
        !r.writers.contains_key(w.writer_id),
    ensures
        writers_consistent(r.register(w, s)),
        r.register(w, s).get(w.writer_id, s) == Ok::<WriterView, DdsErrorView>(w),
        forall|t: u64|
            t != s ==> #[trigger] r.register(w, s).get(w.writer_id, t) == Err::<
                WriterView,
                DdsErrorView,
            >(DdsErrorView::WriterOwnership(w.writer_id)),
        forall|id: u32, t: u64|
            id != w.writer_id ==> #[trigger] r.register(w, s).get(id, t) == r.get(id, t),
{
    let q = r.register(w, s);
    let id = w.writer_id;
    lemma_push_contains(r.ids_of(s), id);
    assert(q.ids_of(s) == r.ids_of(s).push(id));
    assert forall|t: u64| t != s implies q.ids_of(t) == #[trigger] r.ids_of(t) by {}
    assert forall|other: u32| #[trigger] q.writers.contains_key(other) implies q.writers[other].0.writer_id
        == other && q.ids_of(q.writers[other].1).contains(other) by {
        if other != id {
            assert(r.writers.contains_key(other));
            let owner = r.writers[other].1;
            assert(r.ids_of(owner).contains(other));
            if owner == s {
                assert(r.ids_of(s).push(id).contains(other));
            } else {
                assert(q.ids_of(owner) == r.ids_of(owner));
            }
        }
    }
    assert forall|t: u64, other: u32| #[trigger] q.ids_of(t).contains(other) implies q.writers.contains_key(
        other,
    ) && q.writers[other].1 == t by {
        if t == s {
            if other != id {
                assert(r.ids_of(s).contains(other));
            }
        } else {
            assert(q.ids_of(t) == r.ids_of(t));
            assert(r.ids_of(t).contains(other));
        }
    }
}

proof fn lemma_filter_other(ids: Seq<u32>, id: u32)
    ensures
        forall|other: u32| #[trigger]
            ids.filter(other_than(id)).contains(other) <==> ids.contains(other) && other != id,
    decreases ids.len(),
{
    reveal(Seq::filter);
    let kept = ids.filter(other_than(id));
    if ids.len() > 0 {
        let shorter = ids.drop_last();
        lemma_filter_other(shorter, id);
        let before = shorter.filter(other_than(id));
        assert(ids =~= shorter.push(ids.last()));
        lemma_push_contains(shorter, ids.last());
        lemma_push_contains(before, ids.last());
        assert forall|other: u32| #[trigger] kept.contains(other) <==> ids.contains(other) && other
            != id by {
            assert(before.contains(other) <==> shorter.contains(other) && other != id);
            assert(ids.contains(other) <==> shorter.contains(other) || other == ids.last());
            if ids.last() != id {
                assert(kept == before.push(ids.last()));
                assert(kept.contains(other) <==> before.contains(other) || other == ids.last());
            } else {
                assert(kept == before);
            }
        }
    }
}

/// Only the session that owns a writer can delete it. A deleted writer is gone
/// for every session and its handle is released; what holds of other writers
/// stays, and the registry stays consistent.
pub proof fn law_delete(r: WriterRegistryView, id: u32, s: u64)
    requires
        writers_consistent(r),
    ensures
        r.delete(id, s).0 is Ok <==> r.writers.contains_key(id) && r.writers[id].1 == s,
        r.delete(id, s).0 is Err ==> r.delete(id, s).1 == r,
        writers_consistent(r.delete(id, s).1),
        r.delete(id, s).0 is Ok ==> r.delete(id, s).1.released == r.released.push(
            r.writers[id].0.handle,
        ),
        r.delete(id, s).0 is Ok ==> forall|t: u64| #[trigger]
            r.delete(id, s).1.get(id, t) == Err::<WriterView, DdsErrorView>(
                DdsErrorView::WriterNotFound(id),
            ),
        forall|other: u32, t: u64|
            other != id ==> #[trigger] r.delete(id, s).1.get(other, t) == r.get(other, t),
{
    let q = r.delete(id, s).1;
    if r.delete(id, s).0 is Ok {
        assert(r.ids_of(s).contains(id));
        assert(r.sessions.contains_key(s));
        lemma_filter_other(r.ids_of(s), id);
        assert(q.ids_of(s) == r.ids_of(s).filter(other_than(id)));
        assert forall|t: u64| t != s implies q.ids_of(t) == #[trigger] r.ids_of(t) by {}
        assert forall|other: u32| #[trigger] q.writers.contains_key(other) implies q.writers[other].0.writer_id
            == other && q.ids_of(q.writers[other].1).contains(other) by {
            assert(r.writers.contains_key(other));
            let owner = r.writers[other].1;
            assert(r.ids_of(owner).contains(other));
            if owner == s {
                assert(r.ids_of(s).filter(other_than(id)).contains(other));
            } else {
                assert(q.ids_of(owner) == r.ids_of(owner));
            }
        }
        assert forall|t: u64, other: u32| #[trigger] q.ids_of(t).contains(other) implies q.writers.contains_key(
            other,
        ) && q.writers[other].1 == t by {
            if t == s {
                assert(r.ids_of(s).contains(other) && other != id);
            } else {
                assert(q.ids_of(t) == r.ids_of(t));
                assert(r.ids_of(t).contains(other));
            }
        }
    }
}

proof fn lemma_without(r: WriterRegistryView, ids: Seq<u32>)
    ensures
        r.without(ids).sessions == r.sessions,
        forall|id: u32| #[trigger]
            r.without(ids).writers.contains_key(id) <==> r.writers.contains_key(id)
                && !ids.contains(id),
        forall|id: u32| #[trigger]
            r.without(ids).writers.contains_key(id) ==> r.without(ids).writers[id]
                == r.writers[id],
    decreases ids.len(),
{
    if ids.len() > 0 {
        let shorter = ids.drop_last();
        let last = ids.last();
        lemma_without(r, shorter);
        assert(ids =~= shorter.push(last));
        lemma_push_contains(shorter, last);
        let before = r.without(shorter);
        let after = r.without(ids);
        assert forall|id: u32| #[trigger]
            after.writers.contains_key(id) <==> r.writers.contains_key(id) && !ids.contains(id) by {
            assert(before.writers.contains_key(id) <==> r.writers.contains_key(id)
                && !shorter.contains(id));
            assert(ids.contains(id) <==> shorter.contains(id) || id == last);
        }
        assert forall|id: u32| #[trigger] after.writers.contains_key(id) implies after.writers[id]
            == r.writers[id] by {
            assert(before.writers.contains_key(id));
        }
    }
}

/// When a session ends, all its writers are gone, those of every other session
/// stay, and the registry stays consistent.
pub proof fn law_writers_of_ended_session(r: WriterRegistryView, s: u64)
    requires
        writers_consistent(r),
    ensures
        writers_consistent(r.remove_session(s)),
        r.remove_session(s).ids_of(s) == Seq::<u32>::empty(),
        forall|id: u32| #[trigger]
            r.remove_session(s).writers.contains_key(id) <==> r.writers.contains_key(id)
                && r.writers[id].1 != s,
        forall|id: u32| #[trigger]
            r.remove_session(s).writers.contains_key(id) ==> r.remove_session(s).writers[id]
                == r.writers[id],
{
    let q = r.remove_session(s);
    let ids = r.ids_of(s);
    if r.sessions.contains_key(s) {
        let start = WriterRegistryView {
            writers: r.writers,
            sessions: r.sessions.remove(s),
            released: r.released,
        };
        lemma_without(start, ids);
        assert(q == start.without(ids));
    } else {
        assert(ids =~= Seq::<u32>::empty());
    }
    assert forall|id: u32| #[trigger] q.writers.contains_key(id) <==> r.writers.contains_key(id)
        && r.writers[id].1 != s by {
        if r.writers.contains_key(id) && r.writers[id].1 == s {
            assert(ids.contains(id));
        }
        if ids.contains(id) {
            assert(r.writers[id].1 == s);
        }
    }
    assert(q.ids_of(s) =~= Seq::<u32>::empty());
    assert forall|t: u64| t != s implies q.ids_of(t) == #[trigger] r.ids_of(t) by {}
    assert forall|other: u32| #[trigger] q.writers.contains_key(other) implies q.writers[other].0.writer_id
        == other && q.ids_of(q.writers[other].1).contains(other) by {
        let owner = r.writers[other].1;
        assert(r.ids_of(owner).contains(other));
        assert(q.ids_of(owner) == r.ids_of(owner));
    }
    assert forall|t: u64, other: u32| #[trigger] q.ids_of(t).contains(other) implies q.writers.contains_key(
        other,
    ) && q.writers[other].1 == t by {
        if t != s {
            assert(q.ids_of(t) == r.ids_of(t));
            assert(r.ids_of(t).contains(other));
        }
    }
}

proof fn lemma_without_releases(r: WriterRegistryView, ids: Seq<u32>, id: u32)
    requires
        ids.contains(id),
        r.writers.contains_key(id),
    ensures
        r.without(ids).released.contains(r.writers[id].0.handle),
        !r.without(ids).writers.contains_key(id),
    decreases ids.len(),
{
    let most = ids.drop_last();
    let before = r.without(most);
    let handle = r.writers[id].0.handle;
    if most.contains(id) {
        lemma_without_releases(r, most, id);
        let k = choose|k: int| 0 <= k < before.released.len() && before.released[k] == handle;
        assert(r.without(ids).released[k] == handle);
    } else {
        let k = choose|k: int| 0 <= k < ids.len() && ids[k] == id;
        assert(k == ids.len() - 1) by {
            if k < ids.len() - 1 {
                assert(most[k] == id);
            }
        }
        lemma_without_keeps(r, most, id);
        assert(r.without(ids).released[before.released.len() as int] == handle);
    }
}

proof fn lemma_without_keeps(r: WriterRegistryView, ids: Seq<u32>, id: u32)
    requires
        !ids.contains(id),
        r.writers.contains_key(id),
    ensures
        r.without(ids).writers.contains_key(id),
        r.without(ids).writers[id] == r.writers[id],
    decreases ids.len(),
{
    if ids.len() > 0 {
        assert(ids[ids.len() - 1] == ids.last());
        assert(!ids.drop_last().contains(id)) by {
            if ids.drop_last().contains(id) {
                let k = choose|k: int| 0 <= k < ids.drop_last().len() && ids.drop_last()[k] == id;
                assert(ids[k] == id);
            }
        }
        lemma_without_keeps(r, ids.drop_last(), id);
    }
}

/// When a session ends, the handles of all its writers, and of the readers that
/// nobody else was subscribed to, are released.
pub proof fn law_ended_session_releases(
    w: WriterRegistryView,
    r: ReaderRegistryView,
    s: u64,
    q: ReaderRegistryView,
)
    requires
        writers_consistent(w),
        r.session_removed(s, q),
    ensures
        forall|id: u32| #[trigger]
            w.writers.contains_key(id) && w.writers[id].1 == s ==> w.remove_session(
                s,
            ).released.contains(w.writers[id].0.handle),
        forall|id: u64| #[trigger]
            r.only_for(id, s) ==> q.released.contains(r.readers[id].handle),
{
    assert forall|id: u32| #[trigger]
        w.writers.contains_key(id) && w.writers[id].1 == s implies w.remove_session(
        s,
    ).released.contains(w.writers[id].0.handle) by {
        assert(w.ids_of(s).contains(id));
        let rest = WriterRegistryView { sessions: w.sessions.remove(s), ..w };
        lemma_without_releases(rest, w.sessions[s], id);
    }
    let gone = choose|gone: Seq<u64>| #[trigger]
        r.leaving(s, gone) && q.released == r.released + r.handles(gone);
    assert forall|id: u64| #[trigger] r.only_for(id, s) implies q.released.contains(
        r.readers[id].handle,
    ) by {
        assert(gone.contains(id));
        let k = choose|k: int| 0 <= k < gone.len() && gone[k] == id;
        assert(r.handles(gone)[k] == r.readers[id].handle);
        assert(q.released[r.released.len() + k] == r.readers[id].handle);
    }
}

proof fn lemma_first_fit(
    r: WriterRegistryView,
    ids: Seq<u32>,
    topic_name: Seq<char>,
    typename: Seq<char>,
    qos: Seq<QosPolicyView>,
)
    ensures
        r.first_fit(ids, topic_name, typename, qos) is Some <==> exists|id: u32|
            ids.contains(id) && #[trigger] r.fits(id, topic_name, typename, qos),
        r.first_fit(ids, topic_name, typename, qos) matches Some(w) ==> exists|id: u32|
            ids.contains(id) && #[trigger] r.fits(id, topic_name, typename, qos)
                && r.writers[id].0 == w,
    decreases ids.len(),
{
    if ids.len() > 0 {
        let rest = ids.drop_first();
        lemma_first_fit(r, rest, topic_name, typename, qos);
        assert(ids.contains(ids[0]));
        assert forall|id: u32| rest.contains(id) implies ids.contains(id) by {
            let k = choose|k: int| 0 <= k < rest.len() && rest[k] == id;
            assert(ids[k + 1] == id);
        }
        assert forall|id: u32| ids.contains(id) implies rest.contains(id) || id == ids[0] by {
            let k = choose|k: int| 0 <= k < ids.len() && ids[k] == id;
            if k > 0 {
                assert(rest[k - 1] == id);
            }
        }
    }
}

/// A writer that is found for a session by topic is one that the session owns,
/// on that topic, with that type and an equal QoS. One is found whenever the
/// session owns such a writer.
pub proof fn law_find_by_topic(
    r: WriterRegistryView,
    s: u64,
    topic_name: Seq<char>,
    typename: Seq<char>,
    qos: Seq<QosPolicyView>,
)
    requires
        writers_consistent(r),
    ensures
        r.find_by_topic(s, topic_name, typename, qos) matches Some(w) ==> {
            &&& r.get(w.writer_id, s) == Ok::<WriterView, DdsErrorView>(w)
            &&& w.topic.topic_name == topic_name
            &&& w.topic.typename == typename
            &&& normalized_same(w.qos_normalized, qos)
        },
        r.find_by_topic(s, topic_name, typename, qos) is Some <==> exists|id: u32|
            #[trigger] r.fits(id, topic_name, typename, qos) && r.writers[id].1 == s,
{
    lemma_first_fit(r, r.ids_of(s), topic_name, typename, qos);
    assert forall|id: u32| #[trigger] r.fits(id, topic_name, typename, qos) implies (r.ids_of(
        s,
    ).contains(id) <==> r.writers[id].1 == s) by {
        assert(r.writers.contains_key(id));
        assert(r.ids_of(r.writers[id].1).contains(id));
    }
}

/// A session that registers a writer for a topic finds a writer for it from
/// then on: the next write by topic name reuses a writer.
pub proof fn law_registered_writer_is_found(
    r: WriterRegistryView,
    w: WriterView,
    s: u64,
    qos: Seq<QosPolicyView>,
)
    requires
        writers_consistent(r),
        !r.writers.contains_key(w.writer_id),
        normalized_same(w.qos_normalized, qos),
    ensures
        r.register(w, s).find_by_topic(s, w.topic.topic_name, w.topic.typename, qos) is Some,
{
    law_register(r, w, s);
    let q = r.register(w, s);
    law_find_by_topic(q, s, w.topic.topic_name, w.topic.typename, qos);
    assert(q.fits(w.writer_id, w.topic.topic_name, w.topic.typename, qos));
}

// ---------------------------------------------------------------------------
// Readers
// ---------------------------------------------------------------------------

/// The key under which a reader is shared.
pub open spec fn key_of(reader: ReaderView) -> ReaderKeyView {
    (reader.topic.topic_name, reader.topic.typename, reader.qos_normalized.to_multiset())
}

/// Whether a reader is filed under its own ID and its key, has a subscriber and
/// keeps its QoS in normal form.
pub open spec fn reader_filed(r: ReaderRegistryView, id: u64) -> bool {
    &&& r.readers[id].reader_id == id
    &&& r.readers[id].subscribers != Set::<u64>::empty()
    &&& normal_form(r.readers[id].qos_normalized) == r.readers[id].qos_normalized
    &&& r.keys.contains_key(key_of(r.readers[id]))
    &&& r.keys[key_of(r.readers[id])] == id
}

/// Whether a subscription is for a reader that exists, on its topic and type,
/// with the session as a subscriber.
pub open spec fn subscription_filed(
    r: ReaderRegistryView,
    sub: (u64, Seq<char>, Seq<char>),
) -> bool {
    let id = r.subscriptions[sub];
    &&& r.readers.contains_key(id)
    &&& r.readers[id].subscribers.contains(sub.0)
    &&& r.readers[id].topic.topic_name == sub.1
    &&& r.readers[id].topic.typename == sub.2
}

/// Whether readers, keys and subscriptions fit together: every reader has a
/// subscriber and is shared under its key, and every key and every subscription
/// is for a reader that exists.
pub open spec fn readers_consistent(r: ReaderRegistryView) -> bool {
    &&& forall|id: u64| #[trigger] r.readers.contains_key(id) ==> reader_filed(r, id)
    &&& forall|k: ReaderKeyView| #[trigger]
        r.keys.contains_key(k) ==> r.readers.contains_key(r.keys[k]) && key_of(
            r.readers[r.keys[k]],
        ) == k
    &&& forall|sub: (u64, Seq<char>, Seq<char>)| #[trigger]
        r.subscriptions.contains_key(sub) ==> subscription_filed(r, sub)
}

/// A new registry is consistent.
pub proof fn law_new_readers_consistent()
    ensures
        readers_consistent(
            ReaderRegistryView {
                readers: Map::empty(),
                keys: Map::empty(),
                subscriptions: Map::empty(),
                next_reader_id: 1,
                released: Seq::empty(),
            },
        ),
{
}

/// A subscription keeps the registry consistent, as long as reader IDs have not
/// come round to one in use. Where it succeeds, the session is a subscriber of
/// the reader whose ID it gives, and the reader is on that topic and type, with
/// that QoS.
pub proof fn law_subscribe(
    r: ReaderRegistryView,
    topic: TopicEntityView,
    qos: Seq<QosPolicyView>,
    s: u64,
    created: i32,
)
    requires
        readers_consistent(r),
        !r.readers.contains_key(r.next_reader_id),
    ensures
        readers_consistent(r.subscribe(topic, qos, s, created).1),
        r.subscribe(topic, qos, s, created).0 matches Ok(id) ==> {
            let q = r.subscribe(topic, qos, s, created).1;
            &&& q.readers.contains_key(id)
            &&& q.readers[id].subscribers.contains(s)
            &&& q.readers[id].topic.topic_name == topic.topic_name
            &&& q.readers[id].topic.typename == topic.typename
            &&& normalized_same(q.readers[id].qos_normalized, qos)
            &&& q.subscriptions[(s, topic.topic_name, topic.typename)] == id
        },
{
    law_normal_form_idempotent(qos);
    let key = reader_key(topic.topic_name, topic.typename, qos);
    let sub = (s, topic.topic_name, topic.typename);
    let q = r.subscribe(topic, qos, s, created).1;
    match r.shared(key) {
        Some(id) => {
            assert(key_of(r.readers[id]) == key);
            assert forall|other: u64| #[trigger]
                q.readers.contains_key(other) implies reader_filed(q, other) by {
                assert(r.readers.contains_key(other));
                assert(reader_filed(r, other));
                assert(key_of(q.readers[other]) == key_of(r.readers[other]));
                if other == id {
                    assert(q.readers[id].subscribers.contains(s));
                }
            }
            assert forall|k: ReaderKeyView| #[trigger]
                q.keys.contains_key(k) implies q.readers.contains_key(q.keys[k]) && key_of(
                q.readers[q.keys[k]],
            ) == k by {
                assert(r.keys.contains_key(k));
            }
            assert forall|other: (u64, Seq<char>, Seq<char>)| #[trigger]
                q.subscriptions.contains_key(other) implies subscription_filed(q, other) by {
                if other != sub {
                    assert(r.subscriptions.contains_key(other));
                    assert(subscription_filed(r, other));
                }
            }
        },
        None => {
            if created >= 0 {
                let id = r.next_reader_id;
                assert(!r.keys.contains_key(key)) by {
                    if r.keys.contains_key(key) {
                        assert(r.readers.contains_key(r.keys[key]));
                    }
                }
                assert(key_of(q.readers[id]) == key);
                assert forall|other: u64| #[trigger]
                    q.readers.contains_key(other) implies reader_filed(q, other) by {
                    if other == id {
                        assert(q.readers[id].subscribers.contains(s));
                    } else {
                        assert(r.readers.contains_key(other));
                        assert(reader_filed(r, other));
                        assert(key_of(r.readers[other]) != key);
                    }
                }
                assert forall|k: ReaderKeyView| #[trigger]
                    q.keys.contains_key(k) implies q.readers.contains_key(q.keys[k]) && key_of(
                    q.readers[q.keys[k]],
                ) == k by {
                    if k != key {
                        assert(r.keys.contains_key(k));
                    }
                }
                assert forall|other: (u64, Seq<char>, Seq<char>)| #[trigger]
                    q.subscriptions.contains_key(other) implies subscription_filed(q, other) by {
                    if other != sub {
                        assert(r.subscriptions.contains_key(other));
                        assert(subscription_filed(r, other));
                    }
                }
            }
        },
    }
}

/// The key of a reader follows normalized equality: with the same topic and
/// type, two sets of policies have the same key if and only if they are equal
/// in the normalized sense, in whatever order their policies stand.
pub proof fn law_reader_key_is_normalized_equality(
    topic_name: Seq<char>,
    typename: Seq<char>,
    a: Seq<QosPolicyView>,
    b: Seq<QosPolicyView>,
)
    ensures
        reader_key(topic_name, typename, a) == reader_key(topic_name, typename, b)
            <==> normalized_same(a, b),
{
}

/// Readers are shared: as long as a reader is there, any session that subscribes
/// to its topic and type with an equal QoS gets that reader. None is created,
/// released or lost, and the other readers are as they were.
pub proof fn law_readers_are_shared(
    r: ReaderRegistryView,
    id: u64,
    topic: TopicEntityView,
    qos: Seq<QosPolicyView>,
    s: u64,
    created: i32,
)
    requires
        readers_consistent(r),
        r.readers.contains_key(id),
        r.readers[id].topic.topic_name == topic.topic_name,
        r.readers[id].topic.typename == topic.typename,
        normalized_same(r.readers[id].qos_normalized, qos),
    ensures
        ({
            let (given, q) = r.subscribe(topic, qos, s, created);
            &&& given == Ok::<u64, DdsErrorView>(id)
            &&& q.readers == r.readers.insert(id, r.readers[id].joined(s))
            &&& q.readers.dom() == r.readers.dom()
            &&& q.keys == r.keys
            &&& q.released == r.released
            &&& q.next_reader_id == r.next_reader_id
        }),
{
    assert(reader_filed(r, id));
    assert(key_of(r.readers[id]) == reader_key(topic.topic_name, topic.typename, qos));
    let q = r.subscribe(topic, qos, s, created).1;
    assert(q.readers.dom() =~= r.readers.dom());
}

/// Only an equal QoS shares a reader: where a subscription gets a reader that
/// was there, it is on that topic and type, and its QoS is equal.
pub proof fn law_only_equal_qos_shares(
    r: ReaderRegistryView,
    topic: TopicEntityView,
    qos: Seq<QosPolicyView>,
    s: u64,
    created: i32,
)
    requires
        readers_consistent(r),
        !r.readers.contains_key(r.next_reader_id),
    ensures
        r.subscribe(topic, qos, s, created).0 matches Ok(id) ==> r.readers.contains_key(id) ==> {
            &&& r.readers[id].topic.topic_name == topic.topic_name
            &&& r.readers[id].topic.typename == topic.typename
            &&& normalized_same(r.readers[id].qos_normalized, qos)
        },
{
    law_subscribe(r, topic, qos, s, created);
}

/// While a reader is there, its topic, its QoS and its handle stay: no
/// subscription, no end of one and no end of a session changes them.
pub proof fn law_readers_keep_topic_and_qos(
    r: ReaderRegistryView,
    topic: TopicEntityView,
    qos: Seq<QosPolicyView>,
    s: u64,
    created: i32,
    ended: ReaderRegistryView,
    id: u64,
)
    requires
        !r.readers.contains_key(r.next_reader_id),
        r.readers.contains_key(id),
        r.session_removed(s, ended),
    ensures
        ({
            let subscribed = r.subscribe(topic, qos, s, created).1;
            let left = r.unsubscribe(topic.topic_name, topic.typename, s).1;
            &&& subscribed.readers.contains_key(id) && same_reader(
                subscribed.readers[id],
                r.readers[id],
            )
            &&& left.readers.contains_key(id) ==> same_reader(left.readers[id], r.readers[id])
            &&& ended.readers.contains_key(id) ==> same_reader(ended.readers[id], r.readers[id])
        }),
{
}

/// Whether two values are of one reader, with its subscribers at two times.
pub open spec fn same_reader(a: ReaderView, b: ReaderView) -> bool {
    a == (ReaderView { subscribers: a.subscribers, ..b })
}

/// The end of a subscription keeps the registry consistent. It is found if and
/// only if the session has subscribed to that topic and type; the session is
/// then no subscriber of that reader any more, and the reader goes, and is
/// released, if and only if it had no other subscriber.
pub proof fn law_unsubscribe(
    r: ReaderRegistryView,
    topic_name: Seq<char>,
    typename: Seq<char>,
    s: u64,
)
    requires
        readers_consistent(r),
    ensures
        readers_consistent(r.unsubscribe(topic_name, typename, s).1),
        r.unsubscribe(topic_name, typename, s).0 <==> r.subscriptions.contains_key(
            (s, topic_name, typename),
        ),
        r.unsubscribe(topic_name, typename, s).0 ==> {
            let id = r.subscriptions[(s, topic_name, typename)];
            let q = r.unsubscribe(topic_name, typename, s).1;
            &&& q.readers.contains_key(id) <==> !r.only_for(id, s)
            &&& q.readers.contains_key(id) ==> !q.readers[id].subscribers.contains(s)
            &&& q.released == if r.only_for(id, s) {
                r.released.push(r.readers[id].handle)
            } else {
                r.released
            }
            &&& !q.subscriptions.contains_key((s, topic_name, typename))
        },
{
    let sub = (s, topic_name, typename);
    let q = r.unsubscribe(topic_name, typename, s).1;
    if r.subscriptions.contains_key(sub) {
        assert(subscription_filed(r, sub));
        let id = r.subscriptions[sub];
        let reader = r.readers[id].left(s);
        lemma_only_subscriber(r.readers[id].subscribers, s);
        assert(reader.subscribers == Set::<u64>::empty() <==> r.only_for(id, s));
        assert forall|other: u64| #[trigger] q.readers.contains_key(other) implies reader_filed(
            q,
            other,
        ) by {
            assert(r.readers.contains_key(other));
            assert(reader_filed(r, other));
            assert(key_of(q.readers[other]) == key_of(r.readers[other]));
        }
        assert forall|k: ReaderKeyView| #[trigger]
            q.keys.contains_key(k) implies q.readers.contains_key(q.keys[k]) && key_of(
            q.readers[q.keys[k]],
        ) == k by {
            assert(r.keys.contains_key(k));
        }
        assert forall|other: (u64, Seq<char>, Seq<char>)| #[trigger]
            q.subscriptions.contains_key(other) implies subscription_filed(q, other) by {
            assert(r.subscriptions.contains_key(other));
            assert(subscription_filed(r, other));
            if r.subscriptions[other] == id {
                assert(other.0 != s);
                assert(reader.subscribers.contains(other.0));
            }
        }
    }
}

/// When a session ends, no reader has it as a subscriber and it has no
/// subscription left. The readers that nobody else was subscribed to are gone;
/// those it was not subscribed to are as they were. The registry stays
/// consistent.
pub proof fn law_readers_of_ended_session(
    r: ReaderRegistryView,
    s: u64,
    q: ReaderRegistryView,
)
    requires
        readers_consistent(r),
        r.session_removed(s, q),
    ensures
        readers_consistent(q),
        forall|id: u64| #[trigger]
            q.readers.contains_key(id) ==> !q.readers[id].subscribers.contains(s),
        forall|sub: (u64, Seq<char>, Seq<char>)| #[trigger]
            q.subscriptions.contains_key(sub) ==> sub.0 != s,
        forall|id: u64| #[trigger]
            r.readers.contains_key(id) && !r.readers[id].subscribers.contains(s)
                ==> q.readers.contains_key(id) && q.readers[id] == r.readers[id],
        forall|id: u64| #[trigger]
            q.readers.contains_key(id) <==> r.readers.contains_key(id) && !r.only_for(id, s),
{
    assert forall|id: u64| #[trigger] q.readers.contains_key(id) implies reader_filed(q, id) by {
        assert(r.readers.contains_key(id));
        assert(reader_filed(r, id));
        assert(key_of(q.readers[id]) == key_of(r.readers[id]));
        lemma_only_subscriber(r.readers[id].subscribers, s);
        if q.readers[id].subscribers == Set::<u64>::empty() {
            if !r.readers[id].subscribers.contains(s) {
                assert(r.readers[id].subscribers =~= q.readers[id].subscribers);
            }
        }
    }
    assert forall|id: u64| #[trigger]
        r.readers.contains_key(id) && !r.readers[id].subscribers.contains(
            s,
        ) implies q.readers.contains_key(id) && q.readers[id] == r.readers[id] by {
        assert(set![s].contains(s));
        assert(r.readers[id].subscribers.remove(s) =~= r.readers[id].subscribers);
    }
    assert forall|k: ReaderKeyView| #[trigger]
        q.keys.contains_key(k) implies q.readers.contains_key(q.keys[k]) && key_of(
        q.readers[q.keys[k]],
    ) == k by {
        assert(r.keys.contains_key(k));
    }
    assert forall|sub: (u64, Seq<char>, Seq<char>)| #[trigger]
        q.subscriptions.contains_key(sub) implies subscription_filed(q, sub) by {
        assert(r.subscriptions.contains_key(sub));
        assert(subscription_filed(r, sub));
        let id = r.subscriptions[sub];
        assert(r.readers[id].subscribers.contains(sub.0));
        assert(!set![s].contains(sub.0));
        assert(!r.only_for(id, s));
    }
}

} // verus!
