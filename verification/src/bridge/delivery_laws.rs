//! What delivery is for: what was taken from DDS reaches the clients as it was.
use vstd::prelude::*;

use crate::bridge::buffer::{
    count_drop, overflow_notice, overflow_text, BufferView, DroppedView, OutboundView,
};
use crate::bridge::reply::{
    deliverable, delivery, law_delivery_is_read, law_delivery_is_unsolicited,
};
use crate::bridge::state::{outbound_of, taken_fits, BridgeView};
use crate::dds::reader::{
    forwarded, forwarding, law_samples_taken, positive_first, InstanceState, MAX_SAMPLES,
    ReceivedSampleView, TakenSample, TakingView,
};
use crate::protocol::codec::string_fits;
use crate::protocol::error::ProtocolErrorView;
use crate::protocol::header::{spec_parse_header, MsgType};
use crate::protocol::payload::{
    sample_bytes, spec_parse_no_writers, spec_parse_sample, NoWritersView, SampleView,
};
use crate::text::decimal;
use crate::wire::buffer_limit;

verus! {

broadcast use crate::wire::group_le_lengths;

// ---------------------------------------------------------------------------
// What is forwarded
// ---------------------------------------------------------------------------

/// A sample that was taken is forwarded if and only if it has data or tells that
/// an instance was disposed, state 2, or has lost its writers, state 4. Whatever
/// its state, it carries the bytes and the time that were taken, under the name
/// of the topic.
pub proof fn law_forwarded_samples_are_unchanged(topic_name: Seq<char>, taken: TakenSample)
    ensures
        forwarding(topic_name)(taken) == forwarded(topic_name, taken),
        forwarded(topic_name, taken) is Some <==> taken.valid_data || taken.instance_state == 2
            || taken.instance_state == 4,
        forwarded(topic_name, taken) matches Some(sample) ==> {
            &&& sample.topic_name == topic_name
            &&& sample.data == taken.data@
            &&& sample.source_timestamp == taken.source_timestamp
            &&& taken.instance_state == 2 <==> sample.instance_state == InstanceState::Disposed
            &&& taken.instance_state == 4 <==> sample.instance_state == InstanceState::NoWriters
        },
{
}

/// Samples are forwarded one by one, in the order in which they were taken, and
/// none depends on another.
pub proof fn law_samples_are_forwarded_in_order(
    topic_name: Seq<char>,
    before: Seq<TakenSample>,
    taken: TakenSample,
)
    ensures
        Seq::<TakenSample>::empty().filter_map(forwarding(topic_name)) == Seq::<
            ReceivedSampleView,
        >::empty(),
        before.push(taken).filter_map(forwarding(topic_name)) == before.filter_map(
            forwarding(topic_name),
        ) + (match forwarded(topic_name, taken) {
            Some(sample) => seq![sample],
            None => seq![],
        }),
{
    reveal(Seq::filter_map);
    assert(before.push(taken).drop_last() =~= before);
    assert(before.push(taken).last() == taken);
    let f = forwarding(topic_name);
    assert(f(taken) == forwarded(topic_name, taken));
    assert(before.push(taken).filter_map(f) =~= before.filter_map(f) + (match forwarded(
        topic_name,
        taken,
    ) {
        Some(sample) => seq![sample],
        None => seq![],
    }));
}

// ---------------------------------------------------------------------------
// What is sent
// ---------------------------------------------------------------------------

/// Whether a message delivers a sample that was taken: it is unsolicited, of the
/// type that the state of the instance asks for, and a client reads from it the
/// topic, the bytes and, but for DATA_NO_WRITERS, the time, modulo 2^64.
pub open spec fn delivers(msg: Seq<u8>, topic_name: Seq<char>, taken: TakenSample) -> bool {
    &&& spec_parse_header(msg) matches Ok(h) && h.request_id == 0 && h.version == 1 && h.msg_type
        == (if taken.instance_state == 2 {
        MsgType::DataDisposed
    } else if taken.instance_state == 4 {
        MsgType::DataNoWriters
    } else {
        MsgType::Data
    })
    &&& taken.instance_state == 4 ==> spec_parse_no_writers(msg.skip(12)) == Ok::<
        NoWritersView,
        ProtocolErrorView,
    >(NoWritersView { topic_name, key_data: taken.data@ })
    &&& taken.instance_state != 4 ==> (spec_parse_sample(msg.skip(12)) matches Ok(sample)
        && sample.topic_name == topic_name && sample.data == taken.data@ && (
    sample.source_timestamp - taken.source_timestamp) % 0x1_0000_0000_0000_0000 == 0)
}

/// The message for a sample delivers it.
pub proof fn law_sample_is_delivered(topic_name: Seq<char>, taken: TakenSample)
    requires
        string_fits(topic_name),
    ensures
        forwarded(topic_name, taken) matches Some(sample) ==> delivers(
            delivery(sample),
            topic_name,
            taken,
        ),
{
    if let Some(sample) = forwarded(topic_name, taken) {
        law_delivery_is_unsolicited(sample);
        law_delivery_is_read(sample);
    }
}

/// Each message that is put into a buffer is that of its sample, under the topic
/// of the sample, in the order of the samples.
pub proof fn law_messages_are_those_of_the_samples(samples: Seq<ReceivedSampleView>)
    ensures
        outbound_of(samples).len() == samples.len(),
        forall|i: int|
            0 <= i < samples.len() ==> (#[trigger] outbound_of(samples)[i]).data == delivery(
                samples[i],
            ) && outbound_of(samples)[i].topic_name == samples[i].topic_name,
{
}

/// From DDS to the client: a sample that is taken from a reader while a session
/// is subscribed to it, and has nothing waiting, is what that session is sent
/// next; one that only tells that an instance is alive brings nothing. A session
/// that is not subscribed is sent nothing.
pub proof fn law_taken_sample_reaches_the_client(
    b: BridgeView,
    reader_id: u64,
    session_id: u64,
    taken: TakenSample,
)
    requires
        b.readers.readers.contains_key(reader_id),
        string_fits(b.readers.readers[reader_id].topic.topic_name),
        b.buffers.contains_key(session_id),
        b.buffers[session_id].capacity > 0,
        b.buffers[session_id].queue.len() == 0,
        b.buffers[session_id].dropped.len() == 0,
    ensures
        ({
            let reader = b.readers.readers[reader_id];
            let after = b.delivered(reader_id, seq![taken]);
            let (next, rest) = after.next_outbound(session_id);
            let sent = reader.subscribers.contains(session_id) && (taken.valid_data
                || taken.instance_state == 2 || taken.instance_state == 4);
            &&& sent ==> (next matches Some(msg) && delivers(
                msg,
                reader.topic.topic_name,
                taken,
            ))
            &&& !sent ==> next is None
            &&& rest.next_outbound(session_id).0 is None
        }),
{
    let reader = b.readers.readers[reader_id];
    let topic_name = reader.topic.topic_name;
    let none = Seq::<TakenSample>::empty();
    law_samples_are_forwarded_in_order(topic_name, none, taken);
    law_forwarded_samples_are_unchanged(topic_name, taken);
    law_sample_is_delivered(topic_name, taken);
    assert(none.push(taken) =~= seq![taken]);
    let samples = seq![taken].filter_map(forwarding(topic_name));
    let messages = outbound_of(samples);
    let buffer = b.buffers[session_id];
    match forwarded(topic_name, taken) {
        Some(sample) => {
            assert(samples =~= seq![sample]);
            assert(messages.drop_last() =~= Seq::<OutboundView>::empty());
            assert(messages.last().data == delivery(sample));
            assert(buffer.push_all(messages.drop_last()) == buffer);
            let pushed = buffer.push_all(messages);
            assert(pushed == buffer.push(messages.last()));
            assert(pushed.queue =~= seq![messages.last()]);
            assert(pushed.pop().1.queue =~= Seq::<OutboundView>::empty());
        },
        None => {
            assert(samples =~= Seq::<ReceivedSampleView>::empty());
            assert(messages =~= Seq::<OutboundView>::empty());
        },
    }
}

/// Delivering two lots of samples one after the other is delivering them at
/// once.
pub proof fn law_delivery_in_two_lots(
    b: BridgeView,
    reader_id: u64,
    first: Seq<TakenSample>,
    second: Seq<TakenSample>,
)
    ensures
        b.delivered(reader_id, first).delivered(reader_id, second) == b.delivered(
            reader_id,
            first + second,
        ),
    decreases second.len(),
{
    if b.readers.readers.contains_key(reader_id) {
        let topic_name = b.readers.readers[reader_id].topic.topic_name;
        let f = forwarding(topic_name);
        let b1 = b.delivered(reader_id, first);
        lemma_forwarded_join(topic_name, first, second);
        assert forall|s: u64| b.buffers.contains_key(s) implies (
        #[trigger] b.buffers[s]).push_all(outbound_of(first.filter_map(f))).push_all(
            outbound_of(second.filter_map(f)),
        ) == b.buffers[s].push_all(outbound_of((first + second).filter_map(f))) by {
            lemma_push_all_twice(
                b.buffers[s],
                outbound_of(first.filter_map(f)),
                outbound_of(second.filter_map(f)),
            );
            assert(outbound_of(first.filter_map(f)) + outbound_of(second.filter_map(f))
                =~= outbound_of((first + second).filter_map(f)));
        }
        assert(b1.delivered(reader_id, second).buffers =~= b.delivered(
            reader_id,
            first + second,
        ).buffers);
    }
}

proof fn lemma_forwarded_join(
    topic_name: Seq<char>,
    first: Seq<TakenSample>,
    second: Seq<TakenSample>,
)
    ensures
        (first + second).filter_map(forwarding(topic_name)) == first.filter_map(
            forwarding(topic_name),
        ) + second.filter_map(forwarding(topic_name)),
    decreases second.len(),
{
    let f = forwarding(topic_name);
    if second.len() == 0 {
        law_samples_are_forwarded_in_order(topic_name, first, arbitrary());
        assert(second =~= Seq::<TakenSample>::empty());
        assert(first + second =~= first);
        assert(first.filter_map(f) + second.filter_map(f) =~= first.filter_map(f));
    } else {
        let most = second.drop_last();
        let last = second.last();
        lemma_forwarded_join(topic_name, first, most);
        assert(second =~= most.push(last));
        assert(first + second =~= (first + most).push(last));
        law_samples_are_forwarded_in_order(topic_name, first + most, last);
        law_samples_are_forwarded_in_order(topic_name, most, last);
        assert((first + second).filter_map(f) =~= first.filter_map(f) + second.filter_map(f));
    }
}

proof fn lemma_push_all_twice(b: BufferView, first: Seq<OutboundView>, second: Seq<OutboundView>)
    ensures
        b.push_all(first).push_all(second) == b.push_all(first + second),
    decreases second.len(),
{
    if second.len() == 0 {
        assert(first + second =~= first);
    } else {
        lemma_push_all_twice(b, first, second.drop_last());
        assert((first + second).drop_last() =~= first + second.drop_last());
        assert((first + second).last() == second.last());
    }
}

/// A session that is registered has an empty buffer of the configured size, and
/// is sent nothing; the other sessions, the readers and the writers are as they
/// were.
pub proof fn law_new_session_waits_for_nothing(b: BridgeView, session_id: u64)
    ensures
        ({
            let after = b.session_registered(session_id);
            &&& after.buffers.contains_key(session_id)
            &&& after.buffers[session_id].capacity == b.config.session_buffer_size
            &&& after.next_outbound(session_id).0 is None
            &&& forall|s: u64|
                s != session_id && #[trigger] b.buffers.contains_key(s)
                    ==> after.buffers.contains_key(s) && after.buffers[s] == b.buffers[s]
            &&& forall|s: u64| #[trigger]
                after.buffers.contains_key(s) ==> s == session_id || b.buffers.contains_key(s)
            &&& after.readers == b.readers
            &&& after.writers == b.writers
            &&& after.participant == b.participant
            &&& after.config == b.config
        }),
{
}

/// What is sent to a session is taken off its own buffer: nothing else changes,
/// and a session that is not registered is sent nothing.
pub proof fn law_sending_touches_one_session(b: BridgeView, session_id: u64)
    ensures
        ({
            let (next, after) = b.next_outbound(session_id);
            &&& !b.buffers.contains_key(session_id) ==> next is None && after == b
            &&& b.buffers.contains_key(session_id) ==> next == b.buffers[session_id].pop().0
                && after.buffers[session_id] == b.buffers[session_id].pop().1
            &&& forall|s: u64|
                s != session_id ==> (#[trigger] after.buffers.contains_key(s)
                    <==> b.buffers.contains_key(s))
            &&& forall|s: u64|
                s != session_id && #[trigger] b.buffers.contains_key(s) ==> after.buffers[s]
                    == b.buffers[s]
            &&& after.readers == b.readers
            &&& after.writers == b.writers
            &&& after.participant == b.participant
            &&& after.config == b.config
        }),
{
}

// ---------------------------------------------------------------------------
// What is dropped
// ---------------------------------------------------------------------------

/// How many messages of a topic have been dropped since the session was told.
pub open spec fn dropped_of(dropped: Seq<DroppedView>, topic_name: Seq<char>) -> int
    decreases dropped.len(),
{
    if dropped.len() == 0 {
        0
    } else {
        dropped_of(dropped.drop_first(), topic_name) + if dropped[0].topic_name == topic_name {
            dropped[0].count as int
        } else {
            0
        }
    }
}

/// A dropped message is counted for its own topic, once, and for no other.
pub proof fn law_drops_are_counted_by_topic(
    dropped: Seq<DroppedView>,
    topic_name: Seq<char>,
    other: Seq<char>,
)
    requires
        forall|i: int| 0 <= i < dropped.len() ==> (#[trigger] dropped[i]).count < u64::MAX,
    ensures
        dropped_of(count_drop(dropped, topic_name), topic_name) == dropped_of(dropped, topic_name)
            + 1,
        other != topic_name ==> dropped_of(count_drop(dropped, topic_name), other) == dropped_of(
            dropped,
            other,
        ),
    decreases dropped.len(),
{
    reveal_with_fuel(dropped_of, 2);
    let after = count_drop(dropped, topic_name);
    if dropped.len() == 0 {
        assert(after.drop_first() =~= Seq::<DroppedView>::empty());
    } else {
        let rest = dropped.drop_first();
        assert(dropped[0].count < u64::MAX);
        if dropped[0].topic_name == topic_name {
            assert(after.drop_first() =~= rest);
        } else {
            assert forall|i: int| 0 <= i < rest.len() implies (#[trigger] rest[i]).count
                < u64::MAX by {
                assert(rest[i] == dropped[i + 1]);
            }
            law_drops_are_counted_by_topic(rest, topic_name, other);
            assert(after.drop_first() =~= count_drop(rest, topic_name));
        }
    }
}

/// What a session is told of dropped messages names their number and their topic:
/// the number stands behind the first word, and the topic in quotes at the end.
pub proof fn law_overflow_text_names_number_and_topic(d: DroppedView)
    ensures
        ({
            let text = overflow_text(d);
            let number = decimal(d.count as nat);
            &&& text.subrange(8, 8 + number.len() as int) == number
            &&& text.subrange(
                text.len() - 1 - d.topic_name.len(),
                text.len() - 1,
            ) == d.topic_name
            &&& text.last() == '\''
            &&& text[text.len() - 2 - d.topic_name.len()] == '\''
        }),
{
    reveal_strlit("dropped ");
    reveal_strlit(" messages for topic '");
    reveal_strlit("'");
    let text = overflow_text(d);
    let number = decimal(d.count as nat);
    assert(text.subrange(8, 8 + number.len() as int) =~= number);
    assert(text.subrange(text.len() - 1 - d.topic_name.len(), text.len() - 1) =~= d.topic_name);
}

/// A sample is said to fit exactly when the payload that delivers it with its time
/// is one that a buffer can hold.
pub proof fn law_samples_that_fit(topic_name: Seq<char>, taken: TakenSample, time: u64)
    ensures
        taken_fits(topic_name, taken) <==> sample_bytes(
            SampleView { topic_name, source_timestamp: time, data: taken.data@ },
        ).len() <= buffer_limit(),
        forwarded(topic_name, taken) matches Some(sample) ==> deliverable(sample) == taken_fits(
            topic_name,
            taken,
        ),
{
}

/// The count of dropped messages of a topic goes up by one, and stops at the
/// largest value; topics are told in the order in which they were first dropped.
pub proof fn law_counts_of_drops_stop_at_the_largest(
    dropped: Seq<DroppedView>,
    topic_name: Seq<char>,
    at: int,
)
    requires
        0 <= at < dropped.len(),
        dropped[at].topic_name == topic_name,
        forall|i: int| 0 <= i < at ==> (#[trigger] dropped[i]).topic_name != topic_name,
    ensures
        ({
            let after = count_drop(dropped, topic_name);
            &&& after.len() == dropped.len()
            &&& after[at].topic_name == topic_name
            &&& after[at].count == if dropped[at].count == u64::MAX {
                u64::MAX as int
            } else {
                dropped[at].count + 1
            }
            &&& forall|i: int| 0 <= i < dropped.len() && i != at ==> #[trigger] after[i]
                == dropped[i]
        }),
    decreases dropped.len(),
{
    if at > 0 {
        let rest = dropped.drop_first();
        assert(dropped[0].topic_name != topic_name);
        assert forall|i: int| 0 <= i < at - 1 implies (#[trigger] rest[i]).topic_name
            != topic_name by {
            assert(rest[i] == dropped[i + 1]);
        }
        law_counts_of_drops_stop_at_the_largest(rest, topic_name, at - 1);
        let after = count_drop(dropped, topic_name);
        assert(after == seq![dropped[0]] + count_drop(rest, topic_name));
        assert forall|i: int| 0 <= i < dropped.len() && i != at implies #[trigger] after[i]
            == dropped[i] by {
            if i > 0 {
                assert(after[i] == count_drop(rest, topic_name)[i - 1]);
                assert(rest[i - 1] == dropped[i]);
            }
        }
        assert(after[at] == count_drop(rest, topic_name)[at - 1]);
    }
}

/// A session is told of what was dropped before it gets what waits; a notice that
/// cannot be sent is passed over, and does not hold up what comes behind it.
pub proof fn law_notices_come_first(b: BufferView)
    ensures
        b.dropped.len() > 0 ==> {
            let rest = BufferView { dropped: b.dropped.drop_first(), ..b };
            match overflow_notice(b.dropped[0]) {
                Some(notice) => b.pop() == (Some(notice), rest),
                None => b.pop() == rest.pop(),
            }
        },
        b.dropped.len() == 0 && b.queue.len() > 0 ==> {
            &&& b.pop().0 == Some(b.queue[0].data)
            &&& b.pop().1.queue == b.queue.skip(1)
            &&& b.pop().1.capacity == b.capacity
            &&& b.pop().1.dropped.len() == 0
        },
        b.dropped.len() == 0 && b.queue.len() == 0 ==> b.pop() == (None::<Seq<u8>>, b),
{
    if b.queue.len() > 0 {
        assert(b.queue.drop_first() =~= b.queue.skip(1));
    }
}

// ---------------------------------------------------------------------------
// How many samples are taken
// ---------------------------------------------------------------------------

/// Each time its turn comes, a reader gives 256 samples at most, however many it
/// has, and all of them where it has fewer.
pub proof fn law_turns_of_readers_are_bounded(codes: Seq<i32>)
    ensures
        ({
            let t = TakingView::start(MAX_SAMPLES as nat).returned_all(codes);
            &&& t.taken <= 256
            &&& (forall|i: int| 0 <= i < codes.len() ==> #[trigger] codes[i] > 0) ==> t.taken == (
            if codes.len() <= 256 {
                codes.len()
            } else {
                256
            })
        }),
{
    law_samples_taken(256, codes);
    if forall|i: int| 0 <= i < codes.len() ==> #[trigger] codes[i] > 0 {
        lemma_all_positive(codes);
    }
}

proof fn lemma_all_positive(codes: Seq<i32>)
    requires
        forall|i: int| 0 <= i < codes.len() ==> #[trigger] codes[i] > 0,
    ensures
        positive_first(codes) == codes.len(),
    decreases codes.len(),
{
    if codes.len() > 0 {
        let rest = codes.drop_first();
        assert(codes[0] > 0);
        assert forall|i: int| 0 <= i < rest.len() implies #[trigger] rest[i] > 0 by {
            assert(rest[i] == codes[i + 1]);
        }
        lemma_all_positive(rest);
    }
}

/// A take has brought a sample if and only if the taking had not come to its end
/// and the code is positive; it is then counted, and any other code ends the
/// taking.
pub proof fn law_takes_that_bring_a_sample(t: TakingView, rc: i32)
    ensures
        t.goes_on() <==> !t.stopped && t.taken < t.max,
        t.returned(rc).0 <==> t.goes_on() && rc > 0,
        t.returned(rc).0 <==> t.returned(rc).1.taken == t.taken + 1,
        !t.returned(rc).0 ==> t.returned(rc).1.taken == t.taken,
        !t.returned(rc).0 ==> !t.returned(rc).1.goes_on(),
        t.returned(rc).1.max == t.max,
{
}

} // verus!
