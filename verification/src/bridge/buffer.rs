//! The bounded buffer of messages that wait to be sent to a session.
use std::collections::VecDeque;

use vstd::prelude::*;
use vstd::string::*;

use crate::bridge::reply::{
    error_reply, law_error_reply_is_read, make_error_response, optional_bytes,
};
use crate::protocol::codec::string_fits;
use crate::protocol::error::ProtocolErrorView;
use crate::protocol::header::{spec_parse_header, MsgType};
use crate::protocol::payload::{spec_parse_error, ErrorCode, ErrorPayloadView};
use crate::text::{decimal, push_decimal};

verus! {

/// Message sent from the bridge to a client session, and the topic that it is
/// about.
#[derive(Debug)]
pub struct OutboundMessage {
    pub topic_name: String,
    pub data: Vec<u8>,
}

/// The mathematical value of an [`OutboundMessage`].
#[verifier::ext_equal]
pub struct OutboundView {
    pub topic_name: Seq<char>,
    pub data: Seq<u8>,
}

impl View for OutboundMessage {
    type V = OutboundView;

    open spec fn view(&self) -> OutboundView {
        OutboundView { topic_name: self.topic_name@, data: self.data@ }
    }
}

/// How many messages about a topic have been dropped.
#[derive(Debug)]
pub struct Dropped {
    pub topic_name: String,
    pub count: u64,
}

/// The mathematical value of [`Dropped`].
#[verifier::ext_equal]
pub struct DroppedView {
    pub topic_name: Seq<char>,
    pub count: u64,
}

impl View for Dropped {
    type V = DroppedView;

    open spec fn view(&self) -> DroppedView {
        DroppedView { topic_name: self.topic_name@, count: self.count }
    }
}

/// The values of the messages in a queue.
pub open spec fn outbound_views(queue: Seq<OutboundMessage>) -> Seq<OutboundView> {
    queue.map_values(|m: OutboundMessage| m@)
}

/// The values of a list of dropped messages.
pub open spec fn dropped_views(dropped: Seq<Dropped>) -> Seq<DroppedView> {
    dropped.map_values(|d: Dropped| d@)
}

/// The messages that wait to be sent to a session. When it is full, the oldest
/// message makes room for a new one, and the session is told.
pub struct SessionBuffer {
    capacity: usize,
    queue: VecDeque<OutboundMessage>,
    dropped: Vec<Dropped>,
}

/// The mathematical value of a [`SessionBuffer`].
#[verifier::ext_equal]
pub struct BufferView {
    /// How many messages the buffer holds at most.
    pub capacity: usize,
    /// The messages that wait, the oldest first.
    pub queue: Seq<OutboundView>,
    /// What has been dropped since the session was told.
    pub dropped: Seq<DroppedView>,
}

impl View for SessionBuffer {
    type V = BufferView;

    closed spec fn view(&self) -> BufferView {
        BufferView {
            capacity: self.capacity,
            queue: outbound_views(self.queue@),
            dropped: dropped_views(self.dropped@),
        }
    }
}

/// One more message about a topic that has been dropped. The count stops at
/// its largest value.
pub open spec fn count_drop(dropped: Seq<DroppedView>, topic_name: Seq<char>) -> Seq<DroppedView>
    decreases dropped.len(),
{
    if dropped.len() == 0 {
        seq![DroppedView { topic_name, count: 1 }]
    } else if dropped[0].topic_name == topic_name {
        let count = if dropped[0].count == u64::MAX {
            u64::MAX
        } else {
            (dropped[0].count + 1) as u64
        };
        seq![DroppedView { topic_name, count }] + dropped.drop_first()
    } else {
        seq![dropped[0]] + count_drop(dropped.drop_first(), topic_name)
    }
}

/// The text that tells how many messages about a topic have been dropped.
pub open spec fn overflow_text(d: DroppedView) -> Seq<char> {
    "dropped "@ + decimal(d.count as nat) + " messages for topic '"@ + d.topic_name + "'"@
}

/// The message that tells of dropped messages. No request has asked for it, so
/// its request id is zero.
pub open spec fn overflow_notice(d: DroppedView) -> Option<Seq<u8>> {
    error_reply(0, ErrorCode::BufferOverflow, overflow_text(d))
}

impl BufferView {
    /// An empty buffer.
    pub open spec fn new(capacity: usize) -> BufferView {
        BufferView { capacity, queue: Seq::empty(), dropped: Seq::empty() }
    }

    /// Whether the buffer holds no more than it may.
    pub open spec fn bounded(self) -> bool {
        0 < self.capacity && self.queue.len() <= self.capacity
    }

    /// The buffer with one more message. Where it is full, the oldest message
    /// is dropped, and counted.
    pub open spec fn push(self, m: OutboundView) -> BufferView {
        if self.queue.len() < self.capacity {
            BufferView { queue: self.queue.push(m), ..self }
        } else {
            BufferView {
                queue: self.queue.drop_first().push(m),
                dropped: count_drop(self.dropped, self.queue[0].topic_name),
                ..self
            }
        }
    }

    /// The buffer with more messages.
    pub open spec fn push_all(self, messages: Seq<OutboundView>) -> BufferView
        decreases messages.len(),
    {
        if messages.len() == 0 {
            self
        } else {
            self.push_all(messages.drop_last()).push(messages.last())
        }
    }

    /// The next message to send, and the buffer after it. What has been dropped
    /// is told first; a notice that is too long to be read is left out.
    pub open spec fn pop(self) -> (Option<Seq<u8>>, BufferView)
        decreases self.dropped.len(),
    {
        if self.dropped.len() > 0 {
            let rest = BufferView { dropped: self.dropped.drop_first(), ..self };
            match overflow_notice(self.dropped[0]) {
                Some(notice) => (Some(notice), rest),
                None => rest.pop(),
            }
        } else if self.queue.len() > 0 {
            (Some(self.queue[0].data), BufferView { queue: self.queue.drop_first(), ..self })
        } else {
            (None, self)
        }
    }
}

/// Counts a dropped message.
fn add_drop(dropped: &mut Vec<Dropped>, topic_name: String)
    ensures
        dropped_views(final(dropped)@) == count_drop(dropped_views(old(dropped)@), topic_name@),
{
    let ghost all = dropped_views(dropped@);
    let mut i: usize = 0;
    assert(all.skip(0) =~= all);
    assert(all.take(0) + count_drop(all.skip(0), topic_name@) =~= count_drop(all, topic_name@));
    while i < dropped.len()
        invariant
            i <= dropped@.len(),
            all == dropped_views(dropped@),
            dropped@ == old(dropped)@,
            count_drop(all, topic_name@) == all.take(i as int) + count_drop(
                all.skip(i as int),
                topic_name@,
            ),
        decreases dropped@.len() - i,
    {
        let ghost left = all.skip(i as int);
        assert(left[0] == dropped@[i as int]@);
        assert(left.drop_first() =~= all.skip(i + 1));
        if dropped[i].topic_name == topic_name {
            let count: u64 = if dropped[i].count == u64::MAX {
                u64::MAX
            } else {
                dropped[i].count + 1
            };
            dropped[i] = Dropped { topic_name, count };
            assert(dropped_views(dropped@) =~= all.take(i as int) + count_drop(left, topic_name@));
            return;
        }
        proof {
            let rest = count_drop(all.skip(i + 1), topic_name@);
            assert(all.take(i as int) + (seq![left[0]] + rest) =~= all.take(i + 1) + rest);
        }
        i = i + 1;
    }
    proof {
        assert(all.take(i as int) =~= all);
        assert(all.skip(i as int) =~= Seq::<DroppedView>::empty());
    }
    dropped.push(Dropped { topic_name, count: 1 });
    assert(dropped_views(dropped@) =~= all + seq![DroppedView { topic_name: topic_name@, count: 1 }]);
}

/// The text that tells how many messages about a topic have been dropped.
fn overflow_message(d: &Dropped) -> (text: String)
    ensures
        text@ == overflow_text(d@),
{
    let mut text = "dropped ".to_owned();
    push_decimal(&mut text, d.count);
    text.append(" messages for topic '");
    text.append(d.topic_name.as_str());
    text.append("'");
    text
}

impl SessionBuffer {
    /// An empty buffer.
    pub fn new(capacity: usize) -> (buffer: Self)
        ensures
            buffer@ == BufferView::new(capacity),
    {
        let buffer = SessionBuffer { capacity, queue: VecDeque::new(), dropped: Vec::new() };
        assert(buffer@.queue =~= Seq::<OutboundView>::empty());
        assert(buffer@.dropped =~= Seq::<DroppedView>::empty());
        buffer
    }

    /// Adds a message. Where the buffer is full, the oldest message is dropped.
    pub fn push(&mut self, message: OutboundMessage)
        requires
            old(self)@.bounded(),
        ensures
            final(self)@ == old(self)@.push(message@),
            final(self)@.bounded(),
    {
        let ghost before = self.queue@;
        if self.queue.len() < self.capacity {
            self.queue.push_back(message);
            assert(outbound_views(self.queue@) =~= outbound_views(before).push(message@));
        } else {
            match self.queue.pop_front() {
                Some(oldest) => {
                    add_drop(&mut self.dropped, oldest.topic_name);
                },
                None => {},
            }
            self.queue.push_back(message);
            assert(outbound_views(self.queue@) =~= outbound_views(before).drop_first().push(
                message@,
            ));
        }
    }

    /// Takes the next message to send.
    pub fn pop(&mut self) -> (next: Option<Vec<u8>>)
        ensures
            (optional_bytes(next), final(self)@) == old(self)@.pop(),
            old(self)@.bounded() ==> final(self)@.bounded(),
    {
        while !self.dropped.is_empty()
            invariant
                self@.pop() == old(self)@.pop(),
                old(self)@.bounded() ==> self@.bounded(),
            decreases self.dropped@.len(),
        {
            let ghost before = self@;
            let d = self.dropped.remove(0);
            assert(self@.dropped =~= before.dropped.drop_first());
            assert(before.dropped[0] == d@);
            let text = overflow_message(&d);
            match make_error_response(0, ErrorCode::BufferOverflow, text.as_str()) {
                Some(notice) => {
                    return Some(notice);
                },
                None => {},
            }
        }
        let ghost before = self@;
        assert(before.dropped.len() == 0);
        match self.queue.pop_front() {
            Some(message) => {
                assert(self@.queue =~= before.queue.drop_first());
                assert(before.queue[0] == message@);
                Some(message.data)
            },
            None => {
                assert(self@ =~= before);
                None
            },
        }
    }
}

// ---------------------------------------------------------------------------
// Laws
// ---------------------------------------------------------------------------

/// How many messages have been dropped since the session was told.
pub open spec fn total_dropped(dropped: Seq<DroppedView>) -> int
    decreases dropped.len(),
{
    if dropped.len() == 0 {
        0
    } else {
        dropped[0].count + total_dropped(dropped.drop_first())
    }
}

proof fn lemma_count_drop(dropped: Seq<DroppedView>, topic_name: Seq<char>)
    requires
        forall|i: int| 0 <= i < dropped.len() ==> (#[trigger] dropped[i]).count < u64::MAX,
    ensures
        total_dropped(count_drop(dropped, topic_name)) == total_dropped(dropped) + 1,
    decreases dropped.len(),
{
    let after = count_drop(dropped, topic_name);
    if dropped.len() == 0 {
        assert(after.drop_first() =~= Seq::<DroppedView>::empty());
        assert(total_dropped(after.drop_first()) == 0);
    } else {
        let rest = dropped.drop_first();
        assert(dropped[0].count < u64::MAX);
        if dropped[0].topic_name == topic_name {
            assert(after.drop_first() =~= rest);
        } else {
            assert forall|i: int| 0 <= i < rest.len() implies (#[trigger] rest[i]).count
                < u64::MAX by {
                assert(rest[i] == dropped[i + 1]);
            }
            lemma_count_drop(rest, topic_name);
            assert(after.drop_first() =~= count_drop(rest, topic_name));
        }
    }
}

/// The buffer never holds more than it may, and the newest message is always
/// in it. A message is dropped only when the buffer is full; then it is the
/// oldest one, and it is counted, so that no message is lost without notice.
pub proof fn law_buffer_drops_oldest(b: BufferView, m: OutboundView)
    requires
        b.bounded(),
        forall|i: int| 0 <= i < b.dropped.len() ==> (#[trigger] b.dropped[i]).count < u64::MAX,
    ensures
        b.push(m).bounded(),
        b.push(m).queue.last() == m,
        b.queue.len() < b.capacity ==> b.push(m).queue == b.queue.push(m) && b.push(m).dropped
            == b.dropped,
        b.queue.len() == b.capacity ==> b.push(m).queue == b.queue.drop_first().push(m)
            && b.push(m).dropped == count_drop(b.dropped, b.queue[0].topic_name),
        b.push(m).queue.len() + total_dropped(b.push(m).dropped) == b.queue.len() + total_dropped(
            b.dropped,
        ) + 1,
{
    if b.queue.len() >= b.capacity {
        lemma_count_drop(b.dropped, b.queue[0].topic_name);
    }
}

/// Delivery continues with the messages that are left: once the session has
/// been told of what was dropped, the messages come in the order in which they
/// were added.
pub proof fn law_buffer_keeps_order(b: BufferView)
    requires
        b.dropped.len() == 0,
        b.queue.len() > 0,
    ensures
        b.pop().0 == Some(b.queue[0].data),
        b.pop().1.queue == b.queue.drop_first(),
        b.pop().1.dropped == b.dropped,
{
}

/// The newest of a list of messages, no more than `capacity`.
pub open spec fn newest(messages: Seq<OutboundView>, capacity: usize) -> Seq<OutboundView> {
    if messages.len() <= capacity {
        messages
    } else {
        messages.skip(messages.len() - capacity)
    }
}

/// However many messages come while none is sent, the newest ones wait, in
/// their order, and their number is bounded.
pub proof fn law_buffer_holds_the_newest(b: BufferView, messages: Seq<OutboundView>)
    requires
        b.bounded(),
    ensures
        b.push_all(messages).queue == newest(b.queue + messages, b.capacity),
        b.push_all(messages).capacity == b.capacity,
        b.push_all(messages).bounded(),
    decreases messages.len(),
{
    if messages.len() == 0 {
        assert(b.queue + messages =~= b.queue);
    } else {
        let before = messages.drop_last();
        law_buffer_holds_the_newest(b, before);
        let all = b.queue + messages;
        let most = b.queue + before;
        assert(all =~= most.push(messages.last()));
        assert(b.push_all(messages).queue =~= newest(all, b.capacity));
    }
}

/// A session is told of dropped messages before the messages that are left: an
/// unsolicited ERROR says BUFFER_OVERFLOW, how many messages were dropped and
/// for which topic. Each notice is given once.
pub proof fn law_drops_are_told(b: BufferView)
    requires
        b.dropped.len() > 0,
        string_fits(overflow_text(b.dropped[0])),
    ensures
        b.pop().0 matches Some(msg) && (spec_parse_header(msg) matches Ok(h) && h.msg_type
            == MsgType::Error && h.request_id == 0) && spec_parse_error(msg.skip(12)) == Ok::<
            ErrorPayloadView,
            ProtocolErrorView,
        >(
            ErrorPayloadView {
                error_code: ErrorCode::BufferOverflow,
                error_message: overflow_text(b.dropped[0]),
            },
        ),
        b.pop().1.dropped == b.dropped.drop_first(),
        b.pop().1.queue == b.queue,
{
    law_error_reply_is_read(0, ErrorCode::BufferOverflow, overflow_text(b.dropped[0]));
}

} // verus!
