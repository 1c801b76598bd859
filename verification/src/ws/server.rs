//! What the server decides of a connection.
use vstd::prelude::*;
use vstd::slice::slice_subrange;
use vstd::string::*;
use vstd::utf8::{encode_utf8, is_ascii_chars, is_ascii_chars_encode_utf8};

use crate::text::{
    bytes_eq, decimal, law_decimal_stands_for_its_number, push_decimal, text_value,
};

verus! {

/// The bytes that a health check starts with: "GET /health".
pub open spec fn health_request() -> Seq<u8> {
    seq![0x47u8, 0x45, 0x54, 0x20, 0x2F, 0x68, 0x65, 0x61, 0x6C, 0x74, 0x68]
}

/// Whether a connection that comes in is served, when `active` connections are
/// open.
pub fn admits(active: usize, max_connections: usize) -> (admitted: bool)
    ensures
        admitted == (active < max_connections),
        admitted == (ConnectionsView { active: active as nat, max: max_connections as nat }).has_room(),
{
    active < max_connections
}

/// Whether bytes start as a health check does.
pub open spec fn starts_health_request(peeked: Seq<u8>) -> bool {
    peeked.len() >= 11 && peeked.take(11) == health_request()
}

/// Whether the first bytes of a connection are those of a health check.
pub fn is_health_request(peeked: &[u8]) -> (health: bool)
    ensures
        health == starts_health_request(peeked@),
{
    if peeked.len() < 11 {
        return false;
    }
    let start: [u8; 11] = [
        0x47, 0x45, 0x54, 0x20, 0x2F, 0x68, 0x65, 0x61, 0x6C, 0x74, 0x68,
    ];
    assert(start@ =~= health_request());
    bytes_eq(slice_subrange(peeked, 0, 11), &start)
}

/// The answer to a health check.
pub fn health_response() -> (text: &'static str)
    ensures
        text@ == "HTTP/1.1 200 OK\r\nContent-Length: 2\r\nConnection: close\r\n\r\nOK"@,
{
    "HTTP/1.1 200 OK\r\nContent-Length: 2\r\nConnection: close\r\n\r\nOK"
}

/// An address and a port, as a socket address is written.
pub open spec fn address_text(addr: Seq<char>, port: u16) -> Seq<char> {
    addr + ":"@ + decimal(port as nat)
}

/// The address that the server listens on.
pub fn listen_address(addr: &str, port: u16) -> (text: String)
    ensures
        text@ == address_text(addr@, port),
{
    let mut text = addr.to_owned();
    text.append(":");
    push_decimal(&mut text, port as u64);
    text
}

// ---------------------------------------------------------------------------
// Connections
// ---------------------------------------------------------------------------

/// What is done with a connection that comes in.
#[derive(Debug, Clone, Copy, PartialEq, Eq, Structural)]
pub enum Admission {
    /// It is closed, and nothing is written to it.
    Rejected,
    /// It is answered with [`health_response`] and closed.
    Health,
    /// It is served, and counts until it ends.
    Served,
}

/// The connections that are served.
pub struct Connections {
    active: usize,
    max: usize,
}

/// The mathematical value of [`Connections`].
#[verifier::ext_equal]
pub struct ConnectionsView {
    pub active: nat,
    pub max: nat,
}

impl View for Connections {
    type V = ConnectionsView;

    closed spec fn view(&self) -> ConnectionsView {
        ConnectionsView { active: self.active as nat, max: self.max as nat }
    }
}

impl ConnectionsView {
    /// Whether a connection that comes in now is not rejected.
    pub open spec fn has_room(self) -> bool {
        self.active < self.max
    }

    /// What is done with a connection that comes in and starts with the given
    /// bytes, and the connections after it. At the limit every connection is
    /// rejected. A health check does not count.
    pub open spec fn decide(self, peeked: Seq<u8>) -> (Admission, ConnectionsView) {
        if self.active >= self.max {
            (Admission::Rejected, self)
        } else if starts_health_request(peeked) {
            (Admission::Health, self)
        } else {
            (Admission::Served, ConnectionsView { active: self.active + 1, ..self })
        }
    }

    /// The connections when one that was served has ended.
    pub open spec fn one_less(self) -> ConnectionsView {
        if self.active > 0 {
            ConnectionsView { active: (self.active - 1) as nat, ..self }
        } else {
            self
        }
    }

    /// The connections after an event.
    pub open spec fn after(self, event: ConnectionEvent) -> ConnectionsView {
        match event {
            ConnectionEvent::Opened(peeked) => self.decide(peeked).1,
            ConnectionEvent::Closed => self.one_less(),
        }
    }

    /// The connections after a number of events.
    pub open spec fn after_all(self, events: Seq<ConnectionEvent>) -> ConnectionsView
        decreases events.len(),
    {
        if events.len() == 0 {
            self
        } else {
            self.after_all(events.drop_last()).after(events.last())
        }
    }
}

/// What happens to the connections of a server.
pub enum ConnectionEvent {
    /// A connection comes in and starts with these bytes.
    Opened(Seq<u8>),
    /// A connection that was served ends.
    Closed,
}

impl Connections {
    /// No connection is served, and at most `max` will be at a time.
    pub fn new(max: usize) -> (connections: Self)
        ensures
            connections@ == (ConnectionsView { active: 0, max: max as nat }),
    {
        Connections { active: 0, max }
    }

    /// Whether a connection that comes in now is not rejected.
    pub fn has_room(&self) -> (room: bool)
        ensures
            room == (self@.active < self@.max),
            room == self@.has_room(),
    {
        admits(self.active, self.max)
    }

    /// Decides on a connection that starts with the given bytes, and counts it
    /// if it is served.
    pub fn decide(&mut self, peeked: &[u8]) -> (admission: Admission)
        ensures
            (admission, final(self)@) == old(self)@.decide(peeked@),
    {
        if !self.has_room() {
            Admission::Rejected
        } else if is_health_request(peeked) {
            Admission::Health
        } else {
            self.active = self.active + 1;
            Admission::Served
        }
    }

    /// A connection that was served has ended.
    pub fn connection_ended(&mut self)
        ensures
            final(self)@ == old(self)@.one_less(),
    {
        if self.active > 0 {
            self.active = self.active - 1;
        }
    }
}

/// How many of the connections that came in were served.
pub open spec fn served(start: ConnectionsView, events: Seq<ConnectionEvent>) -> nat
    decreases events.len(),
{
    if events.len() == 0 {
        0
    } else {
        let before = events.drop_last();
        served(start, before) + match events.last() {
            ConnectionEvent::Opened(peeked) => if start.after_all(before).decide(peeked).0
                == Admission::Served {
                1nat
            } else {
                0nat
            },
            ConnectionEvent::Closed => 0nat,
        }
    }
}

/// How many connections have ended.
pub open spec fn ended(events: Seq<ConnectionEvent>) -> nat
    decreases events.len(),
{
    if events.len() == 0 {
        0
    } else {
        ended(events.drop_last()) + if events.last() is Closed {
            1nat
        } else {
            0nat
        }
    }
}

/// At every moment at most as many connections are served as the limit says:
/// whatever comes in and ends, as long as only served connections end, those
/// that were served and have not ended are counted, and there are no more of
/// them than `max`.
pub proof fn law_connections_stay_within_the_limit(max: usize, events: Seq<ConnectionEvent>)
    requires
        forall|n: int|
            0 <= n <= events.len() ==> #[trigger] ended(events.take(n)) <= served(
                ConnectionsView { active: 0, max: max as nat },
                events.take(n),
            ),
    ensures
        ({
            let start = ConnectionsView { active: 0, max: max as nat };
            &&& start.after_all(events).active == served(start, events) - ended(events)
            &&& start.after_all(events).active <= max
            &&& start.after_all(events).max == max
        }),
    decreases events.len(),
{
    let start = ConnectionsView { active: 0, max: max as nat };
    if events.len() > 0 {
        let before = events.drop_last();
        assert forall|n: int| 0 <= n <= before.len() implies #[trigger] ended(before.take(n))
            <= served(start, before.take(n)) by {
            assert(before.take(n) =~= events.take(n));
            assert(ended(events.take(n)) <= served(start, events.take(n)));
        }
        law_connections_stay_within_the_limit(max, before);
        assert(events.take(events.len() as int) =~= events);
        assert(ended(events.take(events.len() as int)) <= served(start, events));
    }
}

/// A connection that comes in at the limit is rejected and changes nothing, and
/// a health check is never counted.
pub proof fn law_rejected_and_health_do_not_count(c: ConnectionsView, peeked: Seq<u8>)
    ensures
        c.active >= c.max <==> c.decide(peeked).0 == Admission::Rejected,
        c.has_room() <==> c.decide(peeked).0 != Admission::Rejected,
        c.decide(peeked).0 != Admission::Served ==> c.decide(peeked).1 == c,
        starts_health_request(peeked) ==> c.decide(peeked).1 == c,
        starts_health_request(peeked) && c.active < c.max ==> c.decide(peeked).0
            == Admission::Health,
{
}

/// A connection is served if and only if there is room for one more and it is no
/// health check; it then counts as one, until it ends.
pub proof fn law_served_connections_count_as_one(c: ConnectionsView, peeked: Seq<u8>)
    ensures
        c.decide(peeked).0 == Admission::Served <==> c.active < c.max && !starts_health_request(
            peeked,
        ),
        c.decide(peeked).0 == Admission::Served ==> c.decide(peeked).1.active == c.active + 1,
        c.decide(peeked).0 == Admission::Served ==> c.decide(peeked).1.one_less() == c,
        c.decide(peeked).1.max == c.max,
{
}

/// A health check starts with the bytes of "GET /health", and what follows them
/// does not count.
pub proof fn law_health_checks_start_with_their_path(peeked: Seq<u8>, rest: Seq<u8>)
    ensures
        starts_health_request(encode_utf8("GET /health"@) + rest),
        starts_health_request(peeked) ==> peeked.take(11) == encode_utf8("GET /health"@),
        peeked.len() < 11 ==> !starts_health_request(peeked),
        peeked.len() >= 11 ==> starts_health_request(peeked + rest) == starts_health_request(
            peeked,
        ),
{
    reveal_strlit("GET /health");
    let text = "GET /health"@;
    let path = encode_utf8(text);
    assert(is_ascii_chars(text));
    is_ascii_chars_encode_utf8(text);
    assert(text[0] == 'G' && text[1] == 'E' && text[2] == 'T' && text[3] == ' ');
    assert(text[4] == '/' && text[5] == 'h' && text[6] == 'e' && text[7] == 'a');
    assert(text[8] == 'l' && text[9] == 't' && text[10] == 'h');
    assert(path =~= health_request());
    assert((path + rest).take(11) =~= path);
    if peeked.len() >= 11 {
        assert((peeked + rest).take(11) =~= peeked.take(11));
    }
}

/// An address is written as the host, a colon and the port in decimal.
pub proof fn law_addresses_name_host_and_port(addr: Seq<char>, port: u16)
    ensures
        ({
            let text = address_text(addr, port);
            let n = addr.len() as int;
            &&& text.take(n) == addr
            &&& text[n] == ':'
            &&& text_value(text.skip(n + 1), 10) == port
        }),
{
    reveal_strlit(":");
    let text = address_text(addr, port);
    let n = addr.len() as int;
    law_decimal_stands_for_its_number(port as nat);
    assert(text.take(n) =~= addr);
    assert(text.skip(n + 1) =~= decimal(port as nat));
}

} // verus!
