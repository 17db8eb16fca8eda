//! Per-destination connection statistics.

use vstd::prelude::*;
use crate::table::KeyedTable;
use crate::text::{decimal, decimal_string, is_digit, lemma_decimal_digits};

verus! {

/// The counters kept for one destination.
#[derive(Debug, Default, Clone, Copy, PartialEq, Eq, Structural)]
pub struct DestinationStats {
    pub active_connection_count: u32,
    pub total_bytes_sent: u64,
    pub total_bytes_received: u64,
}

/// An event that the connection handlers report.
#[derive(Debug, Clone, PartialEq, Eq)]
pub enum ConnectionMessage {
    ConnectionStarted { host: String, port: u16 },
    ConnectionEnded { host: String, port: u16 },
    DataTransferred { host: String, port: u16, bytes_sent: u64, bytes_received: u64 },
}

/// The key that statistics are kept under: `host:port`, the port in decimal.
pub open spec fn destination_key(host: Seq<char>, port: u16) -> Seq<char> {
    host + seq![':'] + decimal(port as nat)
}

/// The key of the destination a message is about.
pub open spec fn message_key(message: ConnectionMessage) -> Seq<char> {
    match message {
        ConnectionMessage::ConnectionStarted { host, port } => destination_key(host@, port),
        ConnectionMessage::ConnectionEnded { host, port } => destination_key(host@, port),
        ConnectionMessage::DataTransferred { host, port, .. } => destination_key(host@, port),
    }
}

/// Counters that are all zero.
pub open spec fn zero_stats() -> DestinationStats {
    DestinationStats { active_connection_count: 0, total_bytes_sent: 0, total_bytes_received: 0 }
}

/// The counters of `key`, or zero counters when it has none yet.
pub open spec fn stats_or_zero(m: Map<Seq<char>, DestinationStats>, key: Seq<char>) -> DestinationStats {
    if m.dom().contains(key) {
        m[key]
    } else {
        zero_stats()
    }
}

/// Recording `message` overflows no counter.
pub open spec fn message_fits(m: Map<Seq<char>, DestinationStats>, message: ConnectionMessage) -> bool {
    let s = stats_or_zero(m, message_key(message));
    match message {
        ConnectionMessage::ConnectionStarted { .. } => s.active_connection_count < u32::MAX,
        ConnectionMessage::ConnectionEnded { .. } => true,
        ConnectionMessage::DataTransferred { bytes_sent, bytes_received, .. } => s.total_bytes_sent
            + bytes_sent <= u64::MAX && s.total_bytes_received + bytes_received <= u64::MAX,
    }
}

/// The statistics after `message`: a started connection counts one more
/// active connection, creating the entry if needed; an ended one counts one
/// fewer if its entry exists and counts any, and changes nothing otherwise;
/// transferred bytes are added to the totals, creating the entry if needed.
pub open spec fn apply_message(m: Map<Seq<char>, DestinationStats>, message: ConnectionMessage) -> Map<Seq<char>, DestinationStats> {
    let k = message_key(message);
    let s = stats_or_zero(m, k);
    match message {
        ConnectionMessage::ConnectionStarted { .. } => m.insert(
            k,
            DestinationStats { active_connection_count: (s.active_connection_count + 1) as u32, ..s },
        ),
        ConnectionMessage::ConnectionEnded { .. } => if m.dom().contains(k) && s.active_connection_count > 0 {
            m.insert(k, DestinationStats { active_connection_count: (s.active_connection_count - 1) as u32, ..s })
        } else {
            m
        },
        ConnectionMessage::DataTransferred { bytes_sent, bytes_received, .. } => m.insert(
            k,
            DestinationStats {
                total_bytes_sent: (s.total_bytes_sent + bytes_sent) as u64,
                total_bytes_received: (s.total_bytes_received + bytes_received) as u64,
                ..s
            },
        ),
    }
}

/// The line that reports the counters of `key`.
pub open spec fn stats_line(key: Seq<char>, s: DestinationStats) -> Seq<char> {
    "Destination: "@ + key + " | Active Connections: "@ + decimal(s.active_connection_count as nat)
        + " | Total Bytes Sent: "@ + decimal(s.total_bytes_sent as nat) + " | Total Bytes Received: "@
        + decimal(s.total_bytes_received as nat)
}

/// `line` reports the counters of some destination.
pub open spec fn reports_some_key(m: Map<Seq<char>, DestinationStats>, line: Seq<char>) -> bool {
    exists|k: Seq<char>| #[trigger] m.dom().contains(k) && line == stats_line(k, m[k])
}

/// Some line reports the counters of `key`.
pub open spec fn key_reported(m: Map<Seq<char>, DestinationStats>, lines: Seq<String>, key: Seq<char>) -> bool {
    exists|i: int| 0 <= i < lines.len() && #[trigger] lines[i]@ == stats_line(key, m[key])
}

/// Connection counters and byte totals per destination.
pub struct ConnectionStats {
    per_destination: KeyedTable<DestinationStats>,
}

impl View for ConnectionStats {
    type V = Map<Seq<char>, DestinationStats>;

    closed spec fn view(&self) -> Map<Seq<char>, DestinationStats> {
        self.per_destination@
    }
}

fn message_destination(message: &ConnectionMessage) -> (r: String)
    ensures
        r@ == message_key(*message),
{
    let (host, port) = match message {
        ConnectionMessage::ConnectionStarted { host, port } => (host, *port),
        ConnectionMessage::ConnectionEnded { host, port } => (host, *port),
        ConnectionMessage::DataTransferred { host, port, .. } => (host, *port),
    };
    let mut key = host.clone();
    proof {
        reveal_strlit(":");
    }
    key.append(":");
    key.append(decimal_string(port as u64).as_str());
    key
}

impl ConnectionStats {
    /// No statistics yet.
    pub fn new() -> (r: Self)
        ensures
            r@ == Map::<Seq<char>, DestinationStats>::empty(),
    {
        ConnectionStats { per_destination: KeyedTable::new() }
    }

    /// Whether `message` can be recorded without overflowing a counter.
    pub fn can_handle(&self, message: &ConnectionMessage) -> (r: bool)
        ensures
            r == message_fits(self@, *message),
    {
        let key = message_destination(message);
        let s = match self.per_destination.get(key.as_str()) {
            Some(s) => *s,
            None => DestinationStats { active_connection_count: 0, total_bytes_sent: 0, total_bytes_received: 0 },
        };
        match message {
            ConnectionMessage::ConnectionStarted { .. } => s.active_connection_count < u32::MAX,
            ConnectionMessage::ConnectionEnded { .. } => true,
            ConnectionMessage::DataTransferred { bytes_sent, bytes_received, .. } => s.total_bytes_sent
                <= u64::MAX - *bytes_sent && s.total_bytes_received <= u64::MAX - *bytes_received,
        }
    }

    /// Records `message` in the statistics of its destination.
    pub fn handle_message(&mut self, message: ConnectionMessage)
        requires
            message_fits(old(self)@, message),
        ensures
            final(self)@ == apply_message(old(self)@, message),
    {
        let key = message_destination(&message);
        let found = self.per_destination.get(key.as_str());
        let s = match found {
            Some(s) => *s,
            None => DestinationStats { active_connection_count: 0, total_bytes_sent: 0, total_bytes_received: 0 },
        };
        match message {
            ConnectionMessage::ConnectionStarted { .. } => {
                let next = DestinationStats { active_connection_count: s.active_connection_count + 1, ..s };
                self.per_destination.insert(key, next);
            },
            ConnectionMessage::ConnectionEnded { .. } => {
                if found.is_some() && s.active_connection_count > 0 {
                    let next = DestinationStats { active_connection_count: s.active_connection_count - 1, ..s };
                    self.per_destination.insert(key, next);
                }
            },
            ConnectionMessage::DataTransferred { bytes_sent, bytes_received, .. } => {
                let next = DestinationStats {
                    total_bytes_sent: s.total_bytes_sent + bytes_sent,
                    total_bytes_received: s.total_bytes_received + bytes_received,
                    ..s
                };
                self.per_destination.insert(key, next);
            },
        }
    }

    /// The report lines, one per destination, in no particular order.
    pub fn print_stats(&self) -> (r: Vec<String>)
        ensures
            r@.len() == self@.dom().len(),
            forall|i: int| 0 <= i < r@.len() ==> #[trigger] reports_some_key(self@, r@[i]@),
            forall|k: Seq<char>| #[trigger] self@.dom().contains(k) ==> key_reported(self@, r@, k),
    {
        let n = self.per_destination.len();
        let ghost es = self.per_destination.entry_seq();
        let mut lines: Vec<String> = Vec::new();
        let mut i: usize = 0;
        while i < n
            invariant
                n == es.len(),
                es == self.per_destination.entry_seq(),
                i <= n,
                lines@.len() == i,
                forall|j: int| 0 <= j < i ==> #[trigger] lines@[j]@ == stats_line(es[j].0, es[j].1),
            decreases n - i,
        {
            let (key, s) = self.per_destination.entry(i);
            let mut line = String::from_str("Destination: ");
            line.append(key.as_str());
            line.append(" | Active Connections: ");
            line.append(decimal_string(s.active_connection_count as u64).as_str());
            line.append(" | Total Bytes Sent: ");
            line.append(decimal_string(s.total_bytes_sent).as_str());
            line.append(" | Total Bytes Received: ");
            line.append(decimal_string(s.total_bytes_received).as_str());
            lines.push(line);
            i = i + 1;
        }
        proof {
            assert forall|j: int| 0 <= j < lines@.len() implies #[trigger] reports_some_key(self@, lines@[j]@) by {
                assert(self@.dom().contains(es[j].0));
            }
            assert forall|k: Seq<char>| #[trigger] self@.dom().contains(k) implies key_reported(self@, lines@, k) by {
                let j = choose|j: int| 0 <= j < es.len() && #[trigger] es[j].0 == k;
                assert(lines@[j]@ == stats_line(k, self@[k]));
            }
        }
        lines
    }
}

impl Default for ConnectionStats {
    fn default() -> (r: Self)
        ensures
            r@ == Map::<Seq<char>, DestinationStats>::empty(),
    {
        Self::new()
    }
}

} // verus!

verus! {

/// Statistics are kept under a key that tells destinations apart: two
/// destinations share a key only when their hosts and ports are equal.
pub proof fn law_keys_tell_destinations_apart(h1: Seq<char>, p1: u16, h2: Seq<char>, p2: u16)
    requires
        destination_key(h1, p1) == destination_key(h2, p2),
    ensures
        h1 == h2,
        p1 == p2,
{
    let d1 = decimal(p1 as nat);
    let d2 = decimal(p2 as nat);
    lemma_decimal_digits(p1 as nat);
    lemma_decimal_digits(p2 as nat);
    let s = destination_key(h1, p1);
    let t = destination_key(h2, p2);
    assert(s.len() == h1.len() + 1 + d1.len());
    assert(t.len() == h2.len() + 1 + d2.len());
    if d1.len() < d2.len() {
        let i = h1.len() as int;
        assert(s[i] == ':');
        assert(t[i] == d2[i - h2.len() - 1]);
        assert(is_digit(d2[i - h2.len() - 1]));
    } else if d2.len() < d1.len() {
        let i = h2.len() as int;
        assert(t[i] == ':');
        assert(s[i] == d1[i - h1.len() - 1]);
        assert(is_digit(d1[i - h1.len() - 1]));
    }
    assert(h1 =~= s.take(h1.len() as int));
    assert(h2 =~= t.take(h2.len() as int));
    assert(d1 =~= s.skip(h1.len() as int + 1));
    assert(d2 =~= t.skip(h2.len() as int + 1));
}

/// A message changes the counters of its own destination only.
pub proof fn law_messages_are_local(m: Map<Seq<char>, DestinationStats>, message: ConnectionMessage, key: Seq<char>)
    requires
        key != message_key(message),
    ensures
        apply_message(m, message).dom().contains(key) == m.dom().contains(key),
        stats_or_zero(apply_message(m, message), key) == stats_or_zero(m, key),
{
}

/// A connection that starts and then ends leaves the counters of every
/// destination as they were, counting a destination without an entry as
/// zero.
pub proof fn law_start_then_end_restores(m: Map<Seq<char>, DestinationStats>, host: String, port: u16, key: Seq<char>)
    requires
        message_fits(m, ConnectionMessage::ConnectionStarted { host, port }),
    ensures
        stats_or_zero(
            apply_message(
                apply_message(m, ConnectionMessage::ConnectionStarted { host, port }),
                ConnectionMessage::ConnectionEnded { host, port },
            ),
            key,
        ) == stats_or_zero(m, key),
{
}

/// The end of a connection to a destination with no active connection
/// changes nothing: the active count never goes below zero.
pub proof fn law_end_without_active_connection(m: Map<Seq<char>, DestinationStats>, host: String, port: u16)
    requires
        stats_or_zero(m, destination_key(host@, port)).active_connection_count == 0,
    ensures
        apply_message(m, ConnectionMessage::ConnectionEnded { host, port }) == m,
{
}

/// Transferred bytes add up: two reports for a destination leave it with the
/// sum of their byte counts.
pub proof fn law_transfers_add_up(
    m: Map<Seq<char>, DestinationStats>,
    host: String,
    port: u16,
    s1: u64,
    r1: u64,
    s2: u64,
    r2: u64,
)
    requires
        stats_or_zero(m, destination_key(host@, port)).total_bytes_sent + s1 + s2 <= u64::MAX,
        stats_or_zero(m, destination_key(host@, port)).total_bytes_received + r1 + r2 <= u64::MAX,
    ensures
        message_fits(m, ConnectionMessage::DataTransferred { host, port, bytes_sent: s1, bytes_received: r1 }),
        ({
            let m1 = apply_message(m, ConnectionMessage::DataTransferred { host, port, bytes_sent: s1, bytes_received: r1 });
            let m2 = apply_message(m1, ConnectionMessage::DataTransferred { host, port, bytes_sent: s2, bytes_received: r2 });
            let before = stats_or_zero(m, destination_key(host@, port));
            let after = stats_or_zero(m2, destination_key(host@, port));
            &&& message_fits(m1, ConnectionMessage::DataTransferred { host, port, bytes_sent: s2, bytes_received: r2 })
            &&& after.total_bytes_sent == before.total_bytes_sent + s1 + s2
            &&& after.total_bytes_received == before.total_bytes_received + r1 + r2
            &&& after.active_connection_count == before.active_connection_count
        }),
{
}

} // verus!

verus! {

/// A connection start is refused only at the limit of the counter: it fits
/// exactly when its destination has fewer than `u32::MAX` active
/// connections, so concurrent connections to one destination are all
/// counted; two starts in a row both fit below the limit and count two more.
pub proof fn law_starts_count_up_to_the_limit(m: Map<Seq<char>, DestinationStats>, host: String, port: u16)
    ensures
        message_fits(m, ConnectionMessage::ConnectionStarted { host, port })
            <==> stats_or_zero(m, destination_key(host@, port)).active_connection_count < u32::MAX,
        stats_or_zero(m, destination_key(host@, port)).active_connection_count + 2 <= u32::MAX ==> ({
            let start = ConnectionMessage::ConnectionStarted { host, port };
            let m1 = apply_message(m, start);
            let m2 = apply_message(m1, start);
            &&& message_fits(m1, start)
            &&& stats_or_zero(m2, destination_key(host@, port)).active_connection_count
                == stats_or_zero(m, destination_key(host@, port)).active_connection_count + 2
        }),
{
}

} // verus!
