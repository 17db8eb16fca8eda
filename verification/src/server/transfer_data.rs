//! The byte counts of a relayed connection, and the statistics it reports
//! when the relay ends.

use vstd::prelude::*;
use crate::stats::ConnectionMessage;

verus! {

/// Bytes relayed so far: client to target, and target to client.
pub struct TransferTally {
    bytes_sent: u64,
    bytes_received: u64,
}

impl View for TransferTally {
    type V = (u64, u64);

    closed spec fn view(&self) -> (u64, u64) {
        (self.bytes_sent, self.bytes_received)
    }
}

impl TransferTally {
    /// Nothing relayed yet.
    pub fn new() -> (r: Self)
        ensures
            r@ == (0u64, 0u64),
    {
        TransferTally { bytes_sent: 0, bytes_received: 0 }
    }

    /// Bytes relayed from client to target.
    pub fn bytes_sent(&self) -> (r: u64)
        ensures
            r == self@.0,
    {
        self.bytes_sent
    }

    /// Bytes relayed from target to client.
    pub fn bytes_received(&self) -> (r: u64)
        ensures
            r == self@.1,
    {
        self.bytes_received
    }

    /// Counts `n` bytes relayed from client to target.
    pub fn record_sent(&mut self, n: u64)
        requires
            old(self)@.0 + n <= u64::MAX,
        ensures
            final(self)@ == ((old(self)@.0 + n) as u64, old(self)@.1),
    {
        self.bytes_sent = self.bytes_sent + n;
    }

    /// Counts `n` bytes relayed from target to client.
    pub fn record_received(&mut self, n: u64)
        requires
            old(self)@.1 + n <= u64::MAX,
        ensures
            final(self)@ == (old(self)@.0, (old(self)@.1 + n) as u64),
    {
        self.bytes_received = self.bytes_received + n;
    }

    /// The statistics a finished relay to `host`, port `port`, reports: the
    /// bytes it moved each way, then the end of the connection.
    pub fn finish(&self, host: &str, port: u16) -> (r: (ConnectionMessage, ConnectionMessage))
        ensures
            r.0 matches ConnectionMessage::DataTransferred { host: h, port: p, bytes_sent, bytes_received } && h@
                == host@ && p == port && bytes_sent == self@.0 && bytes_received == self@.1,
            r.1 matches ConnectionMessage::ConnectionEnded { host: h, port: p } && h@ == host@ && p == port,
    {
        (
            ConnectionMessage::DataTransferred {
                host: String::from_str(host),
                port,
                bytes_sent: self.bytes_sent,
                bytes_received: self.bytes_received,
            },
            ConnectionMessage::ConnectionEnded { host: String::from_str(host), port },
        )
    }
}

} // verus!
