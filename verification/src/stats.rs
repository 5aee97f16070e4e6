//! Counters kept by the stream consumer and reported every metrics tick.

use vstd::prelude::*;

verus! {

/// Counters over one metrics window of the packet stream.
#[derive(PartialEq, Eq, Structural, Clone, Copy, Debug)]
pub struct RelayerStageStats {
    /// Messages with no body, plus batch messages with no packets.
    pub num_empty_messages: u64,
    /// Packets received in non-empty batches.
    pub num_packets: u64,
    /// Heartbeats received.
    pub num_heartbeats: u64,
}

impl Default for RelayerStageStats {
    /// A fresh window with every counter at zero.
    fn default() -> (r: Self)
        ensures
            r == (RelayerStageStats { num_empty_messages: 0, num_packets: 0, num_heartbeats: 0 }),
    {
        RelayerStageStats { num_empty_messages: 0, num_packets: 0, num_heartbeats: 0 }
    }
}

impl RelayerStageStats {
    /// The values to publish under the stage's stats datapoint, in field order:
    /// empty messages, packets, heartbeats.
    pub fn report(&self) -> (r: (u64, u64, u64))
        ensures
            r.0 == self.num_empty_messages,
            r.1 == self.num_packets,
            r.2 == self.num_heartbeats,
    {
        (self.num_empty_messages, self.num_packets, self.num_heartbeats)
    }
}

} // verus!
