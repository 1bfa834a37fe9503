//! Server counters, their snapshots and the throughput derived from two
//! snapshots.
use vstd::prelude::*;
use crate::admission::{admission_spec, Admission};
use crate::reassembly::{StreamError, StreamStep};

verus! {

/// The server's counters for a run. Each only ever grows; a counter that
/// reached `u64::MAX` stays there.
#[derive(Clone, Copy, Debug, PartialEq, Eq, Structural)]
pub struct Stats {
    pub num_received_streams: u64,
    pub num_errored_streams: u64,
    pub num_accepted_connections: u64,
    pub num_refused_connections: u64,
    pub num_connection_errors: u64,
    pub num_finished_streams: u64,
    pub num_received_bytes: u64,
}

/// Something that the counters record.
#[derive(Clone, Copy, Debug, PartialEq, Eq, Structural)]
pub enum StatsEvent {
    /// A chunk of a stream was read and the stream goes on.
    ReceivedStreamChunk,
    /// A stream failed: a read error or a framing error.
    ErroredStream,
    AcceptedConnection,
    RefusedConnection,
    /// A connection ended with a transport error.
    ConnectionError,
    /// A stream ended and its packet, if any, was finalized.
    FinishedStream,
    /// The size of a finalized packet.
    ReceivedBytes(u64),
}

/// Scale at which a bit rate is shown: binary steps of 1024.
#[derive(Clone, Copy, Debug, PartialEq, Eq, Structural)]
pub enum BitRateUnit {
    Bits,
    Kilobits,
    Megabits,
    Gigabits,
}

/// Streams finished and bytes received between two snapshots.
#[derive(Clone, Copy, Debug, PartialEq, Eq, Structural)]
pub struct Throughput {
    pub tps: u64,
    pub received_bytes: u64,
    pub unit: BitRateUnit,
}

/// `a + b`, stopping at `u64::MAX`.
pub open spec fn sat_add(a: u64, b: u64) -> u64 {
    if a + b > u64::MAX {
        u64::MAX
    } else {
        (a + b) as u64
    }
}

/// The unit for `bytes` bytes per second, by its number of bits.
pub open spec fn bit_rate_unit_spec(bytes: u64) -> BitRateUnit {
    let bits = bytes * 8;
    if bits >= 1024 * 1024 * 1024 {
        BitRateUnit::Gigabits
    } else if bits >= 1024 * 1024 {
        BitRateUnit::Megabits
    } else if bits >= 1024 {
        BitRateUnit::Kilobits
    } else {
        BitRateUnit::Bits
    }
}

impl Stats {
    /// Every counter of `self` is at least the one of `earlier`.
    pub open spec fn dominates(self, earlier: Stats) -> bool {
        &&& self.num_received_streams >= earlier.num_received_streams
        &&& self.num_errored_streams >= earlier.num_errored_streams
        &&& self.num_accepted_connections >= earlier.num_accepted_connections
        &&& self.num_refused_connections >= earlier.num_refused_connections
        &&& self.num_connection_errors >= earlier.num_connection_errors
        &&& self.num_finished_streams >= earlier.num_finished_streams
        &&& self.num_received_bytes >= earlier.num_received_bytes
    }

    /// The counters after recording `e`.
    pub open spec fn after(self, e: StatsEvent) -> Stats {
        match e {
            StatsEvent::ReceivedStreamChunk => Stats {
                num_received_streams: sat_add(self.num_received_streams, 1),
                ..self
            },
            StatsEvent::ErroredStream => Stats {
                num_errored_streams: sat_add(self.num_errored_streams, 1),
                ..self
            },
            StatsEvent::AcceptedConnection => Stats {
                num_accepted_connections: sat_add(self.num_accepted_connections, 1),
                ..self
            },
            StatsEvent::RefusedConnection => Stats {
                num_refused_connections: sat_add(self.num_refused_connections, 1),
                ..self
            },
            StatsEvent::ConnectionError => Stats {
                num_connection_errors: sat_add(self.num_connection_errors, 1),
                ..self
            },
            StatsEvent::FinishedStream => Stats {
                num_finished_streams: sat_add(self.num_finished_streams, 1),
                ..self
            },
            StatsEvent::ReceivedBytes(n) => Stats {
                num_received_bytes: sat_add(self.num_received_bytes, n),
                ..self
            },
        }
    }

    /// All counters at zero.
    pub fn new() -> (r: Stats)
        ensures
            r == (Stats {
                num_received_streams: 0,
                num_errored_streams: 0,
                num_accepted_connections: 0,
                num_refused_connections: 0,
                num_connection_errors: 0,
                num_finished_streams: 0,
                num_received_bytes: 0,
            }),
    {
        Stats {
            num_received_streams: 0,
            num_errored_streams: 0,
            num_accepted_connections: 0,
            num_refused_connections: 0,
            num_connection_errors: 0,
            num_finished_streams: 0,
            num_received_bytes: 0,
        }
    }

    /// A value copy of the counters.
    pub fn load_current(&self) -> (r: Stats)
        ensures
            r == *self,
    {
        *self
    }

    /// Records one event.
    pub fn record(&mut self, e: StatsEvent)
        ensures
            *final(self) == old(self).after(e),
            final(self).dominates(*old(self)),
    {
        match e {
            StatsEvent::ReceivedStreamChunk => {
                self.num_received_streams = self.num_received_streams.saturating_add(1);
            },
            StatsEvent::ErroredStream => {
                self.num_errored_streams = self.num_errored_streams.saturating_add(1);
            },
            StatsEvent::AcceptedConnection => {
                self.num_accepted_connections = self.num_accepted_connections.saturating_add(1);
            },
            StatsEvent::RefusedConnection => {
                self.num_refused_connections = self.num_refused_connections.saturating_add(1);
            },
            StatsEvent::ConnectionError => {
                self.num_connection_errors = self.num_connection_errors.saturating_add(1);
            },
            StatsEvent::FinishedStream => {
                self.num_finished_streams = self.num_finished_streams.saturating_add(1);
            },
            StatsEvent::ReceivedBytes(n) => {
                self.num_received_bytes = self.num_received_bytes.saturating_add(n);
            },
        }
    }

    /// Whether every counter is at least the one of `earlier`.
    pub fn is_later_than(&self, earlier: &Stats) -> (r: bool)
        ensures
            r == self.dominates(*earlier),
    {
        self.num_received_streams >= earlier.num_received_streams
            && self.num_errored_streams >= earlier.num_errored_streams
            && self.num_accepted_connections >= earlier.num_accepted_connections
            && self.num_refused_connections >= earlier.num_refused_connections
            && self.num_connection_errors >= earlier.num_connection_errors
            && self.num_finished_streams >= earlier.num_finished_streams
            && self.num_received_bytes >= earlier.num_received_bytes
    }

    /// Streams finished and bytes received since `previous`, an earlier
    /// snapshot, with the unit to show the bit rate in.
    pub fn tps_bitrate(&self, previous: &Stats) -> (r: Throughput)
        requires
            self.dominates(*previous),
        ensures
            r.tps == self.num_finished_streams - previous.num_finished_streams,
            r.received_bytes == self.num_received_bytes - previous.num_received_bytes,
            r.unit == bit_rate_unit_spec(r.received_bytes),
    {
        let tps = self.num_finished_streams - previous.num_finished_streams;
        let received_bytes = self.num_received_bytes - previous.num_received_bytes;
        Throughput { tps, received_bytes, unit: bit_rate_unit(received_bytes) }
    }
}

/// The counter change that an admission decision makes; a retry changes
/// none.
pub fn admission_event(decision: Admission) -> (r: Option<StatsEvent>)
    ensures
        r == match decision {
            Admission::Refuse => Some(StatsEvent::RefusedConnection),
            Admission::Retry => None::<StatsEvent>,
            Admission::Accept => Some(StatsEvent::AcceptedConnection),
        },
{
    match decision {
        Admission::Refuse => Some(StatsEvent::RefusedConnection),
        Admission::Retry => None,
        Admission::Accept => Some(StatsEvent::AcceptedConnection),
    }
}

/// The counter that one read of a stream moves: a kept chunk, the end of
/// the stream, or a failed stream.
pub fn stream_event(step: &Result<StreamStep, StreamError>) -> (r: StatsEvent)
    ensures
        r == match step {
            Ok(StreamStep::Pending) => StatsEvent::ReceivedStreamChunk,
            Ok(StreamStep::Finished(_)) => StatsEvent::FinishedStream,
            Err(_) => StatsEvent::ErroredStream,
        },
{
    match step {
        Ok(StreamStep::Pending) => StatsEvent::ReceivedStreamChunk,
        Ok(StreamStep::Finished(_)) => StatsEvent::FinishedStream,
        Err(_) => StatsEvent::ErroredStream,
    }
}

/// The unit in which `bytes` bytes per second are shown: bits, then
/// kilobits, megabits and gigabits at 1024, 1024² and 1024³ bits.
pub fn bit_rate_unit(bytes: u64) -> (r: BitRateUnit)
    ensures
        r == bit_rate_unit_spec(bytes),
{
    if bytes >= 128 * 1024 * 1024 {
        BitRateUnit::Gigabits
    } else if bytes >= 128 * 1024 {
        BitRateUnit::Megabits
    } else if bytes >= 128 {
        BitRateUnit::Kilobits
    } else {
        BitRateUnit::Bits
    }
}

/// Once `N` connections are open under a limit of `N`, a further attempt
/// is refused: the refused count grows by one and the accepted count stays.
pub proof fn lemma_admission_at_limit(
    stats: Stats,
    open_connections: nat,
    limit: usize,
    stateless_retry: bool,
    remote_address_validated: bool,
)
    requires
        open_connections >= limit,
        stats.num_refused_connections < u64::MAX,
    ensures
        admission_spec(open_connections, Some(limit), stateless_retry, remote_address_validated)
            == Admission::Refuse,
        stats.after(StatsEvent::RefusedConnection).num_refused_connections
            == stats.num_refused_connections + 1,
        stats.after(StatsEvent::RefusedConnection).num_accepted_connections
            == stats.num_accepted_connections,
{
}

/// Recording events never lowers a counter, so any later snapshot
/// dominates an earlier one and their difference is well defined.
pub proof fn lemma_counters_monotonic(stats: Stats, events: Seq<StatsEvent>)
    ensures
        after_all(stats, events).dominates(stats),
    decreases events.len(),
{
    if events.len() > 0 {
        lemma_counters_monotonic(stats, events.drop_last());
    }
}

/// The counters after the events, in order.
pub open spec fn after_all(stats: Stats, events: Seq<StatsEvent>) -> Stats
    decreases events.len(),
{
    if events.len() == 0 {
        stats
    } else {
        after_all(stats, events.drop_last()).after(events.last())
    }
}

} // verus!
