//! Core engine of a QUIC load-generation client and its matching server:
//! stream reassembly, congestion window policy, connection admission,
//! send pacing and the statistics and reorder bookkeeping around them.

pub mod admission;
pub mod chunk_store;
pub mod clock;
pub mod congestion;
pub mod reassembly;
pub mod reorder;
pub mod samples;
pub mod sender;
pub mod stats;
pub mod wire;
