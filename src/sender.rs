//! Decisions of the client's per-connection send loop: when to stop, what
//! a send result does to the loop, how long to pause to hold the target bit
//! rate, and when to sample the connection's statistics. The loop itself,
//! with its transport calls and sleeps, runs outside the library and hands
//! each outcome back here.
use vstd::prelude::*;

verus! {

/// Smallest transaction size, in bytes.
pub const MIN_TX_SIZE: u64 = 16;
/// Largest transaction size, in bytes.
pub const MAX_TX_SIZE: u64 = 1231;
/// The connection's statistics are sampled once every this many sent
/// transactions.
pub const SAMPLE_EVERY: u64 = 1000;
/// Microseconds in a second.
pub const MICROS_PER_SECOND: u64 = 1_000_000;

/// A configuration that the client refuses before opening any connection.
#[derive(Clone, Copy, Debug, PartialEq, Eq, Structural)]
pub enum ConfigError {
    /// A transaction budget was given for no connections.
    NoConnections,
    /// The transaction budget does not split evenly over the connections.
    NotDivisible,
    /// The transaction size lies outside `[MIN_TX_SIZE, MAX_TX_SIZE]`.
    TxSizeOutOfRange,
    /// The target bit rate is zero.
    ZeroBitrate,
}

/// What the send loop does next.
#[derive(Clone, Copy, Debug, PartialEq, Eq, Structural)]
pub enum SendAction {
    Stop,
    /// Send the transaction with this sequence number.
    Send(u64),
}

/// How an attempt to send one transaction ended.
#[derive(Clone, Copy, Debug, PartialEq, Eq, Structural)]
pub enum SendResult {
    Sent,
    /// The write did not finish in time; the transaction is skipped.
    TimedOut,
    /// A transport error: the connection's loop ends.
    Failed,
}

/// State of one connection's send loop.
#[derive(Clone, Copy, Debug, PartialEq, Eq, Structural)]
pub struct SendEngine {
    pub tx_size: u64,
    pub max_bitrate_bps: u64,
    /// Stop once this many microseconds have passed, if set.
    pub duration_us: Option<u64>,
    /// Stop once this many transactions were sent, if set.
    pub txs_limit: Option<u64>,
    /// Sequence number of the next transaction, which is also the number
    /// sent so far.
    pub transaction_id: u64,
}

/// Microseconds that `sent` transactions of `tx_size` bytes take at
/// `bitrate` bits per second, rounded down.
pub open spec fn send_budget_us(tx_size: u64, bitrate: u64, sent: u64) -> nat {
    ((tx_size * 8 * sent * MICROS_PER_SECOND) / (bitrate as int)) as nat
}

/// Splits the transaction budget over the connections.
pub fn txs_per_connection(max_txs_num: Option<usize>, num_connections: usize) -> (r: Result<
    Option<usize>,
    ConfigError,
>)
    ensures
        match max_txs_num {
            None => r == Ok::<Option<usize>, ConfigError>(None),
            Some(m) => if num_connections == 0 {
                r == Err::<Option<usize>, ConfigError>(ConfigError::NoConnections)
            } else if m % num_connections != 0 {
                r == Err::<Option<usize>, ConfigError>(ConfigError::NotDivisible)
            } else {
                r == Ok::<Option<usize>, ConfigError>(Some(m / num_connections))
            },
        },
{
    match max_txs_num {
        None => Ok(None),
        Some(m) => {
            if num_connections == 0 {
                Err(ConfigError::NoConnections)
            } else if m % num_connections != 0 {
                Err(ConfigError::NotDivisible)
            } else {
                Ok(Some(m / num_connections))
            }
        },
    }
}

impl SendEngine {
    /// The bit rate is positive and a transaction fits in a packet.
    pub open spec fn wf(self) -> bool {
        &&& self.max_bitrate_bps > 0
        &&& MIN_TX_SIZE <= self.tx_size <= MAX_TX_SIZE
    }

    /// The loop stops at this elapsed time.
    pub open spec fn should_stop(self, elapsed_us: u64) -> bool {
        ||| (self.duration_us matches Some(d) && elapsed_us >= d)
        ||| (self.txs_limit matches Some(n) && self.transaction_id >= n)
    }

    /// A loop for one connection, with nothing sent yet.
    pub fn new(
        tx_size: u64,
        max_bitrate_bps: u64,
        duration_us: Option<u64>,
        txs_limit: Option<u64>,
    ) -> (r: Result<SendEngine, ConfigError>)
        ensures
            (tx_size < MIN_TX_SIZE || tx_size > MAX_TX_SIZE) ==> r == Err::<SendEngine, ConfigError>(
                ConfigError::TxSizeOutOfRange,
            ),
            MIN_TX_SIZE <= tx_size <= MAX_TX_SIZE && max_bitrate_bps == 0 ==> r == Err::<
                SendEngine,
                ConfigError,
            >(ConfigError::ZeroBitrate),
            MIN_TX_SIZE <= tx_size <= MAX_TX_SIZE && max_bitrate_bps > 0 ==> r == Ok::<
                SendEngine,
                ConfigError,
            >(SendEngine { tx_size, max_bitrate_bps, duration_us, txs_limit, transaction_id: 0 }),
    {
        if tx_size < MIN_TX_SIZE || tx_size > MAX_TX_SIZE {
            return Err(ConfigError::TxSizeOutOfRange);
        }
        if max_bitrate_bps == 0 {
            return Err(ConfigError::ZeroBitrate);
        }
        Ok(SendEngine { tx_size, max_bitrate_bps, duration_us, txs_limit, transaction_id: 0 })
    }

    /// Stop when the duration has passed or the transaction budget is
    /// spent; else send the next sequence number.
    pub fn next_action(&self, elapsed_us: u64) -> (r: SendAction)
        ensures
            self.should_stop(elapsed_us) ==> r == SendAction::Stop,
            !self.should_stop(elapsed_us) ==> r == SendAction::Send(self.transaction_id),
    {
        if let Some(d) = self.duration_us {
            if elapsed_us >= d {
                return SendAction::Stop;
            }
        }
        if let Some(n) = self.txs_limit {
            if self.transaction_id >= n {
                return SendAction::Stop;
            }
        }
        SendAction::Send(self.transaction_id)
    }

    /// Takes the outcome of a send. A sent transaction advances the
    /// sequence number; a timeout skips it; a transport error ends the
    /// loop. Returns whether the loop goes on.
    pub fn on_send_result(&mut self, result: SendResult) -> (r: bool)
        ensures
            final(self).tx_size == old(self).tx_size,
            final(self).max_bitrate_bps == old(self).max_bitrate_bps,
            final(self).duration_us == old(self).duration_us,
            final(self).txs_limit == old(self).txs_limit,
            match result {
                SendResult::Sent => if old(self).transaction_id < u64::MAX {
                    r && final(self).transaction_id == old(self).transaction_id + 1
                } else {
                    !r && final(self).transaction_id == old(self).transaction_id
                },
                SendResult::TimedOut => r && final(self).transaction_id == old(self).transaction_id,
                SendResult::Failed => !r && final(self).transaction_id == old(self).transaction_id,
            },
    {
        match result {
            SendResult::Sent => {
                if self.transaction_id < u64::MAX {
                    self.transaction_id = self.transaction_id + 1;
                    true
                } else {
                    false
                }
            },
            SendResult::TimedOut => true,
            SendResult::Failed => false,
        }
    }

    /// How long to pause, in microseconds, so that sending stays at the
    /// target bit rate: the time the transactions sent so far should take,
    /// less the time that has passed, and no pause when the loop is behind.
    pub fn throttle_delay_us(&self, elapsed_us: u64) -> (r: u64)
        requires
            self.wf(),
        ensures
            send_budget_us(self.tx_size, self.max_bitrate_bps, self.transaction_id) <= elapsed_us
                ==> r == 0,
            send_budget_us(self.tx_size, self.max_bitrate_bps, self.transaction_id) > elapsed_us
                ==> r == if send_budget_us(self.tx_size, self.max_bitrate_bps, self.transaction_id)
                - elapsed_us > u64::MAX {
                u64::MAX as int
            } else {
                send_budget_us(self.tx_size, self.max_bitrate_bps, self.transaction_id)
                    - elapsed_us
            },
    {
        let size = self.tx_size as u128;
        assert(size * 8 <= 1231 * 8);
        let bits: u128 = size * 8;
        assert(bits * 1_000_000 <= 1231 * 8 * 1_000_000) by (nonlinear_arith)
            requires
                bits <= 1231 * 8,
        ;
        let per_tx: u128 = bits * (MICROS_PER_SECOND as u128);
        let sent = self.transaction_id as u128;
        assert(per_tx * sent <= 1231 * 8 * 1_000_000 * 0xffff_ffff_ffff_ffff) by (nonlinear_arith)
            requires
                per_tx <= 1231 * 8 * 1_000_000,
                sent <= 0xffff_ffff_ffff_ffff,
        ;
        let total: u128 = per_tx * sent;
        assert(total == self.tx_size * 8 * self.transaction_id * MICROS_PER_SECOND) by (nonlinear_arith)
            requires
                per_tx == bits * MICROS_PER_SECOND,
                bits == self.tx_size * 8,
                sent == self.transaction_id,
                total == per_tx * sent,
        ;
        let budget: u128 = total / (self.max_bitrate_bps as u128);
        let elapsed = elapsed_us as u128;
        if budget <= elapsed {
            0
        } else if budget - elapsed > u64::MAX as u128 {
            u64::MAX
        } else {
            (budget - elapsed) as u64
        }
    }

    /// The connection's statistics are due to be sampled.
    pub fn sample_due(&self) -> (r: bool)
        ensures
            r == (self.transaction_id % SAMPLE_EVERY == 0),
    {
        self.transaction_id % SAMPLE_EVERY == 0
    }
}

} // verus!
