//! Congestion window policy for each network path.
//!
//! Two variants share one interface: a fixed window that always allows the
//! largest window, and an adaptive window that halves on loss (at most once
//! per adjustment interval) and doubles once per round trip on
//! acknowledgements, always within `[W_MIN, W_MAX]`. Times are microseconds
//! on the transport's monotonic clock.
use vstd::prelude::*;

verus! {

/// Smallest window, in bytes, and the window a path starts with.
pub const W_MIN: u64 = 4_000_000;
/// Largest window, in bytes.
pub const W_MAX: u64 = 8_000_000;
/// Least time, in microseconds, between two reductions of the window.
pub const ADJUST_INTERVAL_US: u64 = 5_000;

/// State of the adaptive variant.
#[derive(Clone, Copy, Debug, PartialEq, Eq, Structural)]
pub struct AdaptiveWindow {
    pub window_size: u64,
    /// When the window was last reduced, if ever.
    pub last_congestion: Option<u64>,
    /// When the window was last grown, or last reduced, if ever.
    pub last_increase: Option<u64>,
}

/// A congestion controller for one path.
#[derive(Clone, Copy, Debug, PartialEq, Eq, Structural)]
pub enum CongestionController {
    /// Always allows `W_MAX`: congestion control switched off.
    Fixed,
    Adaptive(AdaptiveWindow),
}

/// Which controller each new path gets.
#[derive(Clone, Copy, Debug, PartialEq, Eq, Structural)]
pub struct CongestionConfig {
    pub adaptive: bool,
}

/// At least `interval` has passed since `last`, or nothing happened yet.
pub open spec fn interval_elapsed(last: Option<u64>, now: u64, interval: u64) -> bool {
    match last {
        None => true,
        Some(t) => now >= t && now - t >= interval,
    }
}

impl CongestionController {
    /// The window lies within `[W_MIN, W_MAX]`.
    pub open spec fn wf(self) -> bool {
        match self {
            CongestionController::Fixed => true,
            CongestionController::Adaptive(a) => W_MIN <= a.window_size <= W_MAX,
        }
    }

    /// The window that the transport is allowed.
    pub open spec fn window_spec(self) -> u64 {
        match self {
            CongestionController::Fixed => W_MAX,
            CongestionController::Adaptive(a) => a.window_size,
        }
    }

    /// The controller after a congestion event at `now`.
    pub open spec fn after_congestion(self, now: u64) -> Self {
        match self {
            CongestionController::Fixed => self,
            CongestionController::Adaptive(a) => if interval_elapsed(
                a.last_congestion,
                now,
                ADJUST_INTERVAL_US,
            ) {
                let half = a.window_size / 2;
                CongestionController::Adaptive(
                    AdaptiveWindow {
                        window_size: if half > W_MIN {
                            half
                        } else {
                            W_MIN
                        },
                        last_congestion: Some(now),
                        last_increase: Some(now),
                    },
                )
            } else {
                self
            },
        }
    }

    /// The controller after an acknowledgement at `now`, with `rtt_us` the
    /// current round-trip estimate.
    pub open spec fn after_ack(self, now: u64, rtt_us: u64) -> Self {
        match self {
            CongestionController::Fixed => self,
            CongestionController::Adaptive(a) => if a.window_size >= W_MAX || !interval_elapsed(
                a.last_increase,
                now,
                rtt_us,
            ) {
                self
            } else {
                let double = 2 * a.window_size;
                CongestionController::Adaptive(
                    AdaptiveWindow {
                        window_size: if double < W_MAX {
                            double as u64
                        } else {
                            W_MAX
                        },
                        last_congestion: a.last_congestion,
                        last_increase: Some(now),
                    },
                )
            },
        }
    }

    /// A fresh controller of the configured variant.
    pub fn build(config: &CongestionConfig) -> (r: Self)
        ensures
            r.wf(),
            r.window_spec() == W_MIN || (!config.adaptive && r.window_spec() == W_MAX),
            config.adaptive <==> r is Adaptive,
            r matches CongestionController::Adaptive(a) ==> {
                &&& a.last_congestion is None
                &&& a.last_increase is None
            },
    {
        if config.adaptive {
            CongestionController::Adaptive(
                AdaptiveWindow { window_size: W_MIN, last_congestion: None, last_increase: None },
            )
        } else {
            CongestionController::Fixed
        }
    }

    /// The window a path starts with.
    pub fn initial_window(&self) -> (r: u64)
        ensures
            r == match *self {
                CongestionController::Fixed => W_MAX,
                CongestionController::Adaptive(_) => W_MIN,
            },
    {
        match self {
            CongestionController::Fixed => W_MAX,
            CongestionController::Adaptive(_) => W_MIN,
        }
    }

    /// The current window.
    pub fn window(&self) -> (r: u64)
        ensures
            r == self.window_spec(),
    {
        match self {
            CongestionController::Fixed => W_MAX,
            CongestionController::Adaptive(a) => a.window_size,
        }
    }

    /// A congestion event: the adaptive window halves, not below `W_MIN`,
    /// unless it was already reduced less than `ADJUST_INTERVAL_US` ago.
    pub fn on_congestion_event(
        &mut self,
        now: u64,
        _sent: u64,
        _is_persistent_congestion: bool,
        _lost_bytes: u64,
    )
        requires
            old(self).wf(),
        ensures
            *final(self) == old(self).after_congestion(now),
            final(self).wf(),
    {
        if let CongestionController::Adaptive(a) = *self {
            let elapsed = match a.last_congestion {
                None => true,
                Some(t) => now >= t && now - t >= ADJUST_INTERVAL_US,
            };
            if elapsed {
                let half = a.window_size / 2;
                let window_size = if half > W_MIN {
                    half
                } else {
                    W_MIN
                };
                *self = CongestionController::Adaptive(
                    AdaptiveWindow {
                        window_size,
                        last_congestion: Some(now),
                        last_increase: Some(now),
                    },
                );
            }
        }
    }

    /// An acknowledgement: unless the window is already `W_MAX`, it doubles,
    /// up to `W_MAX`, once a round trip has passed since it last changed.
    pub fn on_ack(
        &mut self,
        now: u64,
        _sent: u64,
        _bytes: u64,
        _app_limited: bool,
        rtt_us: u64,
    )
        requires
            old(self).wf(),
        ensures
            *final(self) == old(self).after_ack(now, rtt_us),
            final(self).wf(),
    {
        if let CongestionController::Adaptive(a) = *self {
            if a.window_size >= W_MAX {
                return;
            }
            let elapsed = match a.last_increase {
                None => true,
                Some(t) => now >= t && now - t >= rtt_us,
            };
            if elapsed {
                let window_size = if a.window_size < W_MAX / 2 {
                    2 * a.window_size
                } else {
                    W_MAX
                };
                *self = CongestionController::Adaptive(
                    AdaptiveWindow {
                        window_size,
                        last_congestion: a.last_congestion,
                        last_increase: Some(now),
                    },
                );
            }
        }
    }

    /// An independent controller for another path, in the same state.
    pub fn clone_box(&self) -> (r: Self)
        ensures
            r == *self,
    {
        *self
    }
}

/// Right after a congestion event that is not debounced, the adaptive
/// window is half the previous one, but never below `W_MIN`.
pub proof fn lemma_congestion_halves(c: CongestionController, now: u64)
    requires
        c.wf(),
        c matches CongestionController::Adaptive(a) && interval_elapsed(
            a.last_congestion,
            now,
            ADJUST_INTERVAL_US,
        ),
    ensures
        c.after_congestion(now).window_spec() == if c.window_spec() / 2 > W_MIN {
            c.window_spec() / 2
        } else {
            W_MIN
        },
{
}

/// A second congestion event less than `ADJUST_INTERVAL_US` after one that
/// took effect changes nothing.
pub proof fn lemma_congestion_debounced(c: CongestionController, t1: u64, t2: u64)
    requires
        c.wf(),
        t1 <= t2 < t1 + ADJUST_INTERVAL_US,
        c matches CongestionController::Adaptive(a) ==> interval_elapsed(
            a.last_congestion,
            t1,
            ADJUST_INTERVAL_US,
        ),
    ensures
        c.after_congestion(t1).after_congestion(t2) == c.after_congestion(t1),
{
}

/// One event seen by a controller: an acknowledgement with its round-trip
/// estimate, or a congestion event.
pub enum PathEvent {
    Ack { now: u64, rtt_us: u64 },
    Congestion { now: u64 },
}

/// The controller after the events, in order.
pub open spec fn after_events(c: CongestionController, events: Seq<PathEvent>) -> CongestionController
    decreases events.len(),
{
    if events.len() == 0 {
        c
    } else {
        let prev = after_events(c, events.drop_last());
        match events.last() {
            PathEvent::Ack { now, rtt_us } => prev.after_ack(now, rtt_us),
            PathEvent::Congestion { now } => prev.after_congestion(now),
        }
    }
}

/// However many acknowledgements and congestion events come, in whatever
/// order, the window stays within `[W_MIN, W_MAX]`.
pub proof fn lemma_window_bounded(c: CongestionController, events: Seq<PathEvent>)
    requires
        c.wf(),
    ensures
        after_events(c, events).wf(),
        after_events(c, events).window_spec() <= W_MAX,
    decreases events.len(),
{
    if events.len() > 0 {
        lemma_window_bounded(c, events.drop_last());
    }
}

} // verus!
