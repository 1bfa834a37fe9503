//! Out-of-order audit of the packets completed on one connection.
//!
//! The log keeps only the packet with the highest sequence number seen so
//! far. Each packet after the first yields one row that sets the current
//! packet beside that high-water mark; the mark moves only when a strictly
//! higher sequence number arrives.
use vstd::prelude::*;
use crate::wire::TxInfo;

verus! {

/// One row of the reorder log, without the time it was written.
#[derive(Clone, Copy, Debug, PartialEq, Eq, Structural)]
pub struct ReorderRow {
    pub max_seen_tx_id: u64,
    pub max_seen_timestamp_ms: u64,
    pub current_tx_id: u64,
    pub current_timestamp_ms: u64,
}

/// The state of the reorder log.
#[derive(Clone, Copy, Debug, PartialEq, Eq, Structural)]
pub struct ReorderLog {
    /// The packet with the highest sequence number so far, the earliest one
    /// among equals.
    pub max_seen: Option<TxInfo>,
}

/// The row for `current` against the mark `max_seen`.
pub open spec fn row_of(max_seen: TxInfo, current: TxInfo) -> ReorderRow {
    ReorderRow {
        max_seen_tx_id: max_seen.tx_id,
        max_seen_timestamp_ms: max_seen.timestamp_ms,
        current_tx_id: current.tx_id,
        current_timestamp_ms: current.timestamp_ms,
    }
}

/// The mark after `tx` arrives: `tx` replaces it only with a strictly
/// higher sequence number.
pub open spec fn next_mark(mark: Option<TxInfo>, tx: TxInfo) -> Option<TxInfo> {
    match mark {
        None => Some(tx),
        Some(m) => if tx.tx_id > m.tx_id {
            Some(tx)
        } else {
            Some(m)
        },
    }
}

/// The mark after the events, in order.
pub open spec fn mark_after(events: Seq<TxInfo>) -> Option<TxInfo>
    decreases events.len(),
{
    if events.len() == 0 {
        None
    } else {
        next_mark(mark_after(events.drop_last()), events.last())
    }
}

/// The rows the log writes for the events: one per event after the first.
pub open spec fn rows_for(events: Seq<TxInfo>) -> Seq<ReorderRow> {
    Seq::new(
        if events.len() == 0 {
            0nat
        } else {
            (events.len() - 1) as nat
        },
        |i: int| row_of(mark_after(events.take(i + 1)).unwrap(), events[i + 1]),
    )
}

impl ReorderLog {
    /// A log that has seen nothing.
    pub fn new() -> (r: ReorderLog)
        ensures
            r.max_seen is None,
    {
        ReorderLog { max_seen: None }
    }

    /// Takes the next completed packet: the row it yields, if any, and the
    /// moved mark.
    pub fn observe(&mut self, tx_info: TxInfo) -> (r: Option<ReorderRow>)
        ensures
            r == match old(self).max_seen {
                None => None::<ReorderRow>,
                Some(m) => Some(row_of(m, tx_info)),
            },
            final(self).max_seen == next_mark(old(self).max_seen, tx_info),
    {
        match self.max_seen {
            None => {
                self.max_seen = Some(tx_info);
                None
            },
            Some(m) => {
                let row = ReorderRow {
                    max_seen_tx_id: m.tx_id,
                    max_seen_timestamp_ms: m.timestamp_ms,
                    current_tx_id: tx_info.tx_id,
                    current_timestamp_ms: tx_info.timestamp_ms,
                };
                if tx_info.tx_id > m.tx_id {
                    self.max_seen = Some(tx_info);
                }
                Some(row)
            },
        }
    }
}

/// Every row the log writes for a sequence of completed packets.
pub fn reorder_rows(events: &Vec<TxInfo>) -> (r: Vec<ReorderRow>)
    ensures
        r@ == rows_for(events@),
{
    let mut log = ReorderLog::new();
    let mut rows: Vec<ReorderRow> = Vec::new();
    let mut i: usize = 0;
    while i < events.len()
        invariant
            i <= events@.len(),
            log.max_seen == mark_after(events@.take(i as int)),
            rows@ == rows_for(events@.take(i as int)),
        decreases events@.len() - i,
    {
        let ghost before = rows@;
        let row = log.observe(events[i]);
        proof {
            let t = events@.take(i + 1);
            assert(t.drop_last() =~= events@.take(i as int));
            if i == 0 {
                assert(events@.take(0) =~= Seq::<TxInfo>::empty());
            }
        }
        match row {
            Some(x) => {
                rows.push(x);
            },
            None => {},
        }
        proof {
            let t = events@.take(i + 1);
            let prev = events@.take(i as int);
            assert forall|k: int| 0 <= k < rows_for(t).len() implies #[trigger] rows_for(t)[k] == rows@[k] by {
                assert(t.take(k + 1) =~= events@.take(k + 1));
                if k + 1 < i {
                    assert(prev.take(k + 1) =~= events@.take(k + 1));
                    assert(rows@[k] == before[k]);
                } else {
                    assert(t.take(k + 1) =~= prev);
                }
            }
            assert(rows@ =~= rows_for(t));
        }
        i = i + 1;
    }
    assert(events@.take(i as int) =~= events@);
    rows
}

/// The mark is a packet that arrived, no packet beat it, and it arrived
/// before any other packet with its sequence number: it moved only on a
/// strictly higher one.
pub proof fn lemma_mark_is_first_maximum(events: Seq<TxInfo>)
    requires
        events.len() > 0,
    ensures
        mark_after(events) is Some,
        exists|k: int|
            0 <= k < events.len() && events[k] == mark_after(events).unwrap() && (forall|j: int|
                0 <= j < k ==> #[trigger] events[j].tx_id < events[k].tx_id),
        forall|i: int| 0 <= i < events.len() ==> #[trigger] events[i].tx_id <= mark_after(events).unwrap().tx_id,
    decreases events.len(),
{
    let p = events.drop_last();
    let last = events.last();
    if p.len() == 0 {
        assert(mark_after(p) is None);
        assert(events[0] == last);
        assert(forall|j: int| 0 <= j < 0 ==> #[trigger] events[j].tx_id < events[0].tx_id);
    } else {
        lemma_mark_is_first_maximum(p);
        let m = mark_after(p).unwrap();
        let k = choose|k: int|
            0 <= k < p.len() && p[k] == m && (forall|j: int| 0 <= j < k ==> #[trigger] p[j].tx_id < p[k].tx_id);
        assert forall|i: int| 0 <= i < events.len() implies #[trigger] events[i].tx_id <= mark_after(events).unwrap().tx_id by {
            if i < p.len() {
                assert(events[i] == p[i]);
            }
        }
        if last.tx_id > m.tx_id {
            let n = events.len() - 1;
            assert forall|j: int| 0 <= j < n implies #[trigger] events[j].tx_id < events[n].tx_id by {
                assert(events[j] == p[j]);
            }
        } else {
            assert(events[k] == p[k]);
            assert forall|j: int| 0 <= j < k implies #[trigger] events[j].tx_id < events[k].tx_id by {
                assert(events[j] == p[j]);
            }
        }
    }
}

} // verus!
