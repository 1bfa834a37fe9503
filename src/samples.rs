//! Client telemetry: one sample of a connection's transport statistics, and
//! the merge of all connections' samples once every connection has stopped.
use vstd::prelude::*;
use vstd::seq_lib::{to_multiset_build, to_multiset_insert};
use crate::stats::sat_add;

verus! {

/// One reading of a connection's transport statistics.
#[derive(Clone, Copy, Debug, PartialEq, Eq, Structural)]
pub struct StatsSample {
    /// Bytes sent over UDP so far.
    pub udp_tx: u64,
    /// Bytes received over UDP so far.
    pub udp_rx: u64,
    pub congestion_events: u64,
    pub congestion_window: u64,
    pub lost_packets: u64,
    /// When the sample was taken, in microseconds.
    pub time_stamp: u64,
    pub connection_id: u64,
    /// Transactions sent so far on the connection.
    pub sent: u64,
}

/// What each connection hands back: its samples and how many transactions
/// it sent.
pub type ConnectionResult = (Vec<StatsSample>, u64);

/// The samples are in order of `time_stamp`.
pub open spec fn sorted_by_time(s: Seq<StatsSample>) -> bool {
    forall|i: int, j: int| 0 <= i < j < s.len() ==> #[trigger] s[i].time_stamp <= #[trigger] s[j].time_stamp
}

/// All samples of all connections, connection after connection.
pub open spec fn samples_of(results: Seq<ConnectionResult>) -> Seq<StatsSample>
    decreases results.len(),
{
    if results.len() == 0 {
        Seq::empty()
    } else {
        samples_of(results.drop_last()) + results.last().0@
    }
}

/// The transactions sent over all connections, stopping at `u64::MAX`.
pub open spec fn sent_total(results: Seq<ConnectionResult>) -> u64
    decreases results.len(),
{
    if results.len() == 0 {
        0
    } else {
        sat_add(sent_total(results.drop_last()), results.last().1)
    }
}

/// Inserts `x` into the sorted `all` after every sample that is not later
/// than it.
fn insert_by_time(all: &mut Vec<StatsSample>, x: StatsSample)
    requires
        sorted_by_time(old(all)@),
    ensures
        sorted_by_time(final(all)@),
        final(all)@.to_multiset() == old(all)@.to_multiset().insert(x),
{
    let mut pos: usize = all.len();
    while pos > 0 && all[pos - 1].time_stamp > x.time_stamp
        invariant
            pos <= all@.len(),
            all@ == old(all)@,
            forall|k: int| pos <= k < all@.len() ==> #[trigger] all@[k].time_stamp > x.time_stamp,
        decreases pos,
    {
        pos = pos - 1;
    }
    let ghost before = all@;
    all.insert(pos, x);
    proof {
        to_multiset_insert(before, pos as int, x);
        let s = all@;
        assert forall|i: int, j: int| 0 <= i < j < s.len() implies #[trigger] s[i].time_stamp
            <= #[trigger] s[j].time_stamp by {
            if j < pos {
            } else if j == pos {
                if i < pos {
                    assert(before[i].time_stamp <= before[pos - 1].time_stamp);
                }
            } else if i < pos {
                assert(s[i] == before[i]);
                assert(s[j] == before[j - 1]);
            } else if i == pos {
                assert(s[j] == before[j - 1]);
            } else {
                assert(s[i] == before[i - 1]);
                assert(s[j] == before[j - 1]);
            }
        }
    }
}

/// Merges what every connection handed back: all samples, in order of
/// `time_stamp` (samples with equal times keep their order), and the total
/// number of transactions sent.
pub fn merge_samples(results: &Vec<ConnectionResult>) -> (r: (Vec<StatsSample>, u64))
    ensures
        sorted_by_time(r.0@),
        r.0@.to_multiset() == samples_of(results@).to_multiset(),
        r.1 == sent_total(results@),
{
    let mut all: Vec<StatsSample> = Vec::new();
    let mut total: u64 = 0;
    let mut i: usize = 0;
    while i < results.len()
        invariant
            i <= results@.len(),
            sorted_by_time(all@),
            all@.to_multiset() == samples_of(results@.take(i as int)).to_multiset(),
            total == sent_total(results@.take(i as int)),
        decreases results@.len() - i,
    {
        let ghost base = samples_of(results@.take(i as int));
        let samples = &results[i].0;
        let mut j: usize = 0;
        while j < samples.len()
            invariant
                j <= samples@.len(),
                sorted_by_time(all@),
                all@.to_multiset() == (base + samples@.take(j as int)).to_multiset(),
            decreases samples@.len() - j,
        {
            let x = samples[j];
            insert_by_time(&mut all, x);
            proof {
                assert(base + samples@.take(j + 1) =~= (base + samples@.take(j as int)).push(x));
                to_multiset_build(base + samples@.take(j as int), x);
            }
            j = j + 1;
        }
        total = total.saturating_add(results[i].1);
        proof {
            let t = results@.take(i + 1);
            assert(t.drop_last() =~= results@.take(i as int));
            assert(samples@.take(j as int) =~= samples@);
            assert(samples_of(t) == base + samples@);
        }
        i = i + 1;
    }
    assert(results@.take(i as int) =~= results@);
    (all, total)
}

} // verus!
