use mock_server::admission::{
    admit_connection, check_connection_limit, connection_step, AcceptStream, Admission,
    ConnectionStep,
};
use mock_server::reassembly::{StreamError, StreamStep};
use mock_server::reorder::{reorder_rows, ReorderLog, ReorderRow};
use mock_server::stats::{
    admission_event, bit_rate_unit, stream_event, BitRateUnit, Stats, StatsEvent,
};
use mock_server::wire::TxInfo;

fn tx(id: u64) -> TxInfo {
    TxInfo { tx_id: id, timestamp_ms: 1000 + id }
}

#[test]
fn attempt_past_limit_is_refused_and_counted() {
    let mut stats = Stats::new();
    let limit = Some(3usize);
    for open in 0..3usize {
        let d = admit_connection(open, limit, false, true);
        assert_eq!(d, Admission::Accept);
        stats.record(admission_event(d).unwrap());
    }
    let before = stats.load_current();
    let d = admit_connection(3, limit, false, true);
    assert_eq!(d, Admission::Refuse);
    stats.record(admission_event(d).unwrap());
    assert_eq!(stats.num_refused_connections, before.num_refused_connections + 1);
    assert_eq!(stats.num_accepted_connections, before.num_accepted_connections);
    assert_eq!(stats.num_accepted_connections, 3);
}

#[test]
fn no_limit_never_refuses() {
    assert!(!check_connection_limit(1_000_000, None));
    assert_eq!(admit_connection(1_000_000, None, false, false), Admission::Accept);
}

#[test]
fn unvalidated_peer_gets_retry_without_counting() {
    assert_eq!(admit_connection(0, Some(10), true, false), Admission::Retry);
    assert_eq!(admission_event(Admission::Retry), None);
    assert_eq!(admit_connection(0, Some(10), true, true), Admission::Accept);
    assert_eq!(admit_connection(10, Some(10), true, false), Admission::Refuse);
}

#[test]
fn connection_steps() {
    assert_eq!(connection_step(true, AcceptStream::Opened), ConnectionStep::Stop);
    assert_eq!(connection_step(false, AcceptStream::ApplicationClosed), ConnectionStep::Stop);
    assert_eq!(connection_step(false, AcceptStream::Failed), ConnectionStep::Errored);
    assert_eq!(connection_step(false, AcceptStream::Opened), ConnectionStep::ReadStream);
}

#[test]
fn stream_results_move_their_counters() {
    assert_eq!(stream_event(&Ok(StreamStep::Pending)), StatsEvent::ReceivedStreamChunk);
    assert_eq!(stream_event(&Ok(StreamStep::Finished(None))), StatsEvent::FinishedStream);
    assert_eq!(stream_event(&Err(StreamError::FailedReadChunk)), StatsEvent::ErroredStream);
}

#[test]
fn throughput_between_snapshots() {
    let mut stats = Stats::new();
    let previous = stats.load_current();
    for _ in 0..10 {
        stats.record(StatsEvent::FinishedStream);
        stats.record(StatsEvent::ReceivedBytes(251));
    }
    stats.record(StatsEvent::ErroredStream);
    let t = stats.load_current().tps_bitrate(&previous);
    assert_eq!(t.tps, 10);
    assert_eq!(t.received_bytes, 2510);
    assert_eq!(t.unit, BitRateUnit::Kilobits);
    assert_eq!(stats.num_errored_streams, 1);
}

#[test]
fn counters_saturate() {
    let mut stats = Stats::new();
    stats.record(StatsEvent::ReceivedBytes(u64::MAX - 1));
    stats.record(StatsEvent::ReceivedBytes(5));
    assert_eq!(stats.num_received_bytes, u64::MAX);
}

#[test]
fn bit_rate_units_at_binary_thresholds() {
    assert_eq!(bit_rate_unit(0), BitRateUnit::Bits);
    assert_eq!(bit_rate_unit(127), BitRateUnit::Bits);
    assert_eq!(bit_rate_unit(128), BitRateUnit::Kilobits);
    assert_eq!(bit_rate_unit(128 * 1024 - 1), BitRateUnit::Kilobits);
    assert_eq!(bit_rate_unit(128 * 1024), BitRateUnit::Megabits);
    assert_eq!(bit_rate_unit(128 * 1024 * 1024), BitRateUnit::Gigabits);
    assert_eq!(bit_rate_unit(u64::MAX), BitRateUnit::Gigabits);
}

#[test]
fn reorder_rows_for_five_three_seven() {
    let rows = reorder_rows(&vec![tx(5), tx(3), tx(7)]);
    assert_eq!(rows.len(), 2);
    assert_eq!((rows[0].max_seen_tx_id, rows[0].current_tx_id), (5, 3));
    assert_eq!((rows[1].max_seen_tx_id, rows[1].current_tx_id), (5, 7));
    assert_eq!(rows[1].max_seen_timestamp_ms, 1005);
    assert_eq!(rows[1].current_timestamp_ms, 1007);
}

#[test]
fn reorder_mark_moves_only_on_strictly_higher_id() {
    let mut log = ReorderLog::new();
    assert_eq!(log.observe(TxInfo { tx_id: 4, timestamp_ms: 1 }), None);
    let row = log.observe(TxInfo { tx_id: 4, timestamp_ms: 2 }).unwrap();
    assert_eq!(
        row,
        ReorderRow {
            max_seen_tx_id: 4,
            max_seen_timestamp_ms: 1,
            current_tx_id: 4,
            current_timestamp_ms: 2
        }
    );
    assert_eq!(log.max_seen, Some(TxInfo { tx_id: 4, timestamp_ms: 1 }));
    log.observe(TxInfo { tx_id: 9, timestamp_ms: 3 });
    assert_eq!(log.max_seen, Some(TxInfo { tx_id: 9, timestamp_ms: 3 }));
}

#[test]
fn reorder_rows_of_empty_and_single() {
    assert!(reorder_rows(&Vec::new()).is_empty());
    assert!(reorder_rows(&vec![tx(1)]).is_empty());
}

#[test]
fn later_snapshot_is_recognised() {
    let earlier = Stats::new();
    let mut later = earlier.load_current();
    later.record(StatsEvent::FinishedStream);
    assert!(later.is_later_than(&earlier));
    assert!(!earlier.is_later_than(&later));
}
