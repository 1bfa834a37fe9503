use mock_server::reassembly::{
    finish_stream, handle_stream_chunk_accumulation, PacketAccumulator, StreamChunk, StreamStep,
    PACKET_DATA_SIZE,
};
use mock_server::reorder::ReorderLog;
use mock_server::sender::{txs_per_connection, SendAction, SendEngine, SendResult};
use mock_server::stats::{stream_event, Stats, StatsEvent};
use mock_server::wire::generate_dummy_data;

/// Feeds one payload to the server side in two chunks, then ends the stream.
fn deliver(payload: &[u8], stats: &mut Stats, log: &mut ReorderLog) -> u64 {
    let mut slot: Option<PacketAccumulator> = None;
    let cut = payload.len() / 3;
    let pieces = vec![
        Some(StreamChunk { bytes: payload[..cut].to_vec(), offset: 0 }),
        Some(StreamChunk { bytes: payload[cut..].to_vec(), offset: cut as u64 }),
        None,
    ];
    let mut id = u64::MAX;
    for piece in pieces {
        let step = handle_stream_chunk_accumulation(piece, &mut slot, 0);
        stats.record(stream_event(&step));
        if let Ok(StreamStep::Finished(left)) = step {
            let outcome = finish_stream(&left, true).unwrap();
            stats.record(StatsEvent::ReceivedBytes(outcome.received_bytes));
            let info = outcome.tx_info.unwrap();
            log.observe(info);
            id = info.tx_id;
        }
    }
    id
}

#[test]
fn hundred_transactions_over_one_connection() {
    let per_connection = txs_per_connection(Some(100), 1).unwrap().unwrap();
    let mut engine = SendEngine::new(251, 100_000_000, None, Some(per_connection as u64)).unwrap();
    let mut buffer = [0u8; PACKET_DATA_SIZE];
    let mut stats = Stats::new();
    let mut log = ReorderLog::new();
    let mut sent_ids = Vec::new();
    loop {
        let id = match engine.next_action(0) {
            SendAction::Stop => break,
            SendAction::Send(id) => id,
        };
        generate_dummy_data(&mut buffer, id, 1_700_000_000_000 + id, [7u8; 32], 251);
        let received = deliver(&buffer[..251], &mut stats, &mut log);
        assert_eq!(&buffer[0..8], &id.to_le_bytes());
        sent_ids.push(received);
        assert!(engine.on_send_result(SendResult::Sent));
    }
    assert_eq!(sent_ids, (0..100u64).collect::<Vec<_>>());
    assert_eq!(engine.transaction_id, 100);
    assert_eq!(stats.num_finished_streams, 100);
    assert_eq!(stats.num_received_bytes, 100 * 251);
    assert_eq!(stats.num_received_streams, 200);
    assert_eq!(stats.num_errored_streams, 0);
    assert_eq!(log.max_seen.unwrap().tx_id, 99);
}
