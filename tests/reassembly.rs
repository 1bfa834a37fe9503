use mock_server::reassembly::{
    assemble_packet, finish_stream, handle_packet_bytes, handle_stream_chunk_accumulation,
    reassemble_stream, PacketAccumulator, StreamChunk, StreamError, StreamStep, PACKET_DATA_SIZE,
};
use mock_server::wire::{generate_dummy_data, TxInfo};

fn chunk(offset: u64, bytes: Vec<u8>) -> StreamChunk {
    StreamChunk { bytes, offset }
}

#[test]
fn valid_chunks_give_one_packet_of_max_end() {
    let chunks = vec![chunk(0, vec![1; 100]), chunk(100, vec![2; 151]), chunk(50, vec![3; 10])];
    let accum = reassemble_stream(&chunks, 7).unwrap().unwrap();
    assert_eq!(accum.size, 251);
    assert_eq!(accum.num_chunks(), 3);
    assert_eq!(accum.start_time, 7);
}

#[test]
fn out_of_order_chunks_keep_largest_end() {
    let chunks = vec![chunk(200, vec![9; 51]), chunk(0, vec![1; 200])];
    let accum = reassemble_stream(&chunks, 0).unwrap().unwrap();
    assert_eq!(accum.size, 251);
}

#[test]
fn chunk_reaching_the_bound_exactly_is_kept() {
    let chunks = vec![chunk(1000, vec![0; 232])];
    let accum = reassemble_stream(&chunks, 0).unwrap().unwrap();
    assert_eq!(accum.size, PACKET_DATA_SIZE);
}

#[test]
fn chunk_past_the_bound_fails_the_stream() {
    let chunks = vec![chunk(0, vec![1; 10]), chunk(1000, vec![0; 233])];
    assert_eq!(reassemble_stream(&chunks, 0).err(), Some(StreamError::FailedReadChunk));
}

#[test]
fn offset_alone_past_the_bound_fails() {
    let chunks = vec![chunk(1233, vec![])];
    assert_eq!(reassemble_stream(&chunks, 0).err(), Some(StreamError::FailedReadChunk));
}

#[test]
fn length_alone_past_the_bound_fails() {
    let chunks = vec![chunk(0, vec![0; 1233])];
    assert_eq!(reassemble_stream(&chunks, 0).err(), Some(StreamError::FailedReadChunk));
}

#[test]
fn overflowing_offset_fails() {
    let chunks = vec![chunk(u64::MAX, vec![1])];
    assert_eq!(reassemble_stream(&chunks, 0).err(), Some(StreamError::FailedReadChunk));
}

#[test]
fn empty_stream_gives_no_packet() {
    let chunks: Vec<StreamChunk> = Vec::new();
    assert!(reassemble_stream(&chunks, 0).unwrap().is_none());
}

#[test]
fn end_of_stream_without_chunks_reports_closed_and_nothing_else() {
    let mut slot: Option<PacketAccumulator> = None;
    let step = handle_stream_chunk_accumulation(None, &mut slot, 0).unwrap();
    let left = match step {
        StreamStep::Finished(left) => left,
        StreamStep::Pending => panic!("stream should be closed"),
    };
    assert!(left.is_none());
    assert!(finish_stream(&left, true).is_none());
    assert!(finish_stream(&left, false).is_none());
}

#[test]
fn bad_chunk_leaves_accumulator_unchanged() {
    let mut slot: Option<PacketAccumulator> = None;
    let step = handle_stream_chunk_accumulation(Some(chunk(0, vec![1; 20])), &mut slot, 5);
    assert!(matches!(step, Ok(StreamStep::Pending)));
    let step = handle_stream_chunk_accumulation(Some(chunk(1300, vec![1])), &mut slot, 6);
    assert!(matches!(step, Err(StreamError::FailedReadChunk)));
    let accum = slot.unwrap();
    assert_eq!(accum.size, 20);
    assert_eq!(accum.num_chunks(), 1);
    assert_eq!(accum.start_time, 5);
}

#[test]
fn later_chunk_wins_on_overlap() {
    let chunks = vec![chunk(0, vec![1; 4]), chunk(2, vec![7; 4])];
    let accum = reassemble_stream(&chunks, 0).unwrap().unwrap();
    let packet = assemble_packet(&accum);
    assert_eq!(packet.len(), PACKET_DATA_SIZE);
    assert_eq!(&packet[0..7], &[1, 1, 7, 7, 7, 7, 0]);
}

#[test]
fn finalized_packet_decodes_header_and_counts_bytes() {
    let mut payload = vec![0u8; 251];
    generate_dummy_data(&mut payload, 42, 1_700_000_000_123, [5u8; 32], 251);
    let chunks = vec![chunk(0, payload[0..100].to_vec()), chunk(100, payload[100..].to_vec())];
    let accum = reassemble_stream(&chunks, 0).unwrap().unwrap();
    let outcome = handle_packet_bytes(&accum, true);
    assert_eq!(outcome.received_bytes, 251);
    assert_eq!(outcome.tx_info, Some(TxInfo { tx_id: 42, timestamp_ms: 1_700_000_000_123 }));
    let quiet = handle_packet_bytes(&accum, false);
    assert_eq!(quiet.received_bytes, 251);
    assert_eq!(quiet.tx_info, None);
}

#[test]
fn header_split_across_chunks_decodes() {
    let mut payload = vec![0u8; 64];
    generate_dummy_data(&mut payload, 0x0102_0304_0506_0708, 99, [0u8; 32], 64);
    let chunks = vec![chunk(5, payload[5..64].to_vec()), chunk(0, payload[0..5].to_vec())];
    let accum = reassemble_stream(&chunks, 0).unwrap().unwrap();
    let outcome = finish_stream(&Some(accum), true).unwrap();
    assert_eq!(outcome.tx_info.unwrap().tx_id, 0x0102_0304_0506_0708);
    assert_eq!(outcome.tx_info.unwrap().timestamp_ms, 99);
    assert_eq!(outcome.received_bytes, 64);
}
