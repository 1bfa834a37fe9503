//! Turns the chunks of one unidirectional stream into one bounded packet.
//!
//! Every chunk is checked against the packet bound before it is kept; a
//! chunk that breaks it fails the whole stream. At the end of the stream the
//! chunks are copied into a packet buffer at their offsets, later chunks
//! overwriting earlier ones where they overlap.
use vstd::prelude::*;
use crate::chunk_store::{
    chunk_list_get, chunk_list_len, chunk_list_new, chunk_list_push, chunks_held, ChunkList,
    PacketChunk,
};
use crate::wire::{le_value, write_at, TxInfo};

verus! {

/// Largest packet, in bytes, that a stream may carry.
pub const PACKET_DATA_SIZE: usize = 1232;

/// A chunk as the transport hands it over: its bytes and their offset in
/// the stream.
pub struct StreamChunk {
    pub bytes: Vec<u8>,
    pub offset: u64,
}

/// Why a stream was given up.
#[derive(Clone, Copy, Debug, PartialEq, Eq, Structural)]
pub enum StreamError {
    /// A chunk's offset or length lies beyond the packet bound.
    FailedReadChunk,
}

/// The chunks of an in-flight stream, with the packet size they imply and
/// the time the first of them came in.
pub struct PacketAccumulator {
    /// The largest end offset over the chunks.
    pub size: usize,
    pub chunks: ChunkList,
    pub start_time: u64,
}

/// What one step of the reassembler leaves behind.
pub enum StreamStep {
    /// The chunk was kept; the stream goes on.
    Pending,
    /// The stream ended; this is what was accumulated, if anything was.
    Finished(Option<PacketAccumulator>),
}

/// What finalizing a packet yields: the decoded header when it was asked
/// for, and the packet size to add to the received byte count.
#[derive(Clone, Copy, Debug, PartialEq, Eq, Structural)]
pub struct PacketOutcome {
    pub tx_info: Option<TxInfo>,
    pub received_bytes: u64,
}

/// A chunk at `offset` with `len` bytes stays within the packet bound.
pub open spec fn chunk_fits(offset: nat, len: nat) -> bool {
    offset <= PACKET_DATA_SIZE && len <= PACKET_DATA_SIZE && offset + len <= PACKET_DATA_SIZE
}

/// Every chunk of the stream stays within the packet bound.
pub open spec fn stream_fits(chunks: Seq<StreamChunk>) -> bool {
    forall|i: int|
        0 <= i < chunks.len() ==> chunk_fits(#[trigger] chunks[i].offset as nat, chunks[i].bytes@.len())
}

/// The largest `offset + length` over the chunks of a stream (0 for none).
pub open spec fn stream_end(chunks: Seq<StreamChunk>) -> nat
    decreases chunks.len(),
{
    if chunks.len() == 0 {
        0
    } else {
        let last = chunks.last();
        let e = last.offset as nat + last.bytes@.len();
        let m = stream_end(chunks.drop_last());
        if e > m {
            e
        } else {
            m
        }
    }
}

/// The largest end offset over kept chunks (0 for none).
pub open spec fn max_end(chunks: Seq<PacketChunk>) -> nat
    decreases chunks.len(),
{
    if chunks.len() == 0 {
        0
    } else {
        let e = chunks.last().end_of_chunk as nat;
        let m = max_end(chunks.drop_last());
        if e > m {
            e
        } else {
            m
        }
    }
}

/// A kept chunk records its end and lies within the packet bound.
pub open spec fn chunk_wf(c: PacketChunk) -> bool {
    &&& c.end_of_chunk == c.offset + c.bytes@.len()
    &&& c.end_of_chunk <= PACKET_DATA_SIZE
}

/// The zeroed packet buffer.
pub open spec fn empty_packet() -> Seq<u8> {
    Seq::new(PACKET_DATA_SIZE as nat, |i: int| 0u8)
}

/// The packet buffer after writing the chunks in order at their offsets.
pub open spec fn assemble(chunks: Seq<PacketChunk>) -> Seq<u8>
    decreases chunks.len(),
{
    if chunks.len() == 0 {
        empty_packet()
    } else {
        write_at(assemble(chunks.drop_last()), chunks.last().offset as int, chunks.last().bytes@)
    }
}

/// The header that a packet buffer carries.
pub open spec fn tx_info_of(packet: Seq<u8>) -> TxInfo {
    TxInfo {
        tx_id: le_value(packet.subrange(0, 8)) as u64,
        timestamp_ms: le_value(packet.subrange(8, 16)) as u64,
    }
}

impl PacketAccumulator {
    pub open spec fn chunk_seq(&self) -> Seq<PacketChunk> {
        chunks_held(self.chunks)
    }

    /// Every chunk lies within the bound, and `size` is their largest end.
    pub open spec fn wf(&self) -> bool {
        &&& forall|i: int| 0 <= i < self.chunk_seq().len() ==> chunk_wf(#[trigger] self.chunk_seq()[i])
        &&& self.size == max_end(self.chunk_seq())
    }
}

/// The chunks kept before a step: none when no accumulator existed yet.
pub open spec fn chunks_before(accum: Option<PacketAccumulator>) -> Seq<PacketChunk> {
    match accum {
        Some(a) => a.chunk_seq(),
        None => Seq::empty(),
    }
}

/// The packet size before a step: 0 when no accumulator existed yet.
pub open spec fn size_before(accum: Option<PacketAccumulator>) -> usize {
    match accum {
        Some(a) => a.size,
        None => 0,
    }
}

/// `after` is `before` with the chunk `c` appended; an accumulator created
/// for it is stamped with `now`.
pub open spec fn accum_extended(
    before: Option<PacketAccumulator>,
    after: Option<PacketAccumulator>,
    c: StreamChunk,
    now: u64,
) -> bool {
    &&& after is Some
    &&& after.unwrap().wf()
    &&& after.unwrap().chunk_seq() == chunks_before(before).push(
        PacketChunk {
            bytes: c.bytes,
            offset: c.offset as usize,
            end_of_chunk: (c.offset + c.bytes@.len()) as usize,
        },
    )
    &&& after.unwrap().size == if c.offset + c.bytes@.len() > size_before(before) {
        (c.offset + c.bytes@.len()) as usize
    } else {
        size_before(before)
    }
    &&& after.unwrap().start_time == match before {
        Some(a) => a.start_time,
        None => now,
    }
}

proof fn lemma_assemble_len(chunks: Seq<PacketChunk>)
    ensures
        assemble(chunks).len() == PACKET_DATA_SIZE,
    decreases chunks.len(),
{
    if chunks.len() > 0 {
        lemma_assemble_len(chunks.drop_last());
    }
}

proof fn lemma_max_end_bound(chunks: Seq<PacketChunk>)
    requires
        forall|i: int| 0 <= i < chunks.len() ==> chunk_wf(#[trigger] chunks[i]),
    ensures
        max_end(chunks) <= PACKET_DATA_SIZE,
    decreases chunks.len(),
{
    if chunks.len() > 0 {
        let p = chunks.drop_last();
        assert forall|i: int| 0 <= i < p.len() implies chunk_wf(#[trigger] p[i]) by {
            assert(p[i] == chunks[i]);
        }
        lemma_max_end_bound(p);
        assert(chunk_wf(chunks[chunks.len() - 1]));
    }
}

impl PacketAccumulator {
    /// How many chunks were kept.
    pub fn num_chunks(&self) -> (r: usize)
        ensures
            r == self.chunk_seq().len(),
    {
        chunk_list_len(&self.chunks)
    }
}

/// Checks one chunk against the packet bound and, if it fits, appends it to
/// the accumulator, creating the accumulator on the first chunk.
pub fn accumulate_chunk(c: StreamChunk, packet_accum: &mut Option<PacketAccumulator>, now: u64) -> (r:
    Result<(), StreamError>)
    requires
        old(packet_accum).is_some() ==> old(packet_accum).unwrap().wf(),
    ensures
        if chunk_fits(c.offset as nat, c.bytes@.len()) {
            &&& r == Ok::<(), StreamError>(())
            &&& accum_extended(*old(packet_accum), *final(packet_accum), c, now)
        } else {
            &&& r == Err::<(), StreamError>(StreamError::FailedReadChunk)
            &&& *final(packet_accum) == *old(packet_accum)
        },
{
    let chunk_len = c.bytes.len();
    if c.offset > PACKET_DATA_SIZE as u64 || chunk_len > PACKET_DATA_SIZE {
        return Err(StreamError::FailedReadChunk);
    }
    let end_of_chunk = match c.offset.checked_add(chunk_len as u64) {
        None => {
            return Err(StreamError::FailedReadChunk);
        },
        Some(e) => e,
    };
    if end_of_chunk > PACKET_DATA_SIZE as u64 {
        return Err(StreamError::FailedReadChunk);
    }
    let ghost before = *packet_accum;
    let piece = PacketChunk {
        bytes: c.bytes,
        offset: c.offset as usize,
        end_of_chunk: end_of_chunk as usize,
    };
    let mut accum = match packet_accum.take() {
        Some(a) => a,
        None => PacketAccumulator { size: 0, chunks: chunk_list_new(), start_time: now },
    };
    let ghost prev = accum.chunk_seq();
    chunk_list_push(&mut accum.chunks, piece);
    if accum.size < end_of_chunk as usize {
        accum.size = end_of_chunk as usize;
    }
    proof {
        let s = accum.chunk_seq();
        assert(s.drop_last() =~= prev);
        assert forall|i: int| 0 <= i < s.len() implies chunk_wf(#[trigger] s[i]) by {
            if i < prev.len() {
                assert(s[i] == prev[i]);
            }
        }
        assert(prev == chunks_before(before));
        assert(max_end(prev) == match before { Some(a) => a.size, None => 0usize });
        assert(accum.size == max_end(s));
        assert(accum.wf());
    }
    *packet_accum = Some(accum);
    Ok(())
}


/// Handles one read from a stream. `None` is the end of the stream: the
/// accumulator, if any, is handed back for finalizing and the slot is
/// cleared. A chunk is checked against the packet bound; one that breaks it
/// fails the stream and leaves the slot as it was. A chunk that fits is
/// appended, creating the accumulator on the first chunk.
pub fn handle_stream_chunk_accumulation(
    chunk: Option<StreamChunk>,
    packet_accum: &mut Option<PacketAccumulator>,
    now: u64,
) -> (r: Result<StreamStep, StreamError>)
    requires
        old(packet_accum).is_some() ==> old(packet_accum).unwrap().wf(),
    ensures
        match chunk {
            None => {
                &&& r == Ok::<StreamStep, StreamError>(StreamStep::Finished(*old(packet_accum)))
                &&& *final(packet_accum) is None
            },
            Some(c) => if chunk_fits(c.offset as nat, c.bytes@.len()) {
                &&& r == Ok::<StreamStep, StreamError>(StreamStep::Pending)
                &&& accum_extended(*old(packet_accum), *final(packet_accum), c, now)
            } else {
                &&& r == Err::<StreamStep, StreamError>(StreamError::FailedReadChunk)
                &&& *final(packet_accum) == *old(packet_accum)
            },
        },
{
    match chunk {
        None => {
            let taken = packet_accum.take();
            Ok(StreamStep::Finished(taken))
        },
        Some(c) => {
            match accumulate_chunk(c, packet_accum, now) {
                Ok(()) => Ok(StreamStep::Pending),
                Err(e) => Err(e),
            }
        },
    }
}


/// Runs a whole stream through the reassembler: each chunk in order, then
/// the end of the stream. A stream whose chunks all fit yields exactly one
/// packet, whose size is the largest `offset + length` over its chunks (no
/// packet at all for a stream without chunks). A stream with a chunk that
/// does not fit yields the framing error and no packet.
pub fn reassemble_stream(chunks: &Vec<StreamChunk>, now: u64) -> (r: Result<
    Option<PacketAccumulator>,
    StreamError,
>)
    ensures
        r is Ok <==> stream_fits(chunks@),
        r is Err ==> r == Err::<Option<PacketAccumulator>, StreamError>(StreamError::FailedReadChunk),
        r matches Ok(p) ==> (p is None <==> chunks@.len() == 0),
        r matches Ok(Some(a)) ==> {
            &&& a.wf()
            &&& a.size == stream_end(chunks@)
            &&& a.chunk_seq().len() == chunks@.len()
            &&& a.start_time == now
        },
{
    let mut packet_accum: Option<PacketAccumulator> = None;
    let mut i: usize = 0;
    while i < chunks.len()
        invariant
            i <= chunks@.len(),
            forall|j: int| 0 <= j < i ==> chunk_fits(#[trigger] chunks@[j].offset as nat, chunks@[j].bytes@.len()),
            packet_accum is None <==> i == 0,
            packet_accum matches Some(a) ==> {
                &&& a.wf()
                &&& a.size == stream_end(chunks@.take(i as int))
                &&& a.chunk_seq().len() == i
                &&& a.start_time == now
            },
        decreases chunks@.len() - i,
    {
        let piece = StreamChunk { bytes: chunks[i].bytes.clone(), offset: chunks[i].offset };
        let ghost before = packet_accum;
        let ghost e = piece.offset as nat + piece.bytes@.len();
        assert(e == chunks@[i as int].offset as nat + chunks@[i as int].bytes@.len());
        assert(size_before(before) == stream_end(chunks@.take(i as int))) by {
            if i == 0 {
                assert(chunks@.take(0) =~= Seq::<StreamChunk>::empty());
            }
        }
        match accumulate_chunk(piece, &mut packet_accum, now) {
            Ok(()) => {},
            Err(e) => {
                assert(!chunk_fits(chunks@[i as int].offset as nat, chunks@[i as int].bytes@.len()));
                return Err(e);
            },
        }
        proof {
            let t = chunks@.take(i + 1);
            assert(t.drop_last() =~= chunks@.take(i as int));
            assert(t.last() == chunks@[i as int]);
            let a = packet_accum.unwrap();
            assert(a.chunk_seq().drop_last() =~= chunks_before(before));
            if i == 0 {
                assert(chunks@.take(0) =~= Seq::<StreamChunk>::empty());
            }
            assert(a.wf());
            assert(a.chunk_seq().len() == i + 1);
            assert(a.start_time == now);
            assert(a.size == stream_end(t));
        }
        i = i + 1;
    }
    assert(chunks@.take(i as int) =~= chunks@);
    match handle_stream_chunk_accumulation(None, &mut packet_accum, now) {
        Ok(StreamStep::Finished(p)) => Ok(p),
        _ => Err(StreamError::FailedReadChunk),
    }
}

/// Copies the chunks into a zeroed packet buffer at their offsets, in the
/// order they came; where chunks overlap, the later one wins.
pub fn assemble_packet(accum: &PacketAccumulator) -> (r: Vec<u8>)
    requires
        accum.wf(),
    ensures
        r@ == assemble(accum.chunk_seq()),
{
    let mut dest: Vec<u8> = Vec::new();
    while dest.len() < PACKET_DATA_SIZE
        invariant
            dest@.len() <= PACKET_DATA_SIZE,
            forall|k: int| 0 <= k < dest@.len() ==> dest@[k] == 0u8,
        decreases PACKET_DATA_SIZE - dest@.len(),
    {
        dest.push(0u8);
    }
    assert(dest@ =~= empty_packet());
    let ghost chunks = accum.chunk_seq();
    let n = chunk_list_len(&accum.chunks);
    let mut i: usize = 0;
    while i < n
        invariant
            i <= n,
            n == chunks.len(),
            chunks == accum.chunk_seq(),
            accum.wf(),
            dest@ == assemble(chunks.take(i as int)),
            dest@.len() == PACKET_DATA_SIZE,
        decreases n - i,
    {
        let chunk = chunk_list_get(&accum.chunks, i);
        assert(chunk_wf(chunks[i as int]));
        let ghost base = dest@;
        let len = chunk.bytes.len();
        let mut j: usize = 0;
        while j < len
            invariant
                j <= len,
                len == chunk.bytes@.len(),
                chunk_wf(*chunk),
                base.len() == PACKET_DATA_SIZE,
                dest@ == write_at(base, chunk.offset as int, chunk.bytes@.take(j as int)),
            decreases len - j,
        {
            dest.set(chunk.offset + j, chunk.bytes[j]);
            j = j + 1;
            assert(dest@ =~= write_at(base, chunk.offset as int, chunk.bytes@.take(j as int)));
        }
        proof {
            assert(chunk.bytes@.take(len as int) =~= chunk.bytes@);
            let t = chunks.take(i + 1);
            assert(t.drop_last() =~= chunks.take(i as int));
            assert(t.last() == chunks[i as int]);
        }
        i = i + 1;
    }
    assert(chunks.take(n as int) =~= chunks);
    dest
}

/// Finalizes a packet: the received byte count grows by its size, and when
/// a reorder log is kept, its header is decoded from the assembled buffer.
/// Without a log no buffer is built.
pub fn handle_packet_bytes(accum: &PacketAccumulator, forward_tx_info: bool) -> (r: PacketOutcome)
    requires
        accum.wf(),
    ensures
        r.received_bytes == accum.size,
        forward_tx_info ==> r.tx_info == Some(tx_info_of(assemble(accum.chunk_seq()))),
        !forward_tx_info ==> r.tx_info is None,
{
    proof {
        lemma_max_end_bound(accum.chunk_seq());
        lemma_assemble_len(accum.chunk_seq());
    }
    let tx_info = if forward_tx_info {
        let dest = assemble_packet(accum);
        let info = TxInfo::from_bytes(dest.as_slice());
        Some(info)
    } else {
        None
    };
    PacketOutcome { tx_info, received_bytes: accum.size as u64 }
}

/// Finalizes what a finished stream left. A stream that ended before any
/// chunk came yields nothing: no header and no received bytes.
pub fn finish_stream(accum: &Option<PacketAccumulator>, forward_tx_info: bool) -> (r: Option<
    PacketOutcome,
>)
    requires
        accum.is_some() ==> accum.unwrap().wf(),
    ensures
        accum is None <==> r is None,
        r matches Some(o) ==> {
            &&& o.received_bytes == accum.unwrap().size
            &&& forward_tx_info ==> o.tx_info == Some(tx_info_of(assemble(accum.unwrap().chunk_seq())))
            &&& !forward_tx_info ==> o.tx_info is None
        },
{
    match accum {
        None => None,
        Some(a) => Some(handle_packet_bytes(a, forward_tx_info)),
    }
}

} // verus!
