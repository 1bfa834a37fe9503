//! The per-stream list of received chunks, held in a `smallvec::SmallVec`
//! with room for two chunks inline.
use vstd::prelude::*;

verus! {

/// One contiguous run of bytes of a stream, with where it lands in the packet.
pub struct PacketChunk {
    pub bytes: Vec<u8>,
    /// Offset of the first byte in the stream, and so in the packet buffer.
    pub offset: usize,
    /// Offset one past the last byte.
    pub end_of_chunk: usize,
}

/// The chunks of one in-flight stream. The `SmallVec` keeps up to two chunks
/// inline, the common case, and spills to the heap beyond that.
#[verifier::external_body]
pub struct ChunkList {
    inner: smallvec::SmallVec<[PacketChunk; 2]>,
}

/// The chunks that a chunk list holds, in the order they were pushed.
pub uninterp spec fn chunks_held(v: ChunkList) -> Seq<PacketChunk>;

/// Relies on `SmallVec::new`: the new vector is empty.
#[verifier::external_body]
pub(crate) fn chunk_list_new() -> (r: ChunkList)
    ensures
        chunks_held(r) == Seq::<PacketChunk>::empty(),
{
    ChunkList { inner: smallvec::SmallVec::new() }
}

/// Relies on `SmallVec::push`: the item is appended after the others.
#[verifier::external_body]
pub(crate) fn chunk_list_push(v: &mut ChunkList, c: PacketChunk)
    ensures
        chunks_held(*final(v)) == chunks_held(*old(v)).push(c),
{
    v.inner.push(c)
}

/// Relies on `SmallVec::len`: the number of items held.
#[verifier::external_body]
pub(crate) fn chunk_list_len(v: &ChunkList) -> (r: usize)
    ensures
        r == chunks_held(*v).len(),
{
    v.inner.len()
}

/// Relies on `SmallVec::as_slice`: the items in order, read by index.
#[verifier::external_body]
pub(crate) fn chunk_list_get(v: &ChunkList, i: usize) -> (r: &PacketChunk)
    requires
        i < chunks_held(*v).len(),
    ensures
        *r == chunks_held(*v)[i as int],
{
    &v.inner.as_slice()[i]
}

} // verus!
