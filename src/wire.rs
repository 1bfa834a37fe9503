//! Byte layout of a transaction payload: bytes 0..8 hold the sequence number,
//! bytes 8..16 the send time in milliseconds, bytes 16..48 the sender's
//! identity, all integers little-endian. The rest is filler.
use vstd::prelude::*;
use vstd::arithmetic::div_mod::lemma_mod_breakdown;

verus! {

/// Offset of the sequence number in a payload.
pub const TX_ID_OFFSET: usize = 0;
/// Offset of the send timestamp in a payload.
pub const TIMESTAMP_OFFSET: usize = 8;
/// Offset of the 32-byte sender identity in a payload.
pub const IDENTITY_OFFSET: usize = 16;
/// Length of the payload header: sequence number, timestamp and identity.
pub const HEADER_LEN: usize = 48;

/// `256` to the power `n`.
pub open spec fn pow256(n: nat) -> nat
    decreases n,
{
    if n == 0 {
        1
    } else {
        256 * pow256((n - 1) as nat)
    }
}

/// The number that a byte sequence encodes, least significant byte first.
pub open spec fn le_value(s: Seq<u8>) -> nat
    decreases s.len(),
{
    if s.len() == 0 {
        0
    } else {
        s[0] as nat + 256 * le_value(s.drop_first())
    }
}

/// The `n` low bytes of `x`, least significant first.
pub open spec fn le_bytes(x: nat, n: nat) -> Seq<u8>
    decreases n,
{
    if n == 0 {
        Seq::empty()
    } else {
        seq![(x % 256) as u8] + le_bytes(x / 256, (n - 1) as nat)
    }
}

/// `buf` with `data` written over it from position `off` on; what falls
/// outside `buf` is dropped.
pub open spec fn write_at(buf: Seq<u8>, off: int, data: Seq<u8>) -> Seq<u8> {
    Seq::new(buf.len(), |i: int| if off <= i < off + data.len() { data[i - off] } else { buf[i] })
}

proof fn lemma_le_bytes_len(x: nat, n: nat)
    ensures
        le_bytes(x, n).len() == n,
    decreases n,
{
    if n > 0 {
        lemma_le_bytes_len(x / 256, (n - 1) as nat);
    }
}

proof fn lemma_pow256_pos(n: nat)
    ensures
        pow256(n) >= 1,
    decreases n,
{
    if n > 0 {
        lemma_pow256_pos((n - 1) as nat);
    }
}

proof fn lemma_le_value_bound(s: Seq<u8>)
    ensures
        le_value(s) < pow256(s.len()),
    decreases s.len(),
{
    if s.len() > 0 {
        lemma_le_value_bound(s.drop_first());
        let v = le_value(s.drop_first());
        let p = pow256(s.drop_first().len());
        assert(s[0] as nat + 256 * v < 256 * p) by (nonlinear_arith)
            requires
                v < p,
                s[0] < 256,
        ;
    }
}

/// Decoding the `n` low bytes of `x` gives back `x` modulo `256^n`; in
/// particular every `u64` survives an eight-byte round trip unchanged.
pub proof fn lemma_le_round_trip(x: nat, n: nat)
    ensures
        le_value(le_bytes(x, n)) == x % pow256(n),
    decreases n,
{
    let s = le_bytes(x, n);
    if n == 0 {
        assert(x % 1 == 0);
    } else {
        let rest = le_bytes(x / 256, (n - 1) as nat);
        lemma_le_round_trip(x / 256, (n - 1) as nat);
        assert(s.drop_first() =~= rest);
        lemma_pow256_pos((n - 1) as nat);
        lemma_mod_breakdown(x as int, 256, pow256((n - 1) as nat) as int);
    }
}

/// Every `u64` is below `256^8`.
pub proof fn lemma_u64_fits_eight_bytes(x: u64)
    ensures
        (x as nat) % pow256(8) == x as nat,
        pow256(8) == 0x1_0000_0000_0000_0000nat,
{
    reveal_with_fuel(pow256, 9);
    assert(pow256(8) == 0x1_0000_0000_0000_0000nat);
}

/// The header that `generate_dummy_data` writes over `buf`.
pub open spec fn header_written(buf: Seq<u8>, transaction_id: u64, timestamp: u64, identity: Seq<u8>) -> Seq<
    u8,
> {
    write_at(
        write_at(write_at(buf, 0, le_bytes(transaction_id as nat, 8)), 8, le_bytes(timestamp as nat, 8)),
        16,
        identity,
    )
}

/// Decoding a payload header gives back the sequence number and timestamp
/// that were written into it, whatever the buffer held before.
pub proof fn lemma_header_round_trip(buf: Seq<u8>, transaction_id: u64, timestamp: u64, identity: Seq<u8>)
    requires
        buf.len() >= HEADER_LEN,
        identity.len() == 32,
    ensures
        le_value(header_written(buf, transaction_id, timestamp, identity).subrange(0, 8))
            == transaction_id,
        le_value(header_written(buf, transaction_id, timestamp, identity).subrange(8, 16))
            == timestamp,
{
    lemma_le_bytes_len(transaction_id as nat, 8);
    lemma_le_bytes_len(timestamp as nat, 8);
    let out = header_written(buf, transaction_id, timestamp, identity);
    assert(out.subrange(0, 8) =~= le_bytes(transaction_id as nat, 8));
    assert(out.subrange(8, 16) =~= le_bytes(timestamp as nat, 8));
    lemma_le_round_trip(transaction_id as nat, 8);
    lemma_le_round_trip(timestamp as nat, 8);
    lemma_u64_fits_eight_bytes(transaction_id);
    lemma_u64_fits_eight_bytes(timestamp);
}

/// Reads the little-endian `u64` at `data[start..start + 8]`.
pub fn read_u64_le(data: &[u8], start: usize) -> (r: u64)
    requires
        start + 8 <= data@.len(),
    ensures
        r as nat == le_value(data@.subrange(start as int, start + 8)),
{
    proof {
        reveal_with_fuel(pow256, 9);
    }
    let len = data.len();
    let mut acc: u64 = 0;
    let mut i: usize = 8;
    while i > 0
        invariant
            i <= 8,
            start + 8 <= data@.len(),
            len == data@.len(),
            acc as nat == le_value(data@.subrange(start + i, start + 8)),
            acc < pow256((8 - i) as nat),
            pow256(8) == 0x1_0000_0000_0000_0000nat,
        decreases i,
    {
        let ghost tail = data@.subrange(start + i, start + 8);
        i = i - 1;
        let ghost s = data@.subrange(start + i, start + 8);
        assert(s.drop_first() =~= tail);
        let b = data[start + i];
        proof {
            let k = (8 - i - 1) as nat;
            assert(pow256((8 - i) as nat) == 256 * pow256(k));
            if k < 7 {
                assert(pow256(8) >= 256 * pow256(k)) by {
                    reveal_with_fuel(pow256, 9);
                }
            }
            assert((acc as nat) * 256 + (b as nat) < 256 * pow256(k)) by (nonlinear_arith)
                requires
                    acc < pow256(k),
                    b < 256,
            ;
        }
        acc = acc * 256 + b as u64;
    }
    acc
}

/// Writes `x` little-endian into `buf[start..start + 8]`.
pub fn write_u64_le(buf: &mut [u8], start: usize, x: u64)
    requires
        start + 8 <= old(buf)@.len(),
    ensures
        final(buf)@ == write_at(old(buf)@, start as int, le_bytes(x as nat, 8)),
{
    let ghost full = le_bytes(x as nat, 8);
    proof {
        lemma_le_bytes_len(x as nat, 8);
    }
    let len = buf.len();
    let mut v: u64 = x;
    let mut k: usize = 0;
    while k < 8
        invariant
            k <= 8,
            start + 8 <= old(buf)@.len(),
            len == old(buf)@.len(),
            full.len() == 8,
            full == le_bytes(x as nat, 8),
            buf@ == write_at(old(buf)@, start as int, full.take(k as int)),
            full.skip(k as int) == le_bytes(v as nat, (8 - k) as nat),
        decreases 8 - k,
    {
        let ghost rest = le_bytes(v as nat, (8 - k) as nat);
        assert(rest[0] == (v % 256) as u8);
        assert(full[k as int] == full.skip(k as int)[0]);
        assert(full.skip(k as int + 1) =~= full.skip(k as int).drop_first());
        assert(rest.drop_first() =~= le_bytes((v / 256) as nat, (8 - k - 1) as nat));
        buf[start + k] = (v % 256) as u8;
        v = v / 256;
        k = k + 1;
        assert(buf@ =~= write_at(old(buf)@, start as int, full.take(k as int)));
    }
    assert(full.take(8) =~= full);
}

/// What the server learns from a completed packet.
#[derive(Clone, Copy, Debug, PartialEq, Eq, Structural)]
pub struct TxInfo {
    pub tx_id: u64,
    pub timestamp_ms: u64,
}

impl TxInfo {
    /// Decodes the sequence number and send timestamp from the first 16
    /// bytes of a payload.
    pub fn from_bytes(data: &[u8]) -> (r: TxInfo)
        requires
            data@.len() >= 16,
        ensures
            r.tx_id as nat == le_value(data@.subrange(0, 8)),
            r.timestamp_ms as nat == le_value(data@.subrange(8, 16)),
    {
        let tx_id = read_u64_le(data, TX_ID_OFFSET);
        let timestamp_ms = read_u64_le(data, TIMESTAMP_OFFSET);
        TxInfo { tx_id, timestamp_ms }
    }
}

/// Writes the payload header: sequence number, send timestamp and sender
/// identity. Bytes past the header are left as they were.
pub fn generate_dummy_data(
    buffer: &mut [u8],
    transaction_id: u64,
    timestamp: u64,
    identity: [u8; 32],
    _size: u64,
)
    requires
        old(buffer)@.len() >= HEADER_LEN,
    ensures
        final(buffer)@ == header_written(old(buffer)@, transaction_id, timestamp, identity@),
{
    write_u64_le(buffer, TX_ID_OFFSET, transaction_id);
    write_u64_le(buffer, TIMESTAMP_OFFSET, timestamp);
    let ghost before = buffer@;
    let mut k: usize = 0;
    while k < 32
        invariant
            k <= 32,
            buffer@.len() == before.len(),
            before.len() >= HEADER_LEN,
            identity@.len() == 32,
            buffer@ == write_at(before, 16, identity@.take(k as int)),
        decreases 32 - k,
    {
        buffer[IDENTITY_OFFSET + k] = identity[k];
        k = k + 1;
        assert(buffer@ =~= write_at(before, 16, identity@.take(k as int)));
    }
    assert(identity@.take(32) =~= identity@);
}

} // verus!
