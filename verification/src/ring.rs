//! The shared-memory ring that feeds the virtual microphone driver.
//!
//! Layout of the 64 KiB mapping:
//!   [0..28]  header: magic, sample rate, channels, bits per sample, ring
//!            capacity, write index, read index, running flag
//!   [28..]   ring data, 65536 - 28 = 65508 bytes
//!
//! The write and read indices are byte counters that only grow (modulo 2^32);
//! the position of a counter in the ring is the counter modulo the capacity.

use crate::bytes::{le16, le32, le_u16_bytes, le_u32_bytes, push_bytes};
use crate::wide::{encode_utf16, utf16_of};
use vstd::arithmetic::div_mod::{lemma_add_mod_noop, lemma_mod_equivalence, lemma_sub_mod_noop};
use vstd::prelude::*;

verus! {

/// Size of the whole mapping.
pub const SHARED_MEM_SIZE: usize = 65536;

/// `PHMC` read as a little-endian u32.
pub const MAGIC: u32 = 0x434D4850;

/// Size of the header at the start of the mapping.
pub const HEADER_SIZE: usize = 28;

/// Bytes of ring data after the header.
pub const RING_CAPACITY: usize = 65508;

/// Byte offset of the write index within the mapping.
pub const OFF_WRITE_INDEX: usize = 16;

/// Byte offset of the read index within the mapping.
pub const OFF_READ_INDEX: usize = 20;

/// Byte offset of the running flag within the mapping.
pub const OFF_RUNNING: usize = 24;

/// Byte offset of the ring data within the mapping.
pub const OFF_RING_DATA: usize = 28;

/// The header a fresh mapping starts with: magic, sample rate (u32), channels
/// (u16), bits per sample (u16), ring capacity (u32), write index 0, read index
/// 0 and running flag 1 (each i32), all little-endian.
pub open spec fn shared_header_bytes(sample_rate: u32, channels: u16, bits_per_sample: u16) -> Seq<u8> {
    le32(MAGIC as int) + le32(sample_rate as int) + le16(channels as int) + le16(
        bits_per_sample as int,
    ) + le32(RING_CAPACITY as int) + le32(0) + le32(0) + le32(1)
}

/// The 28 header bytes that open a mapping for a stream of this format.
pub fn shared_header(sample_rate: u32, channels: u16, bits_per_sample: u16) -> (h: Vec<u8>)
    ensures
        h@ == shared_header_bytes(sample_rate, channels, bits_per_sample),
        h@.len() == HEADER_SIZE,
{
    let mut h: Vec<u8> = Vec::new();
    push_bytes(&mut h, &le_u32_bytes(MAGIC));
    push_bytes(&mut h, &le_u32_bytes(sample_rate));
    push_bytes(&mut h, &le_u16_bytes(channels));
    push_bytes(&mut h, &le_u16_bytes(bits_per_sample));
    push_bytes(&mut h, &le_u32_bytes(RING_CAPACITY as u32));
    push_bytes(&mut h, &le_u32_bytes(0));
    push_bytes(&mut h, &le_u32_bytes(0));
    push_bytes(&mut h, &le_u32_bytes(1));
    assert(h@ =~= shared_header_bytes(sample_rate, channels, bits_per_sample));
    h
}

/// `C:\ProgramData\PhoneMike\ring.dat`, NUL-terminated, as UTF-16 for the
/// Win32 file calls.
pub fn shared_file_path() -> (p: Vec<u16>)
    ensures
        p@ == utf16_of("C:\\ProgramData\\PhoneMike\\ring.dat\0"@),
{
    encode_utf16("C:\\ProgramData\\PhoneMike\\ring.dat\0")
}

/// The ring after writing `data` byte by byte from the counter `write_index`
/// on: byte `k` goes to position `(write_index + k) % RING_CAPACITY`, and a
/// later byte overwrites an earlier one at the same position.
pub open spec fn ring_after(ring: Seq<u8>, write_index: int, data: Seq<u8>) -> Seq<u8>
    decreases data.len(),
{
    if data.len() == 0 {
        ring
    } else {
        ring_after(ring, write_index, data.drop_last()).update(
            (write_index + data.len() - 1) % (RING_CAPACITY as int),
            data.last(),
        )
    }
}

/// The counter after `len` more bytes, modulo 2^32.
pub open spec fn advanced_index(write_index: u32, len: int) -> int {
    (write_index + len) % 0x1_0000_0000
}

proof fn lemma_ring_after_len(ring: Seq<u8>, write_index: int, data: Seq<u8>)
    requires
        ring.len() == RING_CAPACITY,
    ensures
        ring_after(ring, write_index, data).len() == ring.len(),
    decreases data.len(),
{
    if data.len() > 0 {
        lemma_ring_after_len(ring, write_index, data.drop_last());
    }
}

proof fn lemma_ring_after_step(ring: Seq<u8>, write_index: int, data: Seq<u8>, m: int)
    requires
        0 <= m < data.len(),
    ensures
        ring_after(ring, write_index, data.take(m + 1)) == ring_after(
            ring,
            write_index,
            data.take(m),
        ).update((write_index + m) % (RING_CAPACITY as int), data[m]),
{
    assert(data.take(m + 1).drop_last() =~= data.take(m));
}

/// Copies `data` into the ring at the write counter, wrapping at the end of the
/// ring, and returns the counter advanced by the number of bytes (mod 2^32).
pub fn ring_write(ring: &mut [u8], write_index: u32, data: &[u8]) -> (new_index: u32)
    requires
        old(ring)@.len() == RING_CAPACITY,
    ensures
        final(ring)@ == ring_after(old(ring)@, write_index as int, data@),
        final(ring)@.len() == old(ring)@.len(),
        new_index == advanced_index(write_index, data@.len() as int),
{
    let total = data.len();
    let mut pos: usize = (write_index % (RING_CAPACITY as u32)) as usize;
    let mut offset: usize = 0;
    let ghost cap = RING_CAPACITY as int;
    proof {
        lemma_ring_after_len(old(ring)@, write_index as int, data@.take(0));
        assert(data@.take(0) =~= Seq::<u8>::empty());
    }
    while offset < total
        invariant
            offset <= total == data@.len(),
            ring@.len() == RING_CAPACITY,
            pos < RING_CAPACITY,
            pos as int == (write_index + offset) % cap,
            cap == RING_CAPACITY as int,
            ring@ == ring_after(old(ring)@, write_index as int, data@.take(offset as int)),
        decreases total - offset,
    {
        let contiguous = RING_CAPACITY - pos;
        let to_copy = if total - offset < contiguous {
            total - offset
        } else {
            contiguous
        };
        let mut j: usize = 0;
        while j < to_copy
            invariant
                offset + to_copy <= total == data@.len(),
                pos + to_copy <= RING_CAPACITY,
                j <= to_copy,
                ring@.len() == RING_CAPACITY,
                pos as int == (write_index + offset) % cap,
                cap == RING_CAPACITY as int,
                ring@ == ring_after(old(ring)@, write_index as int, data@.take(offset + j)),
            decreases to_copy - j,
        {
            proof {
                lemma_add_mod_noop(write_index + offset, j as int, cap);
                assert((pos + j) % cap == pos + j);
                assert((write_index + offset + j) % cap == pos + j);
                lemma_ring_after_step(old(ring)@, write_index as int, data@, offset + j);
            }
            ring[pos + j] = data[offset + j];
            j = j + 1;
        }
        proof {
            lemma_add_mod_noop(write_index + offset, to_copy as int, cap);
            assert((pos + to_copy) % cap == (write_index + offset + to_copy) % cap);
        }
        offset = offset + to_copy;
        pos = if pos + to_copy == RING_CAPACITY {
            0
        } else {
            pos + to_copy
        };
    }
    assert(data@.take(total as int) =~= data@);
    proof {
        lemma_ring_after_len(old(ring)@, write_index as int, data@);
    }
    let added: u64 = (total as u64) % 0x1_0000_0000u64;
    let next: u64 = (write_index as u64 + added) % 0x1_0000_0000u64;
    proof {
        lemma_add_mod_noop_right_u(write_index as int, total as int);
    }
    next as u32
}

proof fn lemma_add_mod_noop_right_u(a: int, b: int)
    ensures
        (a + b % 0x1_0000_0000) % 0x1_0000_0000 == (a + b) % 0x1_0000_0000,
{
    vstd::arithmetic::div_mod::lemma_add_mod_noop_right(a, b, 0x1_0000_0000);
}

/// Byte `k` of a write lands at `(write_index + k) % RING_CAPACITY` and stays
/// there unless one of the following bytes lands on the same position, which
/// only a write longer than the ring can do.
pub proof fn lemma_ring_write_positions(ring: Seq<u8>, write_index: int, data: Seq<u8>, k: int)
    requires
        0 <= k < data.len(),
        data.len() - k <= RING_CAPACITY,
        ring.len() == RING_CAPACITY,
    ensures
        ring_after(ring, write_index, data)[(write_index + k) % (RING_CAPACITY as int)] == data[k],
    decreases data.len(),
{
    let cap = RING_CAPACITY as int;
    let last = data.len() - 1;
    lemma_ring_after_len(ring, write_index, data.drop_last());
    if k < last {
        lemma_ring_write_positions(ring, write_index, data.drop_last(), k);
        lemma_mod_equivalence(write_index + k, write_index + last, cap);
        assert((write_index + k - (write_index + last)) % cap != 0);
    }
}

/// A write shorter than the ring leaves every position before its start and
/// after its end as it was: those `i` whose distance from the start, counted
/// forward round the ring, is at least the write's length.
pub proof fn lemma_ring_write_untouched(ring: Seq<u8>, write_index: int, data: Seq<u8>, i: int)
    requires
        0 <= i < RING_CAPACITY,
        ring.len() == RING_CAPACITY,
        (i - write_index) % (RING_CAPACITY as int) >= data.len(),
    ensures
        ring_after(ring, write_index, data)[i] == ring[i],
    decreases data.len(),
{
    let cap = RING_CAPACITY as int;
    if data.len() > 0 {
        let p = (write_index + data.len() - 1) % cap;
        lemma_ring_write_untouched(ring, write_index, data.drop_last(), i);
        lemma_ring_after_len(ring, write_index, data.drop_last());
        lemma_sub_mod_noop(write_index + data.len() - 1, write_index, cap);
        lemma_sub_mod_noop(i, write_index, cap);
        assert(i % cap == i);
        assert(p % cap == p);
        assert((data.len() - 1) % cap == data.len() - 1);
        assert(p != i);
    }
}

/// Writing `a` and then `b` from where `a` ended fills the ring as writing
/// `a + b` at once, so the way a stream is cut into chunks does not matter
/// while the 32-bit counter does not wrap.
pub proof fn lemma_ring_write_concat(ring: Seq<u8>, write_index: int, a: Seq<u8>, b: Seq<u8>)
    ensures
        ring_after(ring_after(ring, write_index, a), write_index + a.len(), b) == ring_after(
            ring,
            write_index,
            a + b,
        ),
    decreases b.len(),
{
    if b.len() == 0 {
        assert(a + b =~= a);
    } else {
        lemma_ring_write_concat(ring, write_index, a, b.drop_last());
        assert((a + b).drop_last() =~= a + b.drop_last());
    }
}

} // verus!
