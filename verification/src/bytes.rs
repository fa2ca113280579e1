//! Little-endian integer encodings, as the stream header, the WAV header and the
//! shared-memory header use them, with the byte-order calls of the `byteorder` crate.

use byteorder::{ByteOrder, LittleEndian};
use vstd::prelude::*;

verus! {

/// The two bytes of `n` (taken modulo 2^16), least significant first.
pub open spec fn le16(n: int) -> Seq<u8> {
    seq![(n % 256) as u8, ((n / 256) % 256) as u8]
}

/// The four bytes of `n` (taken modulo 2^32), least significant first.
pub open spec fn le32(n: int) -> Seq<u8> {
    seq![
        (n % 256) as u8,
        ((n / 256) % 256) as u8,
        ((n / 65536) % 256) as u8,
        ((n / 16777216) % 256) as u8,
    ]
}

/// The unsigned value of the first two bytes of `b`, least significant first.
pub open spec fn le16_value(b: Seq<u8>) -> int {
    b[0] + 256 * b[1]
}

/// The unsigned value of the first four bytes of `b`, least significant first.
pub open spec fn le32_value(b: Seq<u8>) -> int {
    b[0] + 256 * b[1] + 65536 * b[2] + 16777216 * b[3]
}

/// The 16-bit two's complement pattern of a sample, as an unsigned number.
pub open spec fn i16_bits(s: i16) -> int {
    if s < 0 {
        s + 65536
    } else {
        s as int
    }
}

/// The sample whose 16-bit two's complement pattern is the unsigned number `v`.
pub open spec fn i16_from_bits(v: int) -> int {
    if v >= 32768 {
        v - 65536
    } else {
        v
    }
}

/// Decoding what `le32` encodes gives the number back.
pub proof fn lemma_le32_roundtrip(n: int)
    requires
        0 <= n < 0x1_0000_0000,
    ensures
        le32(n).len() == 4,
        le32_value(le32(n)) == n,
{
    let b = le32(n);
    assert(b[0] == n % 256);
    assert(b[1] == (n / 256) % 256);
    assert(b[2] == (n / 65536) % 256);
    assert(b[3] == (n / 16777216) % 256);
    assert(b[0] + 256 * b[1] + 65536 * b[2] + 16777216 * b[3] == n) by (nonlinear_arith)
        requires
            0 <= n < 0x1_0000_0000,
            b[0] == n % 256,
            b[1] == (n / 256) % 256,
            b[2] == (n / 65536) % 256,
            b[3] == (n / 16777216) % 256,
    {
        assert(n / 16777216 < 256);
        assert(n == 256 * (n / 256) + n % 256);
        assert(n / 256 == 256 * (n / 65536) + (n / 256) % 256);
        assert(n / 65536 == 256 * (n / 16777216) + (n / 65536) % 256);
    }
}

/// Decoding what `le16` encodes gives the number back.
pub proof fn lemma_le16_roundtrip(n: int)
    requires
        0 <= n < 0x1_0000,
    ensures
        le16(n).len() == 2,
        le16_value(le16(n)) == n,
{
    let b = le16(n);
    assert(b[0] == n % 256);
    assert(b[1] == (n / 256) % 256);
    assert(b[0] + 256 * b[1] == n) by (nonlinear_arith)
        requires
            0 <= n < 0x1_0000,
            b[0] == n % 256,
            b[1] == (n / 256) % 256,
    {
        assert(n / 256 < 256);
        assert(n == 256 * (n / 256) + n % 256);
    }
}

/// Appends every byte of `b` to `out`.
pub(crate) fn push_bytes(out: &mut Vec<u8>, b: &[u8])
    ensures
        final(out)@ == old(out)@ + b@,
{
    let mut i: usize = 0;
    while i < b.len()
        invariant
            i <= b.len(),
            out@ == old(out)@ + b@.take(i as int),
        decreases b.len() - i,
    {
        out.push(b[i]);
        i = i + 1;
        assert(b@.take(i as int) == b@.take((i - 1) as int).push(b@[i - 1]));
    }
    assert(b@.take(b.len() as int) == b@);
}

/// `byteorder::LittleEndian::write_u32` on a four-byte buffer: the buffer then
/// holds `n` least significant byte first.
#[verifier::external_body]
pub(crate) fn le_u32_bytes(n: u32) -> (b: [u8; 4])
    ensures
        b@ == le32(n as int),
{
    let mut b = [0u8; 4];
    LittleEndian::write_u32(&mut b, n);
    b
}

/// `byteorder::LittleEndian::write_u16` on a two-byte buffer: the buffer then
/// holds `n` least significant byte first.
#[verifier::external_body]
pub(crate) fn le_u16_bytes(n: u16) -> (b: [u8; 2])
    ensures
        b@ == le16(n as int),
{
    let mut b = [0u8; 2];
    LittleEndian::write_u16(&mut b, n);
    b
}

/// `byteorder::LittleEndian::read_u32`: the number that the first four bytes
/// encode, least significant first (it panics on fewer than four bytes).
#[verifier::external_body]
pub(crate) fn read_u32_le(buf: &[u8]) -> (n: u32)
    requires
        buf@.len() >= 4,
    ensures
        n == le32_value(buf@),
{
    LittleEndian::read_u32(buf)
}

/// `byteorder::LittleEndian::read_u16`: the number that the first two bytes
/// encode, least significant first (it panics on fewer than two bytes).
#[verifier::external_body]
pub(crate) fn read_u16_le(buf: &[u8]) -> (n: u16)
    requires
        buf@.len() >= 2,
    ensures
        n == le16_value(buf@),
{
    LittleEndian::read_u16(buf)
}

/// `byteorder::LittleEndian::read_i16_into`: sample `i` of `dst` becomes the
/// signed number that bytes `2i` and `2i + 1` of `src` encode, least significant
/// first (it panics unless `src` has exactly twice as many bytes as `dst` samples).
#[verifier::external_body]
pub(crate) fn read_i16s_le(src: &[u8], dst: &mut [i16])
    requires
        src@.len() == 2 * old(dst)@.len(),
    ensures
        final(dst)@.len() == old(dst)@.len(),
        forall|i: int|
            0 <= i < final(dst)@.len() ==> #[trigger] final(dst)@[i] as int == i16_from_bits(
                src@[2 * i] + 256 * src@[2 * i + 1],
            ),
{
    LittleEndian::read_i16_into(src, dst)
}

/// `byteorder::LittleEndian::write_i16_into`: bytes `2i` and `2i + 1` of `dst`
/// become sample `i` of `src`, least significant first (it panics unless `dst`
/// has exactly twice as many bytes as `src` samples).
#[verifier::external_body]
pub(crate) fn write_i16s_le(src: &[i16], dst: &mut [u8])
    requires
        old(dst)@.len() == 2 * src@.len(),
    ensures
        final(dst)@.len() == old(dst)@.len(),
        forall|i: int|
            0 <= i < src@.len() ==> #[trigger] final(dst)@.subrange(2 * i, 2 * i + 2) == le16(
                i16_bits(src@[i]),
            ),
{
    LittleEndian::write_i16_into(src, dst)
}

} // verus!
