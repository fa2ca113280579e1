//! Framing of the audio stream that the phone sends: a 16-byte `PHMC` header,
//! then either raw 16-bit PCM or Opus frames, each after a 2-byte length.

use crate::bytes::{
    i16_bits, i16_from_bits, le16, le16_value, le32_value, push_bytes, read_i16s_le, read_u16_le,
    read_u32_le, write_i16s_le,
};
use vstd::prelude::*;

verus! {

/// Length of the stream header.
pub const HEADER_SIZE: usize = 16;

/// The `format` field's value for an Opus stream.
pub const FMT_OPUS: u16 = 2;

/// Largest Opus frame that the stream may carry.
pub const MAX_OPUS_FRAME_BYTES: usize = 7680;

/// `PHMC`
pub open spec fn stream_magic() -> Seq<u8> {
    seq![0x50u8, 0x48u8, 0x4du8, 0x43u8]
}

/// What the stream header announces.
#[derive(Clone, Copy, Debug, PartialEq, Eq, Structural)]
pub struct PcmHeader {
    pub sample_rate: u32,
    pub channels: u16,
    pub format: u16,
}

/// Why a stream header was refused.
#[derive(Clone, Copy, Debug)]
pub enum HeaderError {
    /// Fewer than 16 bytes.
    TooShort { len: usize },
    /// The first four bytes are not `PHMC`; they are given.
    BadMagic { found: [u8; 4] },
}

/// The header read from `buf`: sample rate (u32), channel count (u16) and
/// format (u16), little-endian, after the magic; bytes 12..16 are reserved.
pub open spec fn header_fields(buf: Seq<u8>) -> PcmHeader {
    PcmHeader {
        sample_rate: le32_value(buf.subrange(4, 8)) as u32,
        channels: le16_value(buf.subrange(8, 10)) as u16,
        format: le16_value(buf.subrange(10, 12)) as u16,
    }
}

/// Reads the stream header: it needs at least 16 bytes, starting with `PHMC`.
pub fn parse_header(buf: &[u8]) -> (r: Result<PcmHeader, HeaderError>)
    ensures
        buf@.len() < HEADER_SIZE ==> r == Err::<PcmHeader, HeaderError>(
            HeaderError::TooShort { len: buf@.len() as usize },
        ),
        buf@.len() >= HEADER_SIZE && buf@.take(4) != stream_magic() ==> (r matches Err(
            HeaderError::BadMagic { found },
        ) && found@ == buf@.take(4)),
        buf@.len() >= HEADER_SIZE && buf@.take(4) == stream_magic() ==> r == Ok::<
            PcmHeader,
            HeaderError,
        >(header_fields(buf@)),
        r matches Ok(h) ==> {
            &&& h.sample_rate == buf@[4] + 256 * buf@[5] + 65536 * buf@[6] + 16777216 * buf@[7]
            &&& h.channels == buf@[8] + 256 * buf@[9]
            &&& h.format == buf@[10] + 256 * buf@[11]
        },
{
    if buf.len() < HEADER_SIZE {
        return Err(HeaderError::TooShort { len: buf.len() });
    }
    if !(buf[0] == 0x50u8 && buf[1] == 0x48u8 && buf[2] == 0x4du8 && buf[3] == 0x43u8) {
        let found = [buf[0], buf[1], buf[2], buf[3]];
        assert(found@ =~= buf@.take(4));
        return Err(HeaderError::BadMagic { found });
    }
    assert(buf@.take(4) =~= stream_magic());
    let sample_rate = read_u32_le(slice_subrange(buf, 4, 8));
    let channels = read_u16_le(slice_subrange(buf, 8, 10));
    let format = read_u16_le(slice_subrange(buf, 10, 12));
    Ok(PcmHeader { sample_rate, channels, format })
}

/// The header's fields sit at fixed places: the sample rate in bytes 4..8, the
/// channel count in bytes 8..10 and the format in bytes 10..12, each least
/// significant byte first; no field reads another's bytes.
pub proof fn lemma_header_layout(buf: Seq<u8>)
    requires
        buf.len() >= 16,
    ensures
        header_fields(buf).sample_rate == buf[4] + 256 * buf[5] + 65536 * buf[6] + 16777216
            * buf[7],
        header_fields(buf).channels == buf[8] + 256 * buf[9],
        header_fields(buf).format == buf[10] + 256 * buf[11],
{
    let sr = buf[4] + 256 * buf[5] + 65536 * buf[6] + 16777216 * buf[7];
    assert(0 <= sr <= u32::MAX);
    assert(0 <= buf[8] + 256 * buf[9] <= u16::MAX);
    assert(0 <= buf[10] + 256 * buf[11] <= u16::MAX);
}

/// Changing bytes outside 10..12 of a header never changes its format, and
/// changing bytes outside 8..10 never changes its channel count.
pub proof fn lemma_header_fields_independent(a: Seq<u8>, b: Seq<u8>)
    requires
        a.len() >= 16,
        b.len() >= 16,
    ensures
        a[10] == b[10] && a[11] == b[11] ==> header_fields(a).format == header_fields(b).format,
        a[8] == b[8] && a[9] == b[9] ==> header_fields(a).channels == header_fields(b).channels,
{
    lemma_header_layout(a);
    lemma_header_layout(b);
}

/// The sub-slice `buf[from..to]`.
fn slice_subrange(buf: &[u8], from: usize, to: usize) -> (s: &[u8])
    requires
        from <= to <= buf@.len(),
    ensures
        s@ == buf@.subrange(from as int, to as int),
{
    vstd::slice::slice_subrange(buf, from, to)
}

/// Sample rates that the Opus decoder accepts.
pub open spec fn opus_rate_supported(sample_rate: u32) -> bool {
    sample_rate == 8000 || sample_rate == 12000 || sample_rate == 16000 || sample_rate == 24000
        || sample_rate == 48000
}

/// How the body of a stream is read.
#[derive(Clone, Copy, Debug, PartialEq, Eq, Structural)]
pub enum StreamCodec {
    /// Length-prefixed Opus frames, decoded at this rate and channel count.
    Opus { sample_rate: u32, channels: u16 },
    /// Raw little-endian 16-bit PCM.
    Pcm16,
}

/// Opus when the header announces it with a rate and channel count that the
/// decoder supports (mono or stereo); raw PCM otherwise, which is also the
/// fallback for an Opus stream in an unsupported shape.
pub fn select_codec(header: &PcmHeader) -> (c: StreamCodec)
    ensures
        (header.format == FMT_OPUS && opus_rate_supported(header.sample_rate) && (
        header.channels == 1 || header.channels == 2)) ==> c == (StreamCodec::Opus {
            sample_rate: header.sample_rate,
            channels: header.channels,
        }),
        !(header.format == FMT_OPUS && opus_rate_supported(header.sample_rate) && (
        header.channels == 1 || header.channels == 2)) ==> c == StreamCodec::Pcm16,
{
    let sr = header.sample_rate;
    let rate_ok = sr == 8000 || sr == 12000 || sr == 16000 || sr == 24000 || sr == 48000;
    let channels_ok = header.channels == 1 || header.channels == 2;
    if header.format == FMT_OPUS && rate_ok && channels_ok {
        StreamCodec::Opus { sample_rate: sr, channels: header.channels }
    } else {
        StreamCodec::Pcm16
    }
}

/// Samples in 120 ms of audio at this rate, over all channels: room for the
/// longest Opus frame.
pub open spec fn opus_capacity(sample_rate: u32, channels: u16) -> int {
    (sample_rate * 120 / 1000) * channels
}

/// The size of the buffer that one decoded Opus frame needs.
pub fn max_pcm_samples(sample_rate: u32, channels: u16) -> (n: usize)
    requires
        opus_capacity(sample_rate, channels) <= usize::MAX,
    ensures
        n == opus_capacity(sample_rate, channels),
{
    let per_channel: u64 = sample_rate as u64 * 120 / 1000;
    assert(per_channel <= 0x1_0000_0000u64 * 120);
    assert(per_channel * channels <= 0x1_0000_0000u64 * 120 * 0x1_0000) by (nonlinear_arith)
        requires
            per_channel <= 0x1_0000_0000u64 * 120,
            channels <= 0xffff,
    ;
    (per_channel * channels as u64) as usize
}

/// The length that prefixes an Opus frame, if it is between 1 and the largest
/// frame size.
pub fn opus_frame_len(prefix: &[u8]) -> (r: Option<usize>)
    requires
        prefix@.len() == 2,
    ensures
        (1 <= le16_value(prefix@) <= MAX_OPUS_FRAME_BYTES) ==> r == Some(
            le16_value(prefix@) as usize,
        ),
        !(1 <= le16_value(prefix@) <= MAX_OPUS_FRAME_BYTES) ==> r == None::<usize>,
{
    let len = read_u16_le(prefix) as usize;
    if len == 0 || len > MAX_OPUS_FRAME_BYTES {
        None
    } else {
        Some(len)
    }
}

/// The samples that the whole pairs of bytes in `bytes` encode, little-endian;
/// a trailing odd byte yields none (`PcmStream` keeps it for the next read).
pub fn pcm_from_bytes(bytes: &[u8]) -> (samples: Vec<i16>)
    ensures
        is_pcm_of(samples@, bytes@),
{
    let count = bytes.len() / 2;
    let mut samples: Vec<i16> = vec![0i16; count];
    let whole = slice_subrange(bytes, 0, 2 * count);
    read_i16s_le(whole, samples.as_mut_slice());
    samples
}

/// The bytes of a chunk of samples, two per sample, little-endian, as a WAV
/// file holds them.
pub fn pcm_to_bytes(samples: &[i16]) -> (bytes: Vec<u8>)
    requires
        2 * samples@.len() <= usize::MAX,
    ensures
        bytes@.len() == 2 * samples@.len(),
        forall|i: int|
            0 <= i < samples@.len() ==> #[trigger] bytes@.subrange(2 * i, 2 * i + 2) == le16(
                i16_bits(samples@[i]),
            ),
{
    let mut bytes: Vec<u8> = vec![0u8; 2 * samples.len()];
    write_i16s_le(samples, bytes.as_mut_slice());
    bytes
}


proof fn lemma_sample_bytes(b0: u8, b1: u8, s: i16)
    requires
        s as int == i16_from_bits(b0 + 256 * b1),
    ensures
        le16(i16_bits(s)) == seq![b0, b1],
{
    let v = b0 + 256 * b1;
    assert(i16_bits(s) == v);
    assert(v % 256 == b0 && (v / 256) % 256 == b1) by (nonlinear_arith)
        requires
            v == b0 + 256 * b1,
            0 <= b0 < 256,
            0 <= b1 < 256,
    ;
    assert(le16(v) =~= seq![b0, b1]);
}

/// Samples read from raw stream bytes encode back to exactly those bytes, so a
/// chunk that reaches the recording unchanged is stored as it arrived.
pub proof fn lemma_pcm_roundtrip(bytes: Seq<u8>, samples: Seq<i16>)
    requires
        bytes.len() == 2 * samples.len(),
        forall|i: int|
            0 <= i < samples.len() ==> #[trigger] samples[i] as int == i16_from_bits(
                bytes[2 * i] + 256 * bytes[2 * i + 1],
            ),
    ensures
        forall|i: int|
            0 <= i < samples.len() ==> #[trigger] bytes.subrange(2 * i, 2 * i + 2) == le16(
                i16_bits(samples[i]),
            ),
{
    assert forall|i: int| 0 <= i < samples.len() implies #[trigger] bytes.subrange(2 * i, 2 * i + 2)
        == le16(i16_bits(samples[i])) by {
        lemma_sample_bytes(bytes[2 * i], bytes[2 * i + 1], samples[i]);
        assert(bytes.subrange(2 * i, 2 * i + 2) =~= seq![bytes[2 * i], bytes[2 * i + 1]]);
    }
}

/// `samples` are the little-endian 16-bit samples that the whole pairs of
/// `bytes` encode: sample `k` is made of bytes `2k` and `2k + 1`.
pub open spec fn is_pcm_of(samples: Seq<i16>, bytes: Seq<u8>) -> bool {
    &&& samples.len() == bytes.len() / 2
    &&& forall|k: int|
        0 <= k < samples.len() ==> #[trigger] samples[k] as int == i16_from_bits(
            bytes[2 * k] + 256 * bytes[2 * k + 1],
        )
}

/// The samples of a byte stream depend on its bytes alone: two `PcmStream`s
/// that received the same bytes, cut into reads however, emitted the same
/// samples, and those are what `pcm_from_bytes` makes of the bytes at once.
pub proof fn lemma_pcm_split_free(a: Seq<i16>, b: Seq<i16>, bytes: Seq<u8>)
    requires
        is_pcm_of(a, bytes),
        is_pcm_of(b, bytes),
    ensures
        a == b,
{
    assert forall|k: int| 0 <= k < a.len() implies a[k] == b[k] by {
        assert(a[k] as int == b[k] as int);
    }
    assert(a =~= b);
}

/// What a raw PCM stream has delivered so far: every byte received, and every
/// sample handed out.
pub struct PcmStreamView {
    pub received: Seq<u8>,
    pub emitted: Seq<i16>,
}

/// Decodes a raw 16-bit PCM stream that arrives in reads of any size: a byte
/// left over from an odd-sized read waits for the next read, so the samples
/// handed out are always those of the whole stream, however it was cut.
pub struct PcmStream {
    pending: Option<u8>,
    received: Ghost<Seq<u8>>,
    emitted: Ghost<Seq<i16>>,
}

impl View for PcmStream {
    type V = PcmStreamView;

    closed spec fn view(&self) -> PcmStreamView {
        PcmStreamView { received: self.received@, emitted: self.emitted@ }
    }
}

impl PcmStream {
    #[verifier::type_invariant]
    spec fn consistent(self) -> bool {
        &&& is_pcm_of(self.emitted@, self.received@)
        &&& (self.received@.len() % 2 == 1) == (self.pending is Some)
        &&& self.pending matches Some(b) ==> b == self.received@.last()
    }

    /// A stream before its first byte.
    pub fn new() -> (s: PcmStream)
        ensures
            s@.received == Seq::<u8>::empty(),
            s@.emitted == Seq::<i16>::empty(),
    {
        PcmStream { pending: None, received: Ghost(Seq::empty()), emitted: Ghost(Seq::empty()) }
    }

    /// Takes the bytes of one read and returns the samples they complete. All
    /// samples handed out so far are then exactly the samples of all bytes
    /// received so far.
    pub fn feed(&mut self, bytes: &[u8]) -> (out: Vec<i16>)
        requires
            bytes@.len() < usize::MAX,
        ensures
            final(self)@.received == old(self)@.received + bytes@,
            final(self)@.emitted == old(self)@.emitted + out@,
            is_pcm_of(final(self)@.emitted, final(self)@.received),
    {
        proof {
            use_type_invariant(&*self);
        }
        let ghost r_old = self.received@;
        let ghost e_old = self.emitted@;
        let ghost r_new = r_old + bytes@;
        let ghost base: int = 2 * (r_old.len() as int / 2);
        let mut all: Vec<u8> = Vec::new();
        match self.pending {
            Some(b) => all.push(b),
            None => {},
        }
        push_bytes(&mut all, bytes);
        assert(all@ =~= r_new.subrange(base, r_new.len() as int));
        let out = pcm_from_bytes(all.as_slice());
        let n = all.len();
        let next = if n % 2 == 1 {
            Some(all[n - 1])
        } else {
            None
        };
        proof {
            let e_new = e_old + out@;
            assert(e_new.len() == r_new.len() / 2);
            assert forall|k: int| 0 <= k < e_new.len() implies #[trigger] e_new[k] as int
                == i16_from_bits(r_new[2 * k] + 256 * r_new[2 * k + 1]) by {
                if k < e_old.len() {
                    assert(r_new[2 * k] == r_old[2 * k]);
                    assert(r_new[2 * k + 1] == r_old[2 * k + 1]);
                } else {
                    let j = k - e_old.len();
                    assert(e_new[k] == out@[j]);
                    assert(all@[2 * j] == r_new[2 * k]);
                    assert(all@[2 * j + 1] == r_new[2 * k + 1]);
                }
            }
            assert(is_pcm_of(e_new, r_new));
        }
        assert(r_new.len() % 2 == all@.len() % 2);
        assert(next matches Some(b) ==> b == r_new.last());
        *self = PcmStream { pending: next, received: Ghost(r_new), emitted: Ghost(e_old + out@) };
        out
    }
}

} // verus!
