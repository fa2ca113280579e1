//! The WAV file that a recording becomes: a 44-byte RIFF header followed by the
//! PCM data. The writer keeps the format and the number of data bytes so far;
//! the caller writes the bytes it is handed.

use crate::bytes::{
    le16, le16_value, le32, le32_value, le_u16_bytes, le_u32_bytes, lemma_le16_roundtrip,
    lemma_le32_roundtrip, push_bytes,
};
use vstd::prelude::*;

verus! {

/// `RIFF`
pub open spec fn riff_tag() -> Seq<u8> {
    seq![0x52u8, 0x49u8, 0x46u8, 0x46u8]
}

/// `WAVE`
pub open spec fn wave_tag() -> Seq<u8> {
    seq![0x57u8, 0x41u8, 0x56u8, 0x45u8]
}

/// `fmt ` (with a trailing space)
pub open spec fn fmt_tag() -> Seq<u8> {
    seq![0x66u8, 0x6du8, 0x74u8, 0x20u8]
}

/// `data`
pub open spec fn data_tag() -> Seq<u8> {
    seq![0x64u8, 0x61u8, 0x74u8, 0x61u8]
}

/// A format whose byte rate and block alignment fit the header's fields.
pub open spec fn wav_format_fits(sample_rate: u32, channels: u16, bits_per_sample: u16) -> bool {
    &&& sample_rate * channels <= u32::MAX
    &&& sample_rate * channels * bits_per_sample <= u32::MAX
    &&& channels * bits_per_sample <= u16::MAX
}

/// Whether the byte rate and block alignment of this format fit the header.
pub fn format_fits(sample_rate: u32, channels: u16, bits_per_sample: u16) -> (b: bool)
    ensures
        b == wav_format_fits(sample_rate, channels, bits_per_sample),
{
    assert(sample_rate * channels <= 0xffff_ffffu64 * 0xffff) by (nonlinear_arith)
        requires
            sample_rate <= 0xffff_ffffu64,
            channels <= 0xffff,
    ;
    assert(channels * bits_per_sample <= 0xffffu32 * 0xffff) by (nonlinear_arith)
        requires
            channels <= 0xffff,
            bits_per_sample <= 0xffff,
    ;
    let sc: u64 = sample_rate as u64 * channels as u64;
    if sc > u32::MAX as u64 {
        return false;
    }
    assert(sc * bits_per_sample <= 0xffff_ffffu64 * 0xffff) by (nonlinear_arith)
        requires
            sc <= 0xffff_ffffu64,
            bits_per_sample <= 0xffff,
    ;
    let scb: u64 = sc * bits_per_sample as u64;
    let cb: u32 = channels as u32 * bits_per_sample as u32;
    scb <= u32::MAX as u64 && cb <= u16::MAX as u32
}

/// Bytes per second of PCM data.
pub open spec fn wav_byte_rate(sample_rate: u32, channels: u16, bits_per_sample: u16) -> int {
    (sample_rate * channels * bits_per_sample) / 8
}

/// Bytes per frame (one sample of every channel).
pub open spec fn wav_block_align(channels: u16, bits_per_sample: u16) -> int {
    (channels * bits_per_sample) / 8
}

/// The canonical 44-byte PCM WAV header for `data_bytes` bytes of data.
pub open spec fn wav_header(
    sample_rate: u32,
    channels: u16,
    bits_per_sample: u16,
    data_bytes: int,
) -> Seq<u8> {
    riff_tag() + le32(36 + data_bytes) + wave_tag() + fmt_tag() + le32(16) + le16(1) + le16(
        channels as int,
    ) + le32(sample_rate as int) + le32(wav_byte_rate(sample_rate, channels, bits_per_sample))
        + le16(wav_block_align(channels, bits_per_sample)) + le16(bits_per_sample as int)
        + data_tag() + le32(data_bytes)
}

/// What a writer holds: its format and the number of PCM bytes appended.
pub struct WavState {
    pub sample_rate: u32,
    pub channels: u16,
    pub bits_per_sample: u16,
    pub data_bytes: u32,
}

/// Tracks a WAV recording: `create` for the format, `append` for each PCM chunk,
/// `finalize` at the end for the header that patches the file's first 44 bytes
/// with the correct byte counts.
pub struct WavWriter {
    sample_rate: u32,
    channels: u16,
    bits_per_sample: u16,
    data_bytes: u32,
}

impl View for WavWriter {
    type V = WavState;

    closed spec fn view(&self) -> WavState {
        WavState {
            sample_rate: self.sample_rate,
            channels: self.channels,
            bits_per_sample: self.bits_per_sample,
            data_bytes: self.data_bytes,
        }
    }
}

impl WavWriter {
    #[verifier::type_invariant]
    spec fn format_fits(self) -> bool {
        wav_format_fits(self.sample_rate, self.channels, self.bits_per_sample)
    }

    /// A writer for a recording in the given format, with no data yet. Its
    /// `header` is the placeholder that starts the file.
    pub fn create(sample_rate: u32, channels: u16, bits_per_sample: u16) -> (w: WavWriter)
        requires
            wav_format_fits(sample_rate, channels, bits_per_sample),
        ensures
            w@ == (WavState { sample_rate, channels, bits_per_sample, data_bytes: 0 }),
    {
        WavWriter { sample_rate, channels, bits_per_sample, data_bytes: 0 }
    }

    /// Counts one more chunk of PCM data, which the caller writes after what
    /// is already in the file.
    pub fn append(&mut self, pcm: &[u8])
        requires
            old(self)@.data_bytes + pcm@.len() <= u32::MAX,
        ensures
            final(self)@ == (WavState { data_bytes: (old(self)@.data_bytes + pcm@.len()) as u32, ..old(self)@ }),
    {
        proof {
            use_type_invariant(&*self);
        }
        self.data_bytes = self.data_bytes + pcm.len() as u32;
    }

    /// The number of PCM bytes appended so far.
    pub fn data_bytes(&self) -> (n: u32)
        ensures
            n == self@.data_bytes,
    {
        self.data_bytes
    }

    /// The header for the data counted so far.
    pub fn header(&self) -> (h: Vec<u8>)
        requires
            self@.data_bytes <= u32::MAX - 36,
        ensures
            h@ == wav_header(
                self@.sample_rate,
                self@.channels,
                self@.bits_per_sample,
                self@.data_bytes as int,
            ),
    {
        proof {
            use_type_invariant(self);
        }
        write_wav_header(self.sample_rate, self.channels, self.bits_per_sample, self.data_bytes)
    }

    /// The final header, whose size fields count every byte appended; the caller
    /// writes it over the file's first 44 bytes.
    pub fn finalize(self) -> (h: Vec<u8>)
        requires
            self@.data_bytes <= u32::MAX - 36,
        ensures
            h@ == wav_header(
                self@.sample_rate,
                self@.channels,
                self@.bits_per_sample,
                self@.data_bytes as int,
            ),
    {
        self.header()
    }
}

/// The 44-byte header of a PCM WAV file.
pub fn write_wav_header(sample_rate: u32, channels: u16, bits_per_sample: u16, data_bytes: u32) -> (h: Vec<u8>)
    requires
        wav_format_fits(sample_rate, channels, bits_per_sample),
        data_bytes <= u32::MAX - 36,
    ensures
        h@ == wav_header(sample_rate, channels, bits_per_sample, data_bytes as int),
        h@.len() == 44,
{
    let byte_rate = sample_rate * channels as u32 * bits_per_sample as u32 / 8;
    let block_align = channels * bits_per_sample / 8;
    let mut h: Vec<u8> = Vec::new();
    push_bytes(&mut h, &[0x52u8, 0x49u8, 0x46u8, 0x46u8]);
    push_bytes(&mut h, &le_u32_bytes(36 + data_bytes));
    push_bytes(&mut h, &[0x57u8, 0x41u8, 0x56u8, 0x45u8]);
    push_bytes(&mut h, &[0x66u8, 0x6du8, 0x74u8, 0x20u8]);
    push_bytes(&mut h, &le_u32_bytes(16));
    push_bytes(&mut h, &le_u16_bytes(1));
    push_bytes(&mut h, &le_u16_bytes(channels));
    push_bytes(&mut h, &le_u32_bytes(sample_rate));
    push_bytes(&mut h, &le_u32_bytes(byte_rate));
    push_bytes(&mut h, &le_u16_bytes(block_align));
    push_bytes(&mut h, &le_u16_bytes(bits_per_sample));
    push_bytes(&mut h, &[0x64u8, 0x61u8, 0x74u8, 0x61u8]);
    push_bytes(&mut h, &le_u32_bytes(data_bytes));
    assert(h@ =~= wav_header(sample_rate, channels, bits_per_sample, data_bytes as int));
    h
}

/// The header's size fields read back as the data length: the RIFF size is 36
/// more than the data size, and the data size is the number of data bytes.
pub proof fn lemma_wav_header_sizes(
    sample_rate: u32,
    channels: u16,
    bits_per_sample: u16,
    data_bytes: int,
)
    requires
        0 <= data_bytes <= u32::MAX - 36,
    ensures
        wav_header(sample_rate, channels, bits_per_sample, data_bytes).len() == 44,
        le32_value(wav_header(sample_rate, channels, bits_per_sample, data_bytes).subrange(4, 8))
            == 36 + data_bytes,
        le32_value(wav_header(sample_rate, channels, bits_per_sample, data_bytes).subrange(40, 44))
            == data_bytes,
        le32_value(wav_header(sample_rate, channels, bits_per_sample, data_bytes).subrange(24, 28))
            == sample_rate,
        le16_value(wav_header(sample_rate, channels, bits_per_sample, data_bytes).subrange(22, 24))
            == channels,
        le16_value(wav_header(sample_rate, channels, bits_per_sample, data_bytes).subrange(34, 36))
            == bits_per_sample,
{
    let h = wav_header(sample_rate, channels, bits_per_sample, data_bytes);
    lemma_le32_roundtrip(36 + data_bytes);
    lemma_le32_roundtrip(data_bytes);
    lemma_le32_roundtrip(sample_rate as int);
    lemma_le16_roundtrip(channels as int);
    lemma_le16_roundtrip(bits_per_sample as int);
    assert(h.subrange(4, 8) =~= le32(36 + data_bytes));
    assert(h.subrange(40, 44) =~= le32(data_bytes));
    assert(h.subrange(24, 28) =~= le32(sample_rate as int));
    assert(h.subrange(22, 24) =~= le16(channels as int));
    assert(h.subrange(34, 36) =~= le16(bits_per_sample as int));
}

/// The sum of the chunk lengths.
pub open spec fn total_len(lens: Seq<int>) -> int
    decreases lens.len(),
{
    if lens.len() == 0 {
        0
    } else {
        total_len(lens.drop_last()) + lens.last()
    }
}

/// A writer's state after appending chunks of these lengths, as `append`
/// changes it one chunk at a time.
pub open spec fn appended(w: WavState, lens: Seq<int>) -> WavState
    decreases lens.len(),
{
    if lens.len() == 0 {
        w
    } else {
        let p = appended(w, lens.drop_last());
        WavState { data_bytes: (p.data_bytes + lens.last()) as u32, ..p }
    }
}

proof fn lemma_appended_count(w: WavState, lens: Seq<int>)
    requires
        forall|i: int| 0 <= i < lens.len() ==> #[trigger] lens[i] >= 0,
        w.data_bytes + total_len(lens) <= u32::MAX,
    ensures
        appended(w, lens).data_bytes == w.data_bytes + total_len(lens),
        appended(w, lens).sample_rate == w.sample_rate,
        appended(w, lens).channels == w.channels,
        appended(w, lens).bits_per_sample == w.bits_per_sample,
    decreases lens.len(),
{
    if lens.len() > 0 {
        let prev = lens.drop_last();
        assert forall|i: int| 0 <= i < prev.len() implies #[trigger] prev[i] >= 0 by {
            assert(prev[i] == lens[i]);
        }
        assert(lens.last() == lens[lens.len() - 1]);
        lemma_appended_count(w, prev);
    }
}

/// After creating a writer and appending chunks of any lengths, the final
/// header keeps the format and its size fields count every byte appended:
/// the data size is their total and the RIFF size 36 more.
pub proof fn lemma_wav_after_appends(
    sample_rate: u32,
    channels: u16,
    bits_per_sample: u16,
    lens: Seq<int>,
)
    requires
        forall|i: int| 0 <= i < lens.len() ==> #[trigger] lens[i] >= 0,
        total_len(lens) <= u32::MAX - 36,
    ensures
        ({
            let w = appended(WavState { sample_rate, channels, bits_per_sample, data_bytes: 0 }, lens);
            let h = wav_header(w.sample_rate, w.channels, w.bits_per_sample, w.data_bytes as int);
            &&& w.data_bytes == total_len(lens)
            &&& h == wav_header(sample_rate, channels, bits_per_sample, total_len(lens))
            &&& le32_value(h.subrange(40, 44)) == total_len(lens)
            &&& le32_value(h.subrange(4, 8)) == 36 + total_len(lens)
        }),
{
    let w0 = WavState { sample_rate, channels, bits_per_sample, data_bytes: 0 };
    lemma_appended_count(w0, lens);
    lemma_wav_header_sizes(sample_rate, channels, bits_per_sample, total_len(lens));
}

} // verus!
