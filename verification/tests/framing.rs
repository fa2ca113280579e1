use phonemike::stream::{
    max_pcm_samples, opus_frame_len, parse_header, pcm_from_bytes, pcm_to_bytes, select_codec,
    HeaderError, PcmHeader, PcmStream, StreamCodec,
};

fn header_bytes(sample_rate: u32, channels: u16, format: u16) -> Vec<u8> {
    let mut b = b"PHMC".to_vec();
    b.extend_from_slice(&sample_rate.to_le_bytes());
    b.extend_from_slice(&channels.to_le_bytes());
    b.extend_from_slice(&format.to_le_bytes());
    b.extend_from_slice(&[0, 0, 0, 0]);
    b
}

#[test]
fn parses_a_pcm_header() {
    let h = parse_header(&header_bytes(48000, 1, 1)).unwrap();
    assert_eq!(h, PcmHeader { sample_rate: 48000, channels: 1, format: 1 });
}

#[test]
fn parses_an_opus_header_with_trailing_bytes() {
    let mut b = header_bytes(24000, 2, 2);
    b.extend_from_slice(&[9, 9, 9]);
    let h = parse_header(&b).unwrap();
    assert_eq!(h.sample_rate, 24000);
    assert_eq!(h.channels, 2);
    assert_eq!(h.format, 2);
}

#[test]
fn refuses_a_short_header() {
    let b = header_bytes(48000, 1, 1);
    match parse_header(&b[..15]) {
        Err(HeaderError::TooShort { len }) => assert_eq!(len, 15),
        other => panic!("unexpected {:?}", other),
    }
    match parse_header(&[]) {
        Err(HeaderError::TooShort { len }) => assert_eq!(len, 0),
        other => panic!("unexpected {:?}", other),
    }
}

#[test]
fn refuses_a_bad_magic() {
    let mut b = header_bytes(48000, 1, 1);
    b[3] = b'X';
    match parse_header(&b) {
        Err(HeaderError::BadMagic { found }) => assert_eq!(&found, b"PHMX"),
        other => panic!("unexpected {:?}", other),
    }
}

#[test]
fn reads_fields_little_endian() {
    let b = [b'P', b'H', b'M', b'C', 0x44, 0xac, 0, 0, 2, 0, 2, 0, 0, 0, 0, 0];
    let h = parse_header(&b).unwrap();
    assert_eq!(h.sample_rate, 44100);
    assert_eq!(h.channels, 2);
    assert_eq!(h.format, 2);
}

#[test]
fn chooses_opus_only_for_supported_shapes() {
    for rate in [8000u32, 12000, 16000, 24000, 48000] {
        let h = PcmHeader { sample_rate: rate, channels: 1, format: 2 };
        assert_eq!(select_codec(&h), StreamCodec::Opus { sample_rate: rate, channels: 1 });
    }
    let stereo = PcmHeader { sample_rate: 48000, channels: 2, format: 2 };
    assert_eq!(select_codec(&stereo), StreamCodec::Opus { sample_rate: 48000, channels: 2 });
    let odd_rate = PcmHeader { sample_rate: 44100, channels: 1, format: 2 };
    assert_eq!(select_codec(&odd_rate), StreamCodec::Pcm16);
    let many_channels = PcmHeader { sample_rate: 48000, channels: 3, format: 2 };
    assert_eq!(select_codec(&many_channels), StreamCodec::Pcm16);
    let pcm = PcmHeader { sample_rate: 48000, channels: 1, format: 1 };
    assert_eq!(select_codec(&pcm), StreamCodec::Pcm16);
}

#[test]
fn sizes_the_decode_buffer_for_120_ms() {
    assert_eq!(max_pcm_samples(48000, 1), 5760);
    assert_eq!(max_pcm_samples(48000, 2), 11520);
    assert_eq!(max_pcm_samples(8000, 1), 960);
    assert_eq!(max_pcm_samples(44100, 2), 10584);
}

#[test]
fn checks_opus_frame_lengths() {
    assert_eq!(opus_frame_len(&[0, 0]), None);
    assert_eq!(opus_frame_len(&[1, 0]), Some(1));
    assert_eq!(opus_frame_len(&[0x00, 0x1e]), Some(7680));
    assert_eq!(opus_frame_len(&[0x01, 0x1e]), None);
    assert_eq!(opus_frame_len(&[0x3c, 0x00]), Some(60));
    assert_eq!(opus_frame_len(&[0xff, 0xff]), None);
}

#[test]
fn decodes_pcm_little_endian() {
    let s = pcm_from_bytes(&[0x01, 0x00, 0xff, 0xff, 0x00, 0x80, 0xff, 0x7f]);
    assert_eq!(s, vec![1, -1, i16::MIN, i16::MAX]);
}

#[test]
fn drops_a_trailing_odd_byte() {
    let s = pcm_from_bytes(&[0x34, 0x12, 0x99]);
    assert_eq!(s, vec![0x1234]);
    assert!(pcm_from_bytes(&[7]).is_empty());
}

#[test]
fn encodes_pcm_little_endian() {
    assert_eq!(pcm_to_bytes(&[1, -1, i16::MIN, 0x1234]), vec![1, 0, 0xff, 0xff, 0, 0x80, 0x34, 0x12]);
    assert!(pcm_to_bytes(&[]).is_empty());
}

#[test]
fn pcm_roundtrips_through_bytes() {
    let samples: Vec<i16> = vec![0, 5, -5, 300, -30000, 32767, -32768];
    assert_eq!(pcm_from_bytes(&pcm_to_bytes(&samples)), samples);
}

#[test]
fn odd_reads_keep_samples_aligned() {
    // Two samples, 0x0201 and -2, delivered as a read of 3 bytes and one of 1.
    let bytes = [0x01u8, 0x02, 0xfe, 0xff];
    let mut s = PcmStream::new();
    let first = s.feed(&bytes[..3]);
    assert_eq!(first, vec![0x0201i16]);
    let second = s.feed(&bytes[3..]);
    assert_eq!(second, vec![-2i16]);
}

#[test]
fn stream_matches_one_shot_decoding_for_every_split() {
    let bytes: Vec<u8> = (0u8..23).map(|b| b.wrapping_mul(37)).collect();
    let whole = pcm_from_bytes(&bytes);
    for cut_a in 0..bytes.len() {
        for cut_b in cut_a..bytes.len() {
            let mut s = PcmStream::new();
            let mut got = s.feed(&bytes[..cut_a]);
            got.extend(s.feed(&bytes[cut_a..cut_b]));
            got.extend(s.feed(&bytes[cut_b..]));
            assert_eq!(got, whole, "split at {cut_a} and {cut_b}");
        }
    }
}

#[test]
fn single_bytes_make_a_sample_every_second_read() {
    let mut s = PcmStream::new();
    assert!(s.feed(&[0x34]).is_empty());
    assert_eq!(s.feed(&[0x12]), vec![0x1234i16]);
    assert!(s.feed(&[]).is_empty());
    assert!(s.feed(&[0x00]).is_empty());
    assert_eq!(s.feed(&[0x80, 0x07]), vec![i16::MIN]);
}
