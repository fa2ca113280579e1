use phonemike::ring::{ring_write, shared_file_path, shared_header, MAGIC, RING_CAPACITY};

#[test]
fn header_layout() {
    let h = shared_header(48000, 1, 16);
    assert_eq!(h.len(), 28);
    assert_eq!(&h[0..4], b"PHMC");
    assert_eq!(u32::from_le_bytes([h[0], h[1], h[2], h[3]]), MAGIC);
    assert_eq!(u32::from_le_bytes([h[4], h[5], h[6], h[7]]), 48000);
    assert_eq!(u16::from_le_bytes([h[8], h[9]]), 1);
    assert_eq!(u16::from_le_bytes([h[10], h[11]]), 16);
    assert_eq!(u32::from_le_bytes([h[12], h[13], h[14], h[15]]), 65508);
    assert_eq!(&h[16..24], &[0u8; 8]);
    assert_eq!(&h[24..28], &[1, 0, 0, 0]);
}

#[test]
fn path_is_wide_and_terminated() {
    let p = shared_file_path();
    let expected: Vec<u16> = "C:\\ProgramData\\PhoneMike\\ring.dat\0".encode_utf16().collect();
    assert_eq!(p, expected);
    assert_eq!(*p.last().unwrap(), 0);
}

#[test]
fn writes_at_the_index_modulo_capacity() {
    let mut ring = vec![0u8; RING_CAPACITY];
    let next = ring_write(&mut ring, 70000, &[1, 2, 3]);
    assert_eq!(next, 70003);
    let pos = 70000 % RING_CAPACITY;
    assert_eq!(&ring[pos..pos + 3], &[1, 2, 3]);
    assert_eq!(ring.iter().filter(|&&b| b != 0).count(), 3);
}

#[test]
fn wraps_at_the_end_of_the_ring() {
    let mut ring = vec![0u8; RING_CAPACITY];
    let start = (RING_CAPACITY - 2) as u32;
    let next = ring_write(&mut ring, start, &[7, 8, 9, 10]);
    assert_eq!(next, start + 4);
    assert_eq!(ring[RING_CAPACITY - 2], 7);
    assert_eq!(ring[RING_CAPACITY - 1], 8);
    assert_eq!(ring[0], 9);
    assert_eq!(ring[1], 10);
    assert_eq!(ring[2], 0);
}

#[test]
fn empty_write_changes_nothing() {
    let mut ring = vec![5u8; RING_CAPACITY];
    assert_eq!(ring_write(&mut ring, 123, &[]), 123);
    assert!(ring.iter().all(|&b| b == 5));
}

#[test]
fn counter_wraps_modulo_2_to_32() {
    let mut ring = vec![0u8; RING_CAPACITY];
    let next = ring_write(&mut ring, u32::MAX, &[1, 2]);
    assert_eq!(next, 1);
    assert_eq!(ring[(u32::MAX as usize) % RING_CAPACITY], 1);
    assert_eq!(ring[((u32::MAX as usize) + 1) % RING_CAPACITY], 2);
}

#[test]
fn write_longer_than_ring_keeps_the_newest_bytes() {
    let mut ring = vec![0u8; RING_CAPACITY];
    let data: Vec<u8> = (0..RING_CAPACITY + 10).map(|i| (i % 251) as u8).collect();
    let next = ring_write(&mut ring, 3, &data);
    assert_eq!(next as usize, 3 + data.len());
    for k in 10..data.len() {
        assert_eq!(ring[(3 + k) % RING_CAPACITY], data[k]);
    }
}

#[test]
fn chunked_writes_equal_one_write() {
    let a: Vec<u8> = (0..40000u32).map(|i| (i % 200) as u8).collect();
    let b: Vec<u8> = (0..50000u32).map(|i| (i % 97) as u8 + 1).collect();
    let mut one = vec![0u8; RING_CAPACITY];
    let mut joined = a.clone();
    joined.extend_from_slice(&b);
    let end_one = ring_write(&mut one, 1000, &joined);
    let mut two = vec![0u8; RING_CAPACITY];
    let mid = ring_write(&mut two, 1000, &a);
    let end_two = ring_write(&mut two, mid, &b);
    assert_eq!(one, two);
    assert_eq!(end_one, end_two);
}
