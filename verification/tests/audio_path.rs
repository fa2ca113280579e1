use phonemike::gate::{NoiseGate, GATE_HOLD_NS};
use phonemike::playback::{fill_frames_i16, fill_frames_u16, pop_or_silence, push_backlog};
use std::collections::VecDeque;

#[test]
fn backlog_grows_until_twice_the_target() {
    // 48 kHz mono: target 1920 samples, limit 3840.
    let mut q: VecDeque<i16> = VecDeque::new();
    let chunk: Vec<i16> = (0..1000).map(|i| i as i16).collect();
    push_backlog(&mut q, &chunk, 48000, 1);
    push_backlog(&mut q, &chunk, 48000, 1);
    push_backlog(&mut q, &chunk, 48000, 1);
    assert_eq!(q.len(), 3000);
    push_backlog(&mut q, &chunk, 48000, 1);
    assert_eq!(q.len(), 1920);
    assert_eq!(*q.back().unwrap(), 999);
    assert_eq!(*q.front().unwrap(), (1000 - 920) as i16);
}

#[test]
fn backlog_at_exactly_the_limit_is_kept() {
    let mut q: VecDeque<i16> = VecDeque::new();
    let chunk = vec![1i16; 3840];
    push_backlog(&mut q, &chunk, 48000, 1);
    assert_eq!(q.len(), 3840);
    push_backlog(&mut q, &[2], 48000, 1);
    assert_eq!(q.len(), 1920);
    assert_eq!(*q.back().unwrap(), 2);
}

#[test]
fn empty_chunk_leaves_backlog() {
    let mut q: VecDeque<i16> = (0..5000).map(|i| i as i16).collect();
    push_backlog(&mut q, &[], 48000, 1);
    assert_eq!(q.len(), 5000);
}

#[test]
fn stereo_target_doubles() {
    let mut q: VecDeque<i16> = VecDeque::new();
    push_backlog(&mut q, &vec![0i16; 7681], 48000, 2);
    assert_eq!(q.len(), 3840);
}

#[test]
fn frames_repeat_one_sample_on_every_channel() {
    let mut q: VecDeque<i16> = VecDeque::from(vec![10, 20]);
    let mut out = [99i16; 7];
    fill_frames_i16(&mut out, &mut q, 2);
    assert_eq!(out, [10, 10, 20, 20, 0, 0, 99]);
    assert!(q.is_empty());
}

#[test]
fn frames_leave_unused_samples_queued() {
    let mut q: VecDeque<i16> = VecDeque::from(vec![1, 2, 3, 4]);
    let mut out = [0i16; 2];
    fill_frames_i16(&mut out, &mut q, 1);
    assert_eq!(out, [1, 2]);
    assert_eq!(q, VecDeque::from(vec![3, 4]));
}

#[test]
fn unsigned_frames_are_offset_binary() {
    let mut q: VecDeque<i16> = VecDeque::from(vec![i16::MIN, 0, i16::MAX]);
    let mut out = [7u16; 4];
    fill_frames_u16(&mut out, &mut q, 1);
    assert_eq!(out, [0, 32768, 65535, 32768]);
}

#[test]
fn silence_on_underrun() {
    let mut q: VecDeque<i16> = VecDeque::new();
    assert_eq!(pop_or_silence(&mut q), 0);
    q.push_back(-3);
    assert_eq!(pop_or_silence(&mut q), -3);
    assert!(q.is_empty());
}

#[test]
fn gate_off_passes_everything() {
    let mut g = NoiseGate::new(0);
    assert!(!g.step(false, false, 1_000_000_000));
    assert!(g.open);
}

#[test]
fn gate_holds_open_after_loud_chunk() {
    let mut g = NoiseGate::new(0);
    assert!(!g.step(true, true, 1_000));
    assert_eq!(g.hold_until_ns, 1_000 + GATE_HOLD_NS);
    assert!(!g.step(true, false, 1_000 + GATE_HOLD_NS - 1));
    assert!(g.step(true, false, 1_000 + GATE_HOLD_NS));
    assert!(!g.open);
    assert!(g.step(true, false, 2 * GATE_HOLD_NS + 5_000));
    assert!(!g.step(true, true, 3 * GATE_HOLD_NS));
}

#[test]
fn gate_closes_quiet_start_once_hold_passed() {
    let mut g = NoiseGate::new(500);
    assert!(!g.step(true, false, 499));
    assert!(g.step(true, false, 500));
}

#[test]
fn gate_over_a_session_silences_quiet_chunks_once_the_hold_passed() {
    // (gate on, loud, time in ms); expected: silenced?
    let ms = 1_000_000u64;
    let chunks = [
        (true, false, 0, true),    // quiet at the start: hold is the start itself
        (true, true, 10, false),   // loud: opens, hold until 90 ms
        (true, false, 50, false),  // quiet within the hold
        (false, false, 60, false), // gate off: nothing silenced, hold kept
        (true, false, 89, false),  // still within the hold after the last loud chunk
        (true, false, 90, true),   // hold passed
        (true, false, 95, true),
        (true, true, 100, false),  // loud again
        (true, false, 179, false),
        (true, false, 180, true),
    ];
    let mut g = NoiseGate::new(0);
    for (i, &(on, loud, t, silenced)) in chunks.iter().enumerate() {
        assert_eq!(g.step(on, loud, t * ms), silenced, "chunk {i}");
    }
    assert_eq!(GATE_HOLD_NS, 80 * ms);
}
