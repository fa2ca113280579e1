//! The sample backlog between the network and the audio device: the stream
//! side pushes decoded chunks and keeps the backlog short, the device side
//! pulls one sample per output frame.

use std::collections::VecDeque;
use vstd::prelude::*;

verus! {

/// Samples (over all channels) in 40 ms of audio: the backlog kept after a
/// trim, enough to ride out load spikes without adding much latency.
pub open spec fn backlog_target(sample_rate: u32, channels: u16) -> int {
    (sample_rate * channels) / 25
}

/// The backlog after pushing `chunk`: an empty chunk changes nothing; otherwise
/// the chunk is appended and, if the backlog then holds more than twice the
/// target, only its newest `target` samples are kept.
pub open spec fn backlog_after(backlog: Seq<i16>, chunk: Seq<i16>, target: int) -> Seq<i16> {
    if chunk.len() == 0 {
        backlog
    } else {
        let all = backlog + chunk;
        if all.len() > 2 * target {
            all.subrange(all.len() - target, all.len() as int)
        } else {
            all
        }
    }
}

/// Appends a processed chunk to the playback backlog and trims the backlog
/// back to 40 ms when it has grown past 80 ms.
pub fn push_backlog(backlog: &mut VecDeque<i16>, chunk: &[i16], sample_rate: u32, channels: u16)
    requires
        sample_rate * channels <= usize::MAX,
        old(backlog)@.len() + chunk@.len() <= usize::MAX,
    ensures
        final(backlog)@ == backlog_after(
            old(backlog)@,
            chunk@,
            backlog_target(sample_rate, channels),
        ),
        chunk@.len() > 0 ==> final(backlog)@.len() <= 2 * backlog_target(sample_rate, channels),
{
    if chunk.len() == 0 {
        return;
    }
    let mut i: usize = 0;
    while i < chunk.len()
        invariant
            i <= chunk@.len(),
            backlog@ == old(backlog)@ + chunk@.take(i as int),
        decreases chunk@.len() - i,
    {
        backlog.push_back(chunk[i]);
        i = i + 1;
        assert(chunk@.take(i as int) =~= chunk@.take(i - 1).push(chunk@[i - 1]));
    }
    assert(chunk@.take(chunk@.len() as int) =~= chunk@);
    let ghost all = backlog@;
    let target = (sample_rate as usize * channels as usize) / 25;
    let max = target * 2;
    let current_len = backlog.len();
    if current_len > max {
        let excess = current_len - target;
        let mut k: usize = 0;
        while k < excess
            invariant
                k <= excess == all.len() - target,
                backlog@ == all.subrange(k as int, all.len() as int),
            decreases excess - k,
        {
            let _ = backlog.pop_front();
            k = k + 1;
        }
    }
}

/// The sample that output frame `f` plays: the `f`-th queued sample, or
/// silence once the queue has run dry.
pub open spec fn frame_sample(queue: Seq<i16>, f: int) -> i16 {
    if f < queue.len() {
        queue[f]
    } else {
        0
    }
}

/// The next queued sample, or silence when the queue is empty.
pub fn pop_or_silence(queue: &mut VecDeque<i16>) -> (s: i16)
    ensures
        s == frame_sample(old(queue)@, 0),
        old(queue)@.len() > 0 ==> final(queue)@ == old(queue)@.subrange(1, old(queue)@.len() as int),
        old(queue)@.len() == 0 ==> final(queue)@ == old(queue)@,
{
    match queue.pop_front() {
        Some(s) => s,
        None => 0,
    }
}

proof fn lemma_frame_bounds(g: int, c: int, f: int, ch: int)
    requires
        0 <= g < f,
        0 <= c < ch,
    ensures
        g * ch + c < f * ch,
        0 <= g * ch,
{
    assert(g * ch + c < f * ch) by (nonlinear_arith)
        requires
            0 <= g < f,
            0 <= c < ch,
    ;
    assert(0 <= g * ch) by (nonlinear_arith)
        requires
            0 <= g,
            0 <= c < ch,
    ;
}

proof fn lemma_next_frame(f: int, nframes: int, ch: int, len: int)
    requires
        0 <= f < nframes,
        nframes == len / ch,
        ch > 0,
        len >= 0,
    ensures
        (f + 1) * ch <= len,
        f * ch + ch == (f + 1) * ch,
{
    assert((f + 1) * ch <= nframes * ch) by (nonlinear_arith)
        requires
            0 <= f < nframes,
            ch > 0,
    ;
    assert(nframes * ch <= len) by (nonlinear_arith)
        requires
            nframes == len / ch,
            ch > 0,
            len >= 0,
    ;
    assert(f * ch + ch == (f + 1) * ch) by (nonlinear_arith);
}

/// Fills an interleaved 16-bit output buffer: every whole frame gets the next
/// queued sample (silence once the queue is dry) on all of its channels; a
/// trailing partial frame is left as it was.
pub fn fill_frames_i16(data: &mut [i16], queue: &mut VecDeque<i16>, out_channels: usize)
    requires
        out_channels > 0,
    ensures
        final(data)@.len() == old(data)@.len(),
        ({
            let nframes = (old(data)@.len() as int) / (out_channels as int);
            let taken = if nframes < old(queue)@.len() {
                nframes
            } else {
                old(queue)@.len() as int
            };
            &&& final(queue)@ == old(queue)@.subrange(taken, old(queue)@.len() as int)
            &&& forall|g: int, c: int|
                0 <= g < nframes && 0 <= c < out_channels ==> #[trigger] final(data)@[g
                    * out_channels + c] == frame_sample(old(queue)@, g)
            &&& forall|i: int|
                nframes * out_channels <= i < old(data)@.len() ==> #[trigger] final(data)@[i]
                    == old(data)@[i]
        }),
{
    let ch = out_channels;
    let len = data.len();
    let nframes = len / ch;
    let ghost q0 = queue@;
    let ghost d0 = data@;
    let mut f: usize = 0;
    let mut base: usize = 0;
    while f < nframes
        invariant
            ch == out_channels > 0,
            nframes == (d0.len() as int) / (ch as int),
            data@.len() == d0.len() == len,
            f <= nframes,
            base == f * ch,
            queue@ == q0.subrange(if f < q0.len() { f as int } else { q0.len() as int }, q0.len() as int),
            forall|g: int, c: int|
                0 <= g < f && 0 <= c < ch ==> #[trigger] data@[g * ch + c] == frame_sample(q0, g),
            forall|i: int| f * ch <= i < d0.len() ==> #[trigger] data@[i] == d0[i],
        decreases nframes - f,
    {
        proof {
            lemma_next_frame(f as int, nframes as int, ch as int, d0.len() as int);
        }
        let s = pop_or_silence(queue);
        assert(s == frame_sample(q0, f as int));
        let mut c: usize = 0;
        while c < ch
            invariant
                ch == out_channels > 0,
                c <= ch,
                base + ch <= data@.len() == d0.len() == len,
                base == f * ch,
                f < nframes,
                s == frame_sample(q0, f as int),
                forall|g: int, c2: int|
                    0 <= g < f && 0 <= c2 < ch ==> #[trigger] data@[g * ch + c2] == frame_sample(
                        q0,
                        g,
                    ),
                forall|c2: int| 0 <= c2 < c ==> #[trigger] data@[base + c2] == s,
                forall|i: int| base + c <= i < d0.len() ==> #[trigger] data@[i] == d0[i],
            decreases ch - c,
        {
            let ghost before = data@;
            data[base + c] = s;
            proof {
                assert forall|g: int, c2: int| 0 <= g < f && 0 <= c2 < ch implies #[trigger] data@[g
                    * ch + c2] == frame_sample(q0, g) by {
                    lemma_frame_bounds(g, c2, f as int, ch as int);
                    assert(data@[g * ch + c2] == before[g * ch + c2]);
                }
            }
            c = c + 1;
        }
        proof {
            assert forall|g: int, c2: int| 0 <= g < f + 1 && 0 <= c2 < ch implies #[trigger] data@[g
                * ch + c2] == frame_sample(q0, g) by {
                if g == f {
                    assert(g * ch + c2 == base + c2);
                }
            }
        }
        base = base + ch;
        f = f + 1;
    }
}

/// The offset-binary form of a sample, as unsigned 16-bit devices play it.
pub open spec fn offset_binary(s: i16) -> u16 {
    (s + 32768) as u16
}

/// Fills an interleaved unsigned 16-bit output buffer as `fill_frames_i16`
/// does, each sample shifted to offset binary.
pub fn fill_frames_u16(data: &mut [u16], queue: &mut VecDeque<i16>, out_channels: usize)
    requires
        out_channels > 0,
    ensures
        final(data)@.len() == old(data)@.len(),
        ({
            let nframes = (old(data)@.len() as int) / (out_channels as int);
            let taken = if nframes < old(queue)@.len() {
                nframes
            } else {
                old(queue)@.len() as int
            };
            &&& final(queue)@ == old(queue)@.subrange(taken, old(queue)@.len() as int)
            &&& forall|g: int, c: int|
                0 <= g < nframes && 0 <= c < out_channels ==> #[trigger] final(data)@[g
                    * out_channels + c] == offset_binary(frame_sample(old(queue)@, g))
            &&& forall|i: int|
                nframes * out_channels <= i < old(data)@.len() ==> #[trigger] final(data)@[i]
                    == old(data)@[i]
        }),
{
    let ch = out_channels;
    let len = data.len();
    let nframes = len / ch;
    let ghost q0 = queue@;
    let ghost d0 = data@;
    let mut f: usize = 0;
    let mut base: usize = 0;
    while f < nframes
        invariant
            ch == out_channels > 0,
            nframes == (d0.len() as int) / (ch as int),
            data@.len() == d0.len() == len,
            f <= nframes,
            base == f * ch,
            queue@ == q0.subrange(if f < q0.len() { f as int } else { q0.len() as int }, q0.len() as int),
            forall|g: int, c: int|
                0 <= g < f && 0 <= c < ch ==> #[trigger] data@[g * ch + c] == offset_binary(
                    frame_sample(q0, g),
                ),
            forall|i: int| f * ch <= i < d0.len() ==> #[trigger] data@[i] == d0[i],
        decreases nframes - f,
    {
        proof {
            lemma_next_frame(f as int, nframes as int, ch as int, d0.len() as int);
        }
        let s = pop_or_silence(queue);
        let u = (s as i32 + 32768) as u16;
        assert(u == offset_binary(frame_sample(q0, f as int)));
        let mut c: usize = 0;
        while c < ch
            invariant
                ch == out_channels > 0,
                c <= ch,
                base + ch <= data@.len() == d0.len() == len,
                base == f * ch,
                f < nframes,
                u == offset_binary(frame_sample(q0, f as int)),
                forall|g: int, c2: int|
                    0 <= g < f && 0 <= c2 < ch ==> #[trigger] data@[g * ch + c2] == offset_binary(
                        frame_sample(q0, g),
                    ),
                forall|c2: int| 0 <= c2 < c ==> #[trigger] data@[base + c2] == u,
                forall|i: int| base + c <= i < d0.len() ==> #[trigger] data@[i] == d0[i],
            decreases ch - c,
        {
            let ghost before = data@;
            data[base + c] = u;
            proof {
                assert forall|g: int, c2: int| 0 <= g < f && 0 <= c2 < ch implies #[trigger] data@[g
                    * ch + c2] == offset_binary(frame_sample(q0, g)) by {
                    lemma_frame_bounds(g, c2, f as int, ch as int);
                    assert(data@[g * ch + c2] == before[g * ch + c2]);
                }
            }
            c = c + 1;
        }
        proof {
            assert forall|g: int, c2: int| 0 <= g < f + 1 && 0 <= c2 < ch implies #[trigger] data@[g
                * ch + c2] == offset_binary(frame_sample(q0, g)) by {
                if g == f {
                    assert(g * ch + c2 == base + c2);
                }
            }
        }
        base = base + ch;
        f = f + 1;
    }
}

} // verus!
