//! The noise gate: a chunk quieter than the threshold is replaced by silence,
//! but only once the hold time after the last loud chunk has passed, so that
//! speech is not cut between words.

use vstd::prelude::*;

verus! {

/// How long the noise gate stays open after a loud chunk, in nanoseconds (80 ms).
pub const GATE_HOLD_NS: u64 = 80_000_000;

/// The noise gate's state: open or closed, and until when a loud chunk holds it open.
/// Times are nanoseconds on the session's monotonic clock.
#[derive(Clone, Copy, Debug, PartialEq, Eq, Structural)]
pub struct NoiseGate {
    pub open: bool,
    pub hold_until_ns: u64,
}

/// The noise gate after one chunk, and whether that chunk is silenced: a disabled
/// gate (threshold 0) is open and silences nothing; a loud chunk opens the noise gate
/// and holds it for `GATE_HOLD_NS`; a quiet chunk closes it once the hold has
/// passed and otherwise leaves it as it was.
pub open spec fn gate_step(g: NoiseGate, enabled: bool, loud: bool, now_ns: u64) -> (NoiseGate, bool) {
    if !enabled {
        (NoiseGate { open: true, hold_until_ns: g.hold_until_ns }, false)
    } else if loud {
        (NoiseGate { open: true, hold_until_ns: (now_ns + GATE_HOLD_NS) as u64 }, false)
    } else if now_ns >= g.hold_until_ns {
        (NoiseGate { open: false, hold_until_ns: g.hold_until_ns }, true)
    } else {
        (g, !g.open)
    }
}

impl NoiseGate {
    /// An open gate at the start of a session.
    pub fn new(start_ns: u64) -> (g: NoiseGate)
        ensures
            g == (NoiseGate { open: true, hold_until_ns: start_ns }),
    {
        NoiseGate { open: true, hold_until_ns: start_ns }
    }

    /// Feeds one chunk: `enabled` when the threshold is above zero, `loud` when
    /// the chunk's level reaches it. Returns whether the chunk is silenced.
    pub fn step(&mut self, enabled: bool, loud: bool, now_ns: u64) -> (gated_out: bool)
        requires
            enabled && loud ==> now_ns <= u64::MAX - GATE_HOLD_NS,
        ensures
            (*final(self), gated_out) == gate_step(*old(self), enabled, loud, now_ns),
    {
        if enabled {
            if loud {
                self.hold_until_ns = now_ns + GATE_HOLD_NS;
                self.open = true;
            } else if now_ns >= self.hold_until_ns {
                self.open = false;
            }
            !self.open
        } else {
            self.open = true;
            false
        }
    }
}

/// A gate that is off never silences anything.
pub proof fn lemma_disabled_gate_passes(g: NoiseGate, loud: bool, now_ns: u64)
    ensures
        gate_step(g, false, loud, now_ns).1 == false,
        gate_step(g, false, loud, now_ns).0.open,
{
}

/// After a loud chunk at `t`, a quiet chunk before `t + GATE_HOLD_NS` still
/// passes, and the noise gate stays open and keeps its deadline, so every further
/// quiet chunk before that time passes too.
pub proof fn lemma_hold_keeps_open(g: NoiseGate, t: u64, now_ns: u64)
    requires
        t <= u64::MAX - GATE_HOLD_NS,
        now_ns < t + GATE_HOLD_NS,
    ensures
        ({
            let opened = gate_step(g, true, true, t).0;
            let (after, gated) = gate_step(opened, true, false, now_ns);
            &&& !gated
            &&& after == opened
        }),
{
}

/// An open gate whose hold has not passed lets a quiet chunk through and
/// stays as it is.
pub proof fn lemma_open_within_hold(g: NoiseGate, now_ns: u64)
    requires
        g.open,
        now_ns < g.hold_until_ns,
    ensures
        gate_step(g, true, false, now_ns) == (g, false),
{
}

/// A quiet chunk closes an enabled gate exactly when the hold has passed.
pub proof fn lemma_closes_only_after_hold(g: NoiseGate, now_ns: u64)
    requires
        g.open,
    ensures
        gate_step(g, true, false, now_ns).1 <==> now_ns >= g.hold_until_ns,
{
}

/// The noise gate after a session's chunks so far, each given as (threshold above
/// zero, level at or above it, time), starting open at `start_ns`.
pub open spec fn gate_after(start_ns: u64, chunks: Seq<(bool, bool, u64)>) -> NoiseGate
    decreases chunks.len(),
{
    if chunks.len() == 0 {
        NoiseGate { open: true, hold_until_ns: start_ns }
    } else {
        let c = chunks.last();
        gate_step(gate_after(start_ns, chunks.drop_last()), c.0, c.1, c.2).0
    }
}

/// Whether chunk `k` of a session is silenced.
pub open spec fn gated_at(start_ns: u64, chunks: Seq<(bool, bool, u64)>, k: int) -> bool {
    gate_step(gate_after(start_ns, chunks.take(k)), chunks[k].0, chunks[k].1, chunks[k].2).1
}

/// The end of the hold after the last loud chunk (with the noise gate on) among
/// `chunks`, or the session's start when there is none.
pub open spec fn hold_deadline(start_ns: u64, chunks: Seq<(bool, bool, u64)>) -> int
    decreases chunks.len(),
{
    if chunks.len() == 0 {
        start_ns as int
    } else if chunks.last().0 && chunks.last().1 {
        chunks.last().2 + GATE_HOLD_NS
    } else {
        hold_deadline(start_ns, chunks.drop_last())
    }
}

/// The chunks' times never run backwards and start no earlier than the
/// session, and a loud chunk's hold fits the clock.
pub open spec fn session_times_ok(start_ns: u64, chunks: Seq<(bool, bool, u64)>) -> bool {
    &&& forall|i: int| 0 <= i < chunks.len() ==> start_ns <= #[trigger] chunks[i].2
    &&& forall|i: int, j: int| 0 <= i <= j < chunks.len() ==> #[trigger] chunks[i].2 <= #[trigger] chunks[j].2
    &&& forall|i: int|
        0 <= i < chunks.len() && #[trigger] chunks[i].0 && chunks[i].1 ==> chunks[i].2 <= u64::MAX
            - GATE_HOLD_NS
}

proof fn lemma_times_ok_prefix(start_ns: u64, chunks: Seq<(bool, bool, u64)>, k: int)
    requires
        session_times_ok(start_ns, chunks),
        0 <= k <= chunks.len(),
    ensures
        session_times_ok(start_ns, chunks.take(k)),
{
    let p = chunks.take(k);
    assert forall|i: int, j: int| 0 <= i <= j < p.len() implies #[trigger] p[i].2 <= #[trigger] p[j].2 by {
        assert(p[i] == chunks[i] && p[j] == chunks[j]);
    }
    assert forall|i: int| 0 <= i < p.len() implies start_ns <= #[trigger] p[i].2 by {
        assert(p[i] == chunks[i]);
    }
    assert forall|i: int| 0 <= i < p.len() && #[trigger] p[i].0 && p[i].1 implies p[i].2
        <= u64::MAX - GATE_HOLD_NS by {
        assert(p[i] == chunks[i]);
    }
}

proof fn lemma_gate_invariant(start_ns: u64, chunks: Seq<(bool, bool, u64)>)
    requires
        session_times_ok(start_ns, chunks),
    ensures
        gate_after(start_ns, chunks).hold_until_ns == hold_deadline(start_ns, chunks),
        !gate_after(start_ns, chunks).open ==> chunks.len() > 0 && chunks.last().2
            >= gate_after(start_ns, chunks).hold_until_ns,
    decreases chunks.len(),
{
    if chunks.len() > 0 {
        let prev = chunks.drop_last();
        assert(prev =~= chunks.take(chunks.len() - 1));
        lemma_times_ok_prefix(start_ns, chunks, chunks.len() - 1);
        lemma_gate_invariant(start_ns, prev);
        let last = chunks.len() - 1;
        if prev.len() > 0 {
            assert(prev.last() == chunks[last - 1]);
            assert(chunks[last - 1].2 <= chunks[last].2);
        }
        assert(chunks[last] == chunks.last());
    }
}

/// Over a whole session (times never running backwards), a chunk is silenced
/// exactly when the noise gate is on, the chunk is quiet, and the hold after the
/// last loud chunk (or the session's start) has passed.
pub proof fn lemma_gate_over_session(start_ns: u64, chunks: Seq<(bool, bool, u64)>, k: int)
    requires
        session_times_ok(start_ns, chunks),
        0 <= k < chunks.len(),
    ensures
        gated_at(start_ns, chunks, k) == (chunks[k].0 && !chunks[k].1 && chunks[k].2
            >= hold_deadline(start_ns, chunks.take(k))),
{
    let p = chunks.take(k);
    lemma_times_ok_prefix(start_ns, chunks, k);
    lemma_gate_invariant(start_ns, p);
    if k > 0 {
        assert(p.last() == chunks[k - 1]);
        assert(chunks[k - 1].2 <= chunks[k].2);
    }
}

} // verus!
