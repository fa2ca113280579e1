//! The read loop of one streaming session: it drains the pending commands,
//! reads a chunk, processes it, and starts over, until a Stop, a closed
//! channel or a broken stream ends it.

use crate::connect::CommandKind;
use vstd::prelude::*;

verus! {

/// Where the read loop is.
#[derive(Clone, Copy, Debug, PartialEq, Eq, Structural)]
pub enum LoopPhase {
    /// Taking the pending commands one by one.
    Draining,
    /// Reading the next chunk of audio.
    Reading,
    /// The session is over.
    Ended,
}

/// What happened in the read loop.
#[derive(Clone, Copy, Debug, PartialEq, Eq, Structural)]
pub enum SessionEvent {
    /// A command was waiting on the channel.
    Command(CommandKind),
    /// No command is waiting.
    NoCommand,
    /// Every sender of commands is gone.
    ChannelClosed,
    /// A chunk of audio arrived.
    ChunkRead,
    /// The read timed out without data.
    NothingRead,
    /// The stream ended or carried a malformed frame; the session logs it and
    /// closes normally.
    StreamEnded,
    /// Reading or decoding failed with an error, which the session returns.
    ReadFailed,
}

/// What the read loop does next.
#[derive(Clone, Copy, Debug, PartialEq, Eq, Structural)]
pub enum SessionAction {
    /// Apply the new gain, gate threshold or cutoff, then take the next command.
    ApplySetting,
    /// Open the recording file, then take the next command.
    OpenWav,
    /// Finalize and close the recording, then take the next command.
    CloseWav,
    /// Take the next command.
    NextCommand,
    /// Read the next chunk.
    ReadChunk,
    /// Process and play the chunk, then take the pending commands again.
    ProcessChunk,
    /// Close the session: finalize the recording, update the status, log.
    End,
    /// Return the error at once.
    Fail,
}

/// The read loop's decisions.
#[derive(Clone, Copy, Debug, PartialEq, Eq, Structural)]
pub struct SessionLoop {
    pub phase: LoopPhase,
    /// Whether the user stopped the session (rather than the stream ending).
    pub user_stopped: bool,
}

/// Whether an event can happen in a phase: commands while draining, read
/// results while reading.
pub open spec fn event_fits(phase: LoopPhase, ev: SessionEvent) -> bool {
    match phase {
        LoopPhase::Draining => ev is Command || ev is NoCommand || ev is ChannelClosed,
        LoopPhase::Reading => ev is ChunkRead || ev is NothingRead || ev is StreamEnded
            || ev is ReadFailed,
        LoopPhase::Ended => false,
    }
}

/// The next state and action of the read loop, given whether a recording is
/// open: Stop ends the session as a user stop; a setting is applied; a
/// recording starts only when none is open and stops only when one is; a
/// Start is ignored; with no command left a chunk is read; a closed channel
/// ends the session; a chunk is processed and the commands taken again; an
/// empty read goes back to the commands; a broken stream ends the session and
/// a failed read returns its error.
pub open spec fn session_step(s: SessionLoop, ev: SessionEvent, wav_open: bool) -> (SessionLoop, SessionAction) {
    match ev {
        SessionEvent::Command(CommandKind::Stop) => (
            SessionLoop { phase: LoopPhase::Ended, user_stopped: true },
            SessionAction::End,
        ),
        SessionEvent::Command(CommandKind::Setting) => (s, SessionAction::ApplySetting),
        SessionEvent::Command(CommandKind::StartWav) => (
            s,
            if wav_open {
                SessionAction::NextCommand
            } else {
                SessionAction::OpenWav
            },
        ),
        SessionEvent::Command(CommandKind::StopWav) => (
            s,
            if wav_open {
                SessionAction::CloseWav
            } else {
                SessionAction::NextCommand
            },
        ),
        SessionEvent::Command(CommandKind::Start) => (s, SessionAction::NextCommand),
        SessionEvent::NoCommand => (
            SessionLoop { phase: LoopPhase::Reading, ..s },
            SessionAction::ReadChunk,
        ),
        SessionEvent::ChannelClosed => (
            SessionLoop { phase: LoopPhase::Ended, ..s },
            SessionAction::End,
        ),
        SessionEvent::ChunkRead => (
            SessionLoop { phase: LoopPhase::Draining, ..s },
            SessionAction::ProcessChunk,
        ),
        SessionEvent::NothingRead => (
            SessionLoop { phase: LoopPhase::Draining, ..s },
            SessionAction::NextCommand,
        ),
        SessionEvent::StreamEnded => (
            SessionLoop { phase: LoopPhase::Ended, ..s },
            SessionAction::End,
        ),
        SessionEvent::ReadFailed => (
            SessionLoop { phase: LoopPhase::Ended, ..s },
            SessionAction::Fail,
        ),
    }
}

impl SessionLoop {
    /// A session about to take its first commands.
    pub fn new() -> (s: SessionLoop)
        ensures
            s == (SessionLoop { phase: LoopPhase::Draining, user_stopped: false }),
    {
        SessionLoop { phase: LoopPhase::Draining, user_stopped: false }
    }

    /// Takes one event and says what to do.
    pub fn step(&mut self, ev: SessionEvent, wav_open: bool) -> (a: SessionAction)
        requires
            event_fits(old(self).phase, ev),
        ensures
            (*final(self), a) == session_step(*old(self), ev, wav_open),
    {
        match ev {
            SessionEvent::Command(CommandKind::Stop) => {
                self.phase = LoopPhase::Ended;
                self.user_stopped = true;
                SessionAction::End
            },
            SessionEvent::Command(CommandKind::Setting) => SessionAction::ApplySetting,
            SessionEvent::Command(CommandKind::StartWav) => {
                if wav_open {
                    SessionAction::NextCommand
                } else {
                    SessionAction::OpenWav
                }
            },
            SessionEvent::Command(CommandKind::StopWav) => {
                if wav_open {
                    SessionAction::CloseWav
                } else {
                    SessionAction::NextCommand
                }
            },
            SessionEvent::Command(CommandKind::Start) => SessionAction::NextCommand,
            SessionEvent::NoCommand => {
                self.phase = LoopPhase::Reading;
                SessionAction::ReadChunk
            },
            SessionEvent::ChannelClosed => {
                self.phase = LoopPhase::Ended;
                SessionAction::End
            },
            SessionEvent::ChunkRead => {
                self.phase = LoopPhase::Draining;
                SessionAction::ProcessChunk
            },
            SessionEvent::NothingRead => {
                self.phase = LoopPhase::Draining;
                SessionAction::NextCommand
            },
            SessionEvent::StreamEnded => {
                self.phase = LoopPhase::Ended;
                SessionAction::End
            },
            SessionEvent::ReadFailed => {
                self.phase = LoopPhase::Ended;
                SessionAction::Fail
            },
        }
    }

    /// Whether the connection is marked Disconnected when the session closes:
    /// only after a user stop (a dropped stream is reconnected).
    pub fn marks_disconnected(&self) -> (b: bool)
        ensures
            b == self.user_stopped,
    {
        self.user_stopped
    }
}

/// A Stop always ends the session as a user stop, whatever came before and
/// whether or not a recording is open: the read loop is left at once.
pub proof fn lemma_stop_ends_session(s: SessionLoop, wav_open: bool)
    ensures
        session_step(s, SessionEvent::Command(CommandKind::Stop), wav_open) == (
            SessionLoop { phase: LoopPhase::Ended, user_stopped: true },
            SessionAction::End,
        ),
{
}

/// Only a Stop makes a session a user stop; every other event keeps the flag.
pub proof fn lemma_only_stop_is_user_stop(s: SessionLoop, ev: SessionEvent, wav_open: bool)
    requires
        ev != SessionEvent::Command(CommandKind::Stop),
    ensures
        session_step(s, ev, wav_open).0.user_stopped == s.user_stopped,
{
}

/// Every chunk read is processed (gain, lowpass, noise gate, playback and
/// recording), in every state and whether or not a recording is open; then
/// the pending commands are taken again.
pub proof fn lemma_every_chunk_is_processed(s: SessionLoop, wav_open: bool)
    ensures
        session_step(s, SessionEvent::ChunkRead, wav_open).1 == SessionAction::ProcessChunk,
        session_step(s, SessionEvent::ChunkRead, wav_open).0.phase == LoopPhase::Draining,
        session_step(s, SessionEvent::ChunkRead, wav_open).0.user_stopped == s.user_stopped,
{
}

/// A change of gain, noise-gate threshold or cutoff is always applied, in
/// every state and whether or not a recording is open, and changes nothing
/// else about the loop.
pub proof fn lemma_settings_always_apply(s: SessionLoop, wav_open: bool)
    ensures
        session_step(s, SessionEvent::Command(CommandKind::Setting), wav_open) == (
            s,
            SessionAction::ApplySetting,
        ),
{
}

/// Whether a recording is open matters only to the commands that start and
/// stop a recording: every other event leads to the same state and action
/// either way.
pub proof fn lemma_recording_only_affects_wav_commands(s: SessionLoop, ev: SessionEvent)
    requires
        ev != SessionEvent::Command(CommandKind::StartWav),
        ev != SessionEvent::Command(CommandKind::StopWav),
    ensures
        session_step(s, ev, true) == session_step(s, ev, false),
{
}

/// A recording is opened only on a StartWav while none is open, and closed
/// only on a StopWav while one is; neither ends or changes the loop.
pub proof fn lemma_recording_commands(s: SessionLoop, ev: SessionEvent, wav_open: bool)
    ensures
        (session_step(s, ev, wav_open).1 == SessionAction::OpenWav) == (ev == SessionEvent::Command(
            CommandKind::StartWav,
        ) && !wav_open),
        (session_step(s, ev, wav_open).1 == SessionAction::CloseWav) == (ev
            == SessionEvent::Command(CommandKind::StopWav) && wav_open),
        ev == SessionEvent::Command(CommandKind::StartWav) || ev == SessionEvent::Command(
            CommandKind::StopWav,
        ) ==> session_step(s, ev, wav_open).0 == s,
{
}

/// The loop ends exactly when the action leaves it: from a running loop, a
/// step moves to the Ended phase if and only if it answers End or Fail, and Fail comes from a failed
/// read alone.
pub proof fn lemma_ending_steps_leave_the_loop(s: SessionLoop, ev: SessionEvent, wav_open: bool)
    requires
        s.phase != LoopPhase::Ended,
    ensures
        (session_step(s, ev, wav_open).0.phase == LoopPhase::Ended) == (session_step(
            s,
            ev,
            wav_open,
        ).1 == SessionAction::End || session_step(s, ev, wav_open).1 == SessionAction::Fail),
        (session_step(s, ev, wav_open).1 == SessionAction::Fail) == (ev == SessionEvent::ReadFailed),
{
}

/// A chunk is read exactly when no command is left, and while commands are
/// taken the loop moves to reading exactly on such a step; after any read that brings data
/// or none, the pending commands are taken again.
pub proof fn lemma_reads_follow_drained_commands(s: SessionLoop, ev: SessionEvent, wav_open: bool)
    requires
        s.phase != LoopPhase::Ended,
    ensures
        (session_step(s, ev, wav_open).1 == SessionAction::ReadChunk) == (ev
            == SessionEvent::NoCommand),
        s.phase == LoopPhase::Draining ==> ((session_step(s, ev, wav_open).0.phase
            == LoopPhase::Reading) == (ev == SessionEvent::NoCommand)),
        ev == SessionEvent::NothingRead ==> session_step(s, ev, wav_open) == (
            SessionLoop { phase: LoopPhase::Draining, ..s },
            SessionAction::NextCommand,
        ),
{
}

/// A running session ends only on a Stop, a closed command channel, or a read that
/// ended or failed; commands other than Stop, and read results with data or
/// none, keep it going.
pub proof fn lemma_what_ends_a_session(s: SessionLoop, ev: SessionEvent, wav_open: bool)
    requires
        s.phase != LoopPhase::Ended,
    ensures
        (session_step(s, ev, wav_open).0.phase == LoopPhase::Ended) == (ev == SessionEvent::Command(
            CommandKind::Stop,
        ) || ev == SessionEvent::ChannelClosed || ev == SessionEvent::StreamEnded || ev
            == SessionEvent::ReadFailed),
{
}

} // verus!
