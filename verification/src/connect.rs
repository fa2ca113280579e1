//! Connection policy: the forwarded port, the retry cadence while the phone
//! app is not yet listening, and when the audio thread starts, restarts or
//! stops a streaming session.

use vstd::prelude::*;

verus! {

/// The TCP port that the phone app listens on and ADB forwards.
pub const DEFAULT_PORT: u16 = 18501;

/// The port to forward: the default when none (0) is given.
pub fn forward_port(port: u16) -> (p: u16)
    ensures
        p == if port == 0 {
            DEFAULT_PORT
        } else {
            port
        },
{
    if port == 0 {
        DEFAULT_PORT
    } else {
        port
    }
}

/// The socket read timeout for a requested one: at least 10 ms.
pub fn read_timeout_ms(requested_ms: u64) -> (t: u64)
    ensures
        t == if requested_ms < 10 {
            10
        } else {
            requested_ms
        },
{
    if requested_ms < 10 {
        10
    } else {
        requested_ms
    }
}

/// Counts the connection attempts of one session.
#[derive(Clone, Copy, Debug, PartialEq, Eq, Structural)]
pub struct ConnectRetry {
    pub attempt: u32,
}

impl ConnectRetry {
    /// No attempt yet.
    pub fn new() -> (r: ConnectRetry)
        ensures
            r.attempt == 0,
    {
        ConnectRetry { attempt: 0 }
    }

    /// Whether to set up the ADB port forwarding again before this attempt:
    /// after every 20 failed attempts.
    pub fn should_reforward(&self) -> (b: bool)
        ensures
            b <==> (self.attempt > 0 && self.attempt % 20 == 0),
    {
        self.attempt > 0 && self.attempt % 20 == 0
    }

    /// Records an attempt that found nobody listening; returns whether to log
    /// that we are waiting (on the first attempt and every tenth).
    pub fn record_not_ready(&mut self) -> (log: bool)
        requires
            old(self).attempt < u32::MAX,
        ensures
            final(self).attempt == old(self).attempt + 1,
            log <==> (final(self).attempt == 1 || final(self).attempt % 10 == 0),
    {
        self.attempt = self.attempt + 1;
        self.attempt == 1 || self.attempt % 10 == 0
    }

    /// Records an attempt that failed with an error; returns whether to log
    /// the error (every tenth attempt).
    pub fn record_error(&mut self) -> (log: bool)
        requires
            old(self).attempt < u32::MAX,
        ensures
            final(self).attempt == old(self).attempt + 1,
            log <==> final(self).attempt % 10 == 0,
    {
        self.attempt = self.attempt + 1;
        self.attempt % 10 == 0
    }
}

/// A command, as far as the supervisor tells them apart.
#[derive(Clone, Copy, Debug, PartialEq, Eq, Structural)]
pub enum CommandKind {
    Start,
    Stop,
    /// A change of gain, noise-gate threshold or lowpass cutoff.
    Setting,
    /// Start recording to a WAV file.
    StartWav,
    /// Stop recording.
    StopWav,
}

/// What the Start/Stop button asks for: Stop while a session is under way,
/// Start (with the default settings) otherwise.
pub fn button_request(is_active: bool) -> (cmd: CommandKind)
    ensures
        cmd == if is_active {
            CommandKind::Stop
        } else {
            CommandKind::Start
        },
{
    if is_active {
        CommandKind::Stop
    } else {
        CommandKind::Start
    }
}

/// What a non-blocking look at the command channel found.
#[derive(Clone, Copy, Debug, PartialEq, Eq, Structural)]
pub enum Pending {
    Command(CommandKind),
    Empty,
    /// Every sender is gone.
    Closed,
}

/// How a streaming session ended.
#[derive(Clone, Copy, Debug, PartialEq, Eq, Structural)]
pub enum SessionEnd {
    /// The user stopped it (or the channel closed while connecting).
    Stopped,
    /// The stream ended or broke; reconnect.
    Dropped,
    /// The session failed with an error; reconnect.
    Failed,
}

/// Where the audio thread is.
#[derive(Clone, Copy, Debug, PartialEq, Eq, Structural)]
pub enum Phase {
    /// Waiting for a Start command.
    Idle,
    /// A session is running.
    Streaming,
    /// A session ended on its own; about to look for a Stop before reconnecting.
    Backoff,
    /// The command channel closed; the thread ends.
    Finished,
}

/// What the audio thread does next.
#[derive(Clone, Copy, Debug, PartialEq, Eq, Structural)]
pub enum Action {
    /// Block until the next command arrives.
    WaitForCommand,
    /// Run a session with the settings of the last Start.
    RunSession,
    /// Look at the channel without blocking.
    PollCommands,
    /// Mark the connection Disconnected and wait for the next command.
    MarkDisconnected,
    /// Pause briefly (500 ms), then run the session again.
    PauseThenRunSession,
    /// End the thread.
    Exit,
}

/// The audio thread's decisions, from its phase and what just happened.
#[derive(Clone, Copy, Debug, PartialEq, Eq, Structural)]
pub struct Supervisor {
    pub phase: Phase,
}

impl Supervisor {
    /// Idle, waiting for the first command.
    pub fn new() -> (s: Supervisor)
        ensures
            s.phase == Phase::Idle,
    {
        Supervisor { phase: Phase::Idle }
    }

    /// A command arrived while idle: Start runs a session, anything else is
    /// ignored.
    pub fn on_command(&mut self, cmd: CommandKind) -> (a: Action)
        requires
            old(self).phase == Phase::Idle,
        ensures
            cmd == CommandKind::Start ==> final(self).phase == Phase::Streaming && a == Action::RunSession,
            cmd != CommandKind::Start ==> final(self).phase == Phase::Idle && a == Action::WaitForCommand,
    {
        match cmd {
            CommandKind::Start => {
                self.phase = Phase::Streaming;
                Action::RunSession
            },
            _ => Action::WaitForCommand,
        }
    }

    /// The channel closed while idle: the thread ends.
    pub fn on_channel_closed(&mut self) -> (a: Action)
        requires
            old(self).phase == Phase::Idle,
        ensures
            final(self).phase == Phase::Finished,
            a == Action::Exit,
    {
        self.phase = Phase::Finished;
        Action::Exit
    }

    /// The session ended: after a user stop, back to idle; otherwise look for
    /// a pending Stop before reconnecting.
    pub fn on_session_end(&mut self, end: SessionEnd) -> (a: Action)
        requires
            old(self).phase == Phase::Streaming,
        ensures
            end == SessionEnd::Stopped ==> final(self).phase == Phase::Idle && a == Action::WaitForCommand,
            end != SessionEnd::Stopped ==> final(self).phase == Phase::Backoff && a == Action::PollCommands,
    {
        match end {
            SessionEnd::Stopped => {
                self.phase = Phase::Idle;
                Action::WaitForCommand
            },
            _ => {
                self.phase = Phase::Backoff;
                Action::PollCommands
            },
        }
    }

    /// What the look at the channel found between sessions: a Stop ends the
    /// reconnecting, a closed channel ends the thread, and anything else
    /// (which is consumed) leads to a reconnect after a pause.
    pub fn on_poll(&mut self, found: Pending) -> (a: Action)
        requires
            old(self).phase == Phase::Backoff,
        ensures
            found == Pending::Command(CommandKind::Stop) ==> final(self).phase == Phase::Idle && a
                == Action::MarkDisconnected,
            found == Pending::Closed ==> final(self).phase == Phase::Finished && a == Action::Exit,
            found != Pending::Command(CommandKind::Stop) && found != Pending::Closed
                ==> final(self).phase == Phase::Streaming && a == Action::PauseThenRunSession,
    {
        match found {
            Pending::Command(CommandKind::Stop) => {
                self.phase = Phase::Idle;
                Action::MarkDisconnected
            },
            Pending::Closed => {
                self.phase = Phase::Finished;
                Action::Exit
            },
            _ => {
                self.phase = Phase::Streaming;
                Action::PauseThenRunSession
            },
        }
    }
}

} // verus!
