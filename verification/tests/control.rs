use phonemike::connect::{
    button_request, forward_port, read_timeout_ms, Action, CommandKind, ConnectRetry, Pending, Phase, SessionEnd,
    Supervisor, DEFAULT_PORT,
};
use phonemike::state::{
    push_bounded, unseen_log_lines, ConnectionStatus, SharedState, MAX_LOG_LINES,
};
use phonemike::session::{LoopPhase, SessionAction, SessionEvent, SessionLoop};
use std::collections::VecDeque;

#[test]
fn active_states() {
    assert!(!ConnectionStatus::Disconnected.is_active());
    assert!(ConnectionStatus::Connecting.is_active());
    assert!(ConnectionStatus::Streaming { sample_rate: 48000, channels: 1 }.is_active());
    assert!(!ConnectionStatus::Error("x".to_string()).is_active());
}

#[test]
fn log_keeps_the_newest_lines() {
    let mut st: SharedState<u8> = SharedState::new(7);
    assert!(matches!(st.status, ConnectionStatus::Disconnected));
    assert!(st.log.is_empty());
    assert!(st.update_available.is_none());
    for i in 0..(MAX_LOG_LINES + 3) {
        st.push_log(format!("line {i}"));
    }
    assert_eq!(st.log.len(), MAX_LOG_LINES);
    assert_eq!(st.log.front().unwrap(), "line 3");
    assert_eq!(st.log.back().unwrap(), &format!("line {}", MAX_LOG_LINES + 2));
    assert_eq!(st.stats, 7);
}

#[test]
fn bounded_push_on_a_zero_bound_keeps_one() {
    let mut q: VecDeque<u8> = VecDeque::new();
    push_bounded(&mut q, 1, 0);
    push_bounded(&mut q, 2, 0);
    assert_eq!(q, VecDeque::from(vec![2]));
}

#[test]
fn unseen_lines() {
    let log: VecDeque<String> = ["a", "b", "c"].iter().map(|s| s.to_string()).collect();
    assert_eq!(unseen_log_lines(&log, 1), vec!["b".to_string(), "c".to_string()]);
    assert!(unseen_log_lines(&log, 3).is_empty());
    assert!(unseen_log_lines(&log, 9).is_empty());
    assert_eq!(unseen_log_lines(&log, 0).len(), 3);
}

#[test]
fn ports_and_timeouts() {
    assert_eq!(forward_port(0), DEFAULT_PORT);
    assert_eq!(forward_port(0), 18501);
    assert_eq!(forward_port(5555), 5555);
    assert_eq!(read_timeout_ms(0), 10);
    assert_eq!(read_timeout_ms(200), 200);
}

#[test]
fn retry_cadence() {
    let mut r = ConnectRetry::new();
    assert!(!r.should_reforward());
    assert!(r.record_not_ready());
    let mut logged = vec![];
    for _ in 1..25 {
        if r.should_reforward() {
            logged.push(("forward", r.attempt));
        }
        if r.record_not_ready() {
            logged.push(("wait", r.attempt));
        }
    }
    assert_eq!(logged, vec![("wait", 10), ("wait", 20), ("forward", 20)]);
    let mut e = ConnectRetry::new();
    assert!(!e.record_error());
    for _ in 0..8 {
        assert!(!e.record_error());
    }
    assert!(e.record_error());
    assert_eq!(e.attempt, 10);
}

#[test]
fn supervisor_reconnects_until_stopped() {
    let mut s = Supervisor::new();
    assert_eq!(s.on_command(CommandKind::Setting), Action::WaitForCommand);
    assert_eq!(s.on_command(CommandKind::Stop), Action::WaitForCommand);
    assert_eq!(s.on_command(CommandKind::Start), Action::RunSession);
    assert_eq!(s.on_session_end(SessionEnd::Dropped), Action::PollCommands);
    assert_eq!(s.on_poll(Pending::Empty), Action::PauseThenRunSession);
    assert_eq!(s.on_session_end(SessionEnd::Failed), Action::PollCommands);
    assert_eq!(s.on_poll(Pending::Command(CommandKind::Start)), Action::PauseThenRunSession);
    assert_eq!(s.on_session_end(SessionEnd::Dropped), Action::PollCommands);
    assert_eq!(s.on_poll(Pending::Command(CommandKind::Stop)), Action::MarkDisconnected);
    assert_eq!(s.phase, Phase::Idle);
    assert_eq!(s.on_command(CommandKind::Start), Action::RunSession);
    assert_eq!(s.on_session_end(SessionEnd::Stopped), Action::WaitForCommand);
    assert_eq!(s.on_channel_closed(), Action::Exit);
    assert_eq!(s.phase, Phase::Finished);
}

#[test]
fn supervisor_exits_when_the_channel_closes_between_sessions() {
    let mut s = Supervisor::new();
    s.on_command(CommandKind::Start);
    s.on_session_end(SessionEnd::Failed);
    assert_eq!(s.on_poll(Pending::Closed), Action::Exit);
}

#[test]
fn status_equality() {
    assert_eq!(ConnectionStatus::Disconnected, ConnectionStatus::Disconnected);
    assert_ne!(ConnectionStatus::Disconnected, ConnectionStatus::Connecting);
    assert_eq!(
        ConnectionStatus::Streaming { sample_rate: 48000, channels: 1 },
        ConnectionStatus::Streaming { sample_rate: 48000, channels: 1 }
    );
    assert_ne!(
        ConnectionStatus::Streaming { sample_rate: 48000, channels: 1 },
        ConnectionStatus::Streaming { sample_rate: 48000, channels: 2 }
    );
    assert_eq!(ConnectionStatus::Error("a".to_string()), ConnectionStatus::Error("a".to_string()));
    assert_ne!(ConnectionStatus::Error("a".to_string()), ConnectionStatus::Error("b".to_string()));
    assert_eq!(ConnectionStatus::Connecting.clone(), ConnectionStatus::Connecting);
}

#[test]
fn button_stops_an_active_session_and_starts_otherwise() {
    assert_eq!(button_request(true), CommandKind::Stop);
    assert_eq!(button_request(false), CommandKind::Start);
}

fn draining() -> SessionLoop {
    SessionLoop::new()
}

#[test]
fn stop_ends_the_session_as_a_user_stop() {
    let mut s = draining();
    assert_eq!(s.step(SessionEvent::Command(CommandKind::Stop), false), SessionAction::End);
    assert_eq!(s.phase, LoopPhase::Ended);
    assert!(s.marks_disconnected());
}

#[test]
fn commands_while_draining() {
    let mut s = draining();
    assert_eq!(s.step(SessionEvent::Command(CommandKind::Setting), false), SessionAction::ApplySetting);
    assert_eq!(s.step(SessionEvent::Command(CommandKind::StartWav), false), SessionAction::OpenWav);
    assert_eq!(s.step(SessionEvent::Command(CommandKind::StartWav), true), SessionAction::NextCommand);
    assert_eq!(s.step(SessionEvent::Command(CommandKind::StopWav), true), SessionAction::CloseWav);
    assert_eq!(s.step(SessionEvent::Command(CommandKind::StopWav), false), SessionAction::NextCommand);
    assert_eq!(s.step(SessionEvent::Command(CommandKind::Start), false), SessionAction::NextCommand);
    assert_eq!(s.phase, LoopPhase::Draining);
    assert!(!s.user_stopped);
}

#[test]
fn reads_follow_the_commands() {
    let mut s = draining();
    assert_eq!(s.step(SessionEvent::NoCommand, false), SessionAction::ReadChunk);
    assert_eq!(s.phase, LoopPhase::Reading);
    assert_eq!(s.step(SessionEvent::ChunkRead, false), SessionAction::ProcessChunk);
    assert_eq!(s.phase, LoopPhase::Draining);
    assert_eq!(s.step(SessionEvent::NoCommand, false), SessionAction::ReadChunk);
    assert_eq!(s.step(SessionEvent::NothingRead, false), SessionAction::NextCommand);
    assert_eq!(s.phase, LoopPhase::Draining);
}

#[test]
fn stream_end_and_failure_close_without_a_user_stop() {
    let mut s = draining();
    s.step(SessionEvent::NoCommand, false);
    assert_eq!(s.step(SessionEvent::StreamEnded, false), SessionAction::End);
    assert_eq!(s.phase, LoopPhase::Ended);
    assert!(!s.marks_disconnected());

    let mut f = draining();
    f.step(SessionEvent::NoCommand, true);
    assert_eq!(f.step(SessionEvent::ReadFailed, true), SessionAction::Fail);
    assert_eq!(f.phase, LoopPhase::Ended);
    assert!(!f.marks_disconnected());

    let mut c = draining();
    assert_eq!(c.step(SessionEvent::ChannelClosed, false), SessionAction::End);
    assert_eq!(c.phase, LoopPhase::Ended);
    assert!(!c.marks_disconnected());
}
