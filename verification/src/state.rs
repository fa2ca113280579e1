//! State shared between the audio thread and the user interface: connection
//! status, statistics, the bounded log and the update notice.

use std::collections::VecDeque;
use vstd::prelude::*;

verus! {

/// Most log lines kept; older ones are dropped.
pub const MAX_LOG_LINES: usize = 500;

/// Most level readings kept for the history graph.
pub const GRAPH_HISTORY: usize = 200;

/// Where the connection to the phone stands.
#[derive(Debug, Clone)]
pub enum ConnectionStatus {
    Disconnected,
    Connecting,
    Streaming { sample_rate: u32, channels: u16 },
    Error(String),
}

/// Two statuses are equal when they are the same variant with equal fields;
/// error texts compare by their characters.
pub open spec fn status_eq(a: &ConnectionStatus, b: &ConnectionStatus) -> bool {
    match (a, b) {
        (ConnectionStatus::Disconnected, ConnectionStatus::Disconnected) => true,
        (ConnectionStatus::Connecting, ConnectionStatus::Connecting) => true,
        (
            ConnectionStatus::Streaming { sample_rate: r1, channels: c1 },
            ConnectionStatus::Streaming { sample_rate: r2, channels: c2 },
        ) => r1 == r2 && c1 == c2,
        (ConnectionStatus::Error(e1), ConnectionStatus::Error(e2)) => e1@ == e2@,
        _ => false,
    }
}

impl PartialEq for ConnectionStatus {
    fn eq(&self, other: &Self) -> (r: bool) {
        match self {
            ConnectionStatus::Disconnected => match other {
                ConnectionStatus::Disconnected => true,
                _ => false,
            },
            ConnectionStatus::Connecting => match other {
                ConnectionStatus::Connecting => true,
                _ => false,
            },
            ConnectionStatus::Streaming { sample_rate: r1, channels: c1 } => match other {
                ConnectionStatus::Streaming { sample_rate: r2, channels: c2 } => *r1 == *r2 && *c1
                    == *c2,
                _ => false,
            },
            ConnectionStatus::Error(e1) => match other {
                ConnectionStatus::Error(e2) => e1.eq(e2),
                _ => false,
            },
        }
    }
}

impl vstd::std_specs::cmp::PartialEqSpecImpl for ConnectionStatus {
    open spec fn obeys_eq_spec() -> bool {
        true
    }

    open spec fn eq_spec(&self, other: &Self) -> bool {
        status_eq(self, other)
    }
}

impl ConnectionStatus {
    /// Whether a session is under way: connecting or streaming.
    pub fn is_active(&self) -> (b: bool)
        ensures
            b <==> (self is Connecting || self is Streaming),
    {
        match self {
            ConnectionStatus::Connecting => true,
            ConnectionStatus::Streaming { .. } => true,
            _ => false,
        }
    }
}

/// The queue after pushing `item` into one bounded by `cap`: when it is
/// already full (and not empty), the oldest entry leaves first.
pub open spec fn bounded_push<T>(queue: Seq<T>, item: T, cap: int) -> Seq<T> {
    if queue.len() >= cap && queue.len() > 0 {
        queue.drop_first().push(item)
    } else {
        queue.push(item)
    }
}

/// Pushes `item` at the back, dropping the oldest entry first when the queue
/// already holds `cap` or more.
pub fn push_bounded<T>(queue: &mut VecDeque<T>, item: T, cap: usize)
    ensures
        final(queue)@ == bounded_push(old(queue)@, item, cap as int),
{
    if queue.len() >= cap {
        let _ = queue.pop_front();
    }
    queue.push_back(item);
    assert(final(queue)@ =~= bounded_push(old(queue)@, item, cap as int)) by {
        if old(queue)@.len() >= cap && old(queue)@.len() > 0 {
            assert(old(queue)@.subrange(1, old(queue)@.len() as int) =~= old(queue)@.drop_first());
        }
    }
}

/// A bounded queue never grows past its bound, and the newest entry is last.
pub proof fn lemma_bounded_push_keeps_bound<T>(queue: Seq<T>, item: T, cap: int)
    requires
        queue.len() <= cap,
        cap > 0,
    ensures
        bounded_push(queue, item, cap).len() <= cap,
        bounded_push(queue, item, cap).last() == item,
        bounded_push(queue, item, cap).len() > 0,
{
}

/// Everything that the audio thread reports to the interface. `S` holds the
/// streaming statistics.
pub struct SharedState<S> {
    pub status: ConnectionStatus,
    pub stats: S,
    pub log: VecDeque<String>,
    /// Set by the background update check when a newer release is found.
    pub update_available: Option<String>,
}

impl<S> SharedState<S> {
    /// Disconnected, with the given statistics, an empty log and no update.
    pub fn new(stats: S) -> (st: SharedState<S>)
        ensures
            st.status is Disconnected,
            st.stats == stats,
            st.log@.len() == 0,
            st.update_available is None,
    {
        SharedState {
            status: ConnectionStatus::Disconnected,
            stats,
            log: VecDeque::new(),
            update_available: None,
        }
    }

    /// Appends a line to the log, dropping the oldest once `MAX_LOG_LINES`
    /// are kept.
    pub fn push_log(&mut self, msg: String)
        ensures
            final(self).log@ == bounded_push(old(self).log@, msg, MAX_LOG_LINES as int),
            final(self).status == old(self).status,
            final(self).stats == old(self).stats,
            final(self).update_available == old(self).update_available,
    {
        push_bounded(&mut self.log, msg, MAX_LOG_LINES);
    }
}

/// The log lines a view that has shown `shown` of them has not shown yet: all
/// lines after the first `shown` while the log is longer, none otherwise.
pub fn unseen_log_lines(log: &VecDeque<String>, shown: usize) -> (lines: Vec<String>)
    ensures
        log@.len() > shown ==> lines@ == log@.subrange(shown as int, log@.len() as int),
        log@.len() <= shown ==> lines@.len() == 0,
{
    let mut lines: Vec<String> = Vec::new();
    let n = log.len();
    if n > shown {
        let mut i: usize = shown;
        while i < n
            invariant
                shown <= i <= n == log@.len(),
                lines@ == log@.subrange(shown as int, i as int),
            decreases n - i,
        {
            lines.push(log[i].clone());
            i = i + 1;
            assert(lines@ =~= log@.subrange(shown as int, i as int));
        }
    }
    lines
}

} // verus!
