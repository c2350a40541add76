//! The log watcher of one service, as a state machine.
//!
//! Until the service has a container it reports that on each attempt and
//! pauses; then it follows the container's log stream, one event per line.
//! A broken stream is reported once and ends the watcher; so does
//! cancellation, from any phase, with no further event.
use vstd::prelude::*;

use crate::containers::{container_name_for_service, container_name_in, ComposeContainer};
use crate::log_line::{line_text, line_timestamp_is, parse_log_line};
use crate::registry::ServiceKey;
use crate::status_watch::{channel_name, event_channel_name};
use crate::timestamp::{display_text, get_formatted_date, Timestamp};

verus! {

/// Pause between two attempts to find the service's container, in milliseconds.
pub const LOG_RESOLVE_INTERVAL_MS: u64 = 1000;

/// Which output stream of the container a line came from.
#[derive(Clone, Copy, Debug, PartialEq, Eq, Structural)]
pub enum LogType {
    StdErr,
    StdOut,
}

/// One log event sent to the user interface. `clear` asks it to drop the
/// lines shown so far: the event reports a condition, not log content.
#[derive(Clone, Debug)]
pub struct ServiceLogEventPayload {
    pub text: String,
    pub timestamp: String,
    pub kind: LogType,
    pub clear: bool,
}

/// One line read from the log stream. `stream` is `None` for a stream other
/// than standard output and error, whose lines are not shown.
pub struct RawLogLine {
    pub stream: Option<LogType>,
    pub line: String,
}

/// Where a log watcher stands.
pub enum LogPhase {
    Resolving,
    Sleeping,
    /// Following the log stream of the container of that name.
    Streaming(String),
    Ended,
}

pub enum LogPhaseView {
    Resolving,
    Sleeping,
    Streaming(Seq<char>),
    Ended,
}

impl View for LogPhase {
    type V = LogPhaseView;

    open spec fn view(&self) -> LogPhaseView {
        match self {
            LogPhase::Resolving => LogPhaseView::Resolving,
            LogPhase::Sleeping => LogPhaseView::Sleeping,
            LogPhase::Streaming(n) => LogPhaseView::Streaming(n@),
            LogPhase::Ended => LogPhaseView::Ended,
        }
    }
}

/// What happened since the last step.
pub enum LogInput {
    Listing(Result<Vec<ComposeContainer>, String>),
    Woke,
    /// A line arrived, or reading the stream failed.
    Line(Result<RawLogLine, String>),
    /// The stream closed.
    StreamEnded,
    Cancelled,
}

/// What the watcher asks its runner to do next.
pub enum LogAction {
    ListContainers,
    Sleep(u64),
    /// Read the next line of the container's log stream, opening it (full
    /// backlog, following) on first use.
    ReadLine(String),
    Halt,
}

/// An event that reports a condition: standard error, `clear` set, stamped
/// with the current time.
pub open spec fn is_notice(e: ServiceLogEventPayload, text: Seq<char>, now: Timestamp) -> bool {
    &&& e.text@ == text
    &&& e.timestamp@ == display_text(now)
    &&& e.kind == LogType::StdErr
    &&& e.clear
}

/// The event for a line of the stream.
pub open spec fn is_line_event(e: ServiceLogEventPayload, raw: RawLogLine, now: Timestamp) -> bool {
    &&& raw.stream == Some(e.kind)
    &&& e.text@ == line_text(raw.line@)
    &&& line_timestamp_is(raw.line@, now, e.timestamp@)
    &&& !e.clear
}

pub open spec fn emits_notice(event: Option<ServiceLogEventPayload>, text: Seq<char>, now: Timestamp) -> bool {
    match event {
        Some(ev) => is_notice(ev, text, now),
        None => false,
    }
}

pub open spec fn emits_line(event: Option<ServiceLogEventPayload>, raw: RawLogLine, now: Timestamp) -> bool {
    match event {
        Some(ev) => is_line_event(ev, raw, now),
        None => false,
    }
}

/// The next phase, and whether and which event is emitted, for a watcher of
/// service `id` at time `now`.
pub open spec fn log_transition(
    phase: LogPhaseView,
    id: Seq<char>,
    input: LogInput,
    now: Timestamp,
    next: LogPhaseView,
    event: Option<ServiceLogEventPayload>,
) -> bool {
    match (phase, input) {
        (LogPhaseView::Ended, _) => next == LogPhaseView::Ended && event is None,
        (_, LogInput::Cancelled) => next == LogPhaseView::Ended && event is None,
        (LogPhaseView::Resolving, LogInput::Listing(Err(e))) => next == LogPhaseView::Sleeping
            && emits_notice(event, "Error getting containers: "@ + e@, now),
        (LogPhaseView::Resolving, LogInput::Listing(Ok(l))) => match container_name_in(l@, id) {
            Some(n) => next == LogPhaseView::Streaming(n) && event is None,
            None => next == LogPhaseView::Sleeping && emits_notice(
                event,
                "Container does not exist for this service..."@,
                now,
            ),
        },
        (LogPhaseView::Sleeping, LogInput::Woke) => next == LogPhaseView::Resolving && event is None,
        (LogPhaseView::Streaming(n), LogInput::Line(Ok(raw))) => next == LogPhaseView::Streaming(n)
            && match raw.stream {
            Some(_) => emits_line(event, raw, now),
            None => event is None,
        },
        (LogPhaseView::Streaming(_), LogInput::Line(Err(e))) => next == LogPhaseView::Ended
            && emits_notice(event, "Logs stream interrupted: "@ + e@, now),
        (LogPhaseView::Streaming(_), LogInput::StreamEnded) => next == LogPhaseView::Ended
            && event is None,
        (p, _) => next == p && event is None,
    }
}

fn notice(text: String, now: &Timestamp) -> (r: ServiceLogEventPayload)
    ensures
        is_notice(r, text@, *now),
{
    ServiceLogEventPayload {
        text,
        timestamp: get_formatted_date(now),
        kind: LogType::StdErr,
        clear: true,
    }
}

/// The log watcher of one service.
pub struct LogWatcher {
    pub key: ServiceKey,
    pub phase: LogPhase,
}

impl LogWatcher {
    pub open spec fn phase(&self) -> LogPhaseView {
        self.phase@
    }

    /// A watcher of `key`; it starts by looking for the container.
    pub fn new(key: ServiceKey) -> (r: LogWatcher)
        ensures
            r.key == key,
            r.phase() == LogPhaseView::Resolving,
    {
        LogWatcher { key, phase: LogPhase::Resolving }
    }

    /// The channel this watcher's events go to: `"{scene}-{service}-log-event"`.
    pub fn event_name(&self) -> (r: String)
        ensures
            r@ == channel_name(self.key@, "log-event"@),
    {
        event_channel_name(&self.key, "log-event")
    }

    pub fn is_ended(&self) -> (r: bool)
        ensures
            r == (self.phase() == LogPhaseView::Ended),
    {
        match self.phase {
            LogPhase::Ended => true,
            _ => false,
        }
    }

    /// What the runner should do next.
    pub fn next_action(&self) -> (r: LogAction)
        ensures
            match (self.phase(), r) {
                (LogPhaseView::Resolving, LogAction::ListContainers) => true,
                (LogPhaseView::Sleeping, LogAction::Sleep(ms)) => ms == LOG_RESOLVE_INTERVAL_MS,
                (LogPhaseView::Streaming(n), LogAction::ReadLine(m)) => m@ == n,
                (LogPhaseView::Ended, LogAction::Halt) => true,
                _ => false,
            },
    {
        match &self.phase {
            LogPhase::Resolving => LogAction::ListContainers,
            LogPhase::Sleeping => LogAction::Sleep(LOG_RESOLVE_INTERVAL_MS),
            LogPhase::Streaming(n) => LogAction::ReadLine(n.clone()),
            LogPhase::Ended => LogAction::Halt,
        }
    }

    /// Takes in what happened at time `now` and returns the event to emit,
    /// if any.
    pub fn step(&mut self, input: LogInput, now: &Timestamp) -> (r: Option<ServiceLogEventPayload>)
        ensures
            final(self).key == old(self).key,
            log_transition(old(self).phase(), old(self).key@.1, input, *now, final(self).phase(), r),
    {
        match (&self.phase, input) {
            (LogPhase::Ended, _) => None,
            (_, LogInput::Cancelled) => {
                self.phase = LogPhase::Ended;
                None
            },
            (LogPhase::Resolving, LogInput::Listing(Err(e))) => {
                self.phase = LogPhase::Sleeping;
                let mut m = String::from_str("Error getting containers: ");
                m.append(e.as_str());
                Some(notice(m, now))
            },
            (LogPhase::Resolving, LogInput::Listing(Ok(l))) => {
                match container_name_for_service(&l, self.key.service_id.as_str()) {
                    Some(n) => {
                        self.phase = LogPhase::Streaming(n);
                        None
                    },
                    None => {
                        self.phase = LogPhase::Sleeping;
                        Some(
                            notice(
                                String::from_str("Container does not exist for this service..."),
                                now,
                            ),
                        )
                    },
                }
            },
            (LogPhase::Sleeping, LogInput::Woke) => {
                self.phase = LogPhase::Resolving;
                None
            },
            (LogPhase::Streaming(_), LogInput::Line(Ok(raw))) => {
                match raw.stream {
                    Some(kind) => {
                        let parsed = parse_log_line(raw.line.as_str(), now);
                        Some(
                            ServiceLogEventPayload {
                                text: parsed.text,
                                timestamp: parsed.timestamp,
                                kind: kind,
                                clear: false,
                            },
                        )
                    },
                    None => None,
                }
            },
            (LogPhase::Streaming(_), LogInput::Line(Err(e))) => {
                self.phase = LogPhase::Ended;
                let mut m = String::from_str("Logs stream interrupted: ");
                m.append(e.as_str());
                Some(notice(m, now))
            },
            (LogPhase::Streaming(_), LogInput::StreamEnded) => {
                self.phase = LogPhase::Ended;
                None
            },
            _ => None,
        }
    }
}

/// Cancellation ends a log watcher from any phase, with no event, and an
/// ended watcher emits nothing more whatever happens next.
pub proof fn lemma_log_watcher_cancel(
    phase: LogPhaseView,
    id: Seq<char>,
    input: LogInput,
    now: Timestamp,
    next: LogPhaseView,
    event: Option<ServiceLogEventPayload>,
)
    ensures
        log_transition(phase, id, LogInput::Cancelled, now, next, event) <==> (next
            == LogPhaseView::Ended && event is None),
        log_transition(LogPhaseView::Ended, id, input, now, next, event) <==> (next
            == LogPhaseView::Ended && event is None),
{
}

} // verus!
