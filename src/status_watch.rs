//! The status watcher of one service, as a state machine.
//!
//! Whoever runs it performs `next_action` (list the project's containers,
//! inspect one, sleep, or halt) and feeds the outcome back to `step`, which
//! returns the status event to emit, if any. The watcher never stops on its
//! own: only cancellation ends it, from any phase.
use vstd::prelude::*;

use crate::containers::{container_name_for_service, container_name_in, ComposeContainer};
use crate::registry::ServiceKey;
use crate::status::{
    event_of_state, status_event_from_state, ContainerState, ServiceStatus,
    ServiceStatusEventPayload,
};

verus! {

/// Pause between two rounds of a scene-wide status watcher, in milliseconds.
pub const SCENE_STATUS_INTERVAL_MS: u64 = 3000;

/// Pause between two rounds of a single-service status watcher, in milliseconds.
pub const SERVICE_STATUS_INTERVAL_MS: u64 = 1000;

/// Where a status watcher stands.
pub enum StatusPhase {
    /// Looking for the service's container.
    Resolving,
    /// Inspecting the container of that name.
    Inspecting(String),
    /// Waiting for the next round.
    Sleeping,
    /// Cancelled.
    Stopped,
}

/// The phase as plain values.
pub enum StatusPhaseView {
    Resolving,
    Inspecting(Seq<char>),
    Sleeping,
    Stopped,
}

impl View for StatusPhase {
    type V = StatusPhaseView;

    open spec fn view(&self) -> StatusPhaseView {
        match self {
            StatusPhase::Resolving => StatusPhaseView::Resolving,
            StatusPhase::Inspecting(n) => StatusPhaseView::Inspecting(n@),
            StatusPhase::Sleeping => StatusPhaseView::Sleeping,
            StatusPhase::Stopped => StatusPhaseView::Stopped,
        }
    }
}

/// What happened since the last step.
pub enum StatusInput {
    /// The project's containers were listed, or listing failed.
    Listing(Result<Vec<ComposeContainer>, String>),
    /// The container was inspected (`None`: it reported no state), or
    /// inspection failed.
    Inspection(Result<Option<ContainerState>, String>),
    /// The pause is over.
    Woke,
    /// Stopping was requested.
    Cancelled,
}

/// What the watcher asks its runner to do next.
pub enum StatusAction {
    ListContainers,
    Inspect(String),
    Sleep(u64),
    Halt,
}

pub type EventView = (ServiceStatus, Option<Seq<char>>);

pub open spec fn event_view(e: Option<ServiceStatusEventPayload>) -> Option<EventView> {
    match e {
        Some(p) => Some(p@),
        None => None,
    }
}

/// The next phase and the event emitted, for a watcher of service `id`.
pub open spec fn status_transition(phase: StatusPhaseView, id: Seq<char>, input: StatusInput) -> (
    StatusPhaseView,
    Option<EventView>,
) {
    match (phase, input) {
        (StatusPhaseView::Stopped, _) => (StatusPhaseView::Stopped, None),
        (_, StatusInput::Cancelled) => (StatusPhaseView::Stopped, None),
        (StatusPhaseView::Resolving, StatusInput::Listing(Err(e))) => (
            StatusPhaseView::Sleeping,
            Some((ServiceStatus::Error, Some("Error getting containers: "@ + e@))),
        ),
        (StatusPhaseView::Resolving, StatusInput::Listing(Ok(l))) => match container_name_in(
            l@,
            id,
        ) {
            Some(n) => (StatusPhaseView::Inspecting(n), None),
            None => (
                StatusPhaseView::Sleeping,
                Some((ServiceStatus::Paused, Some("Status: unexisting container"@))),
            ),
        },
        (StatusPhaseView::Inspecting(_), StatusInput::Inspection(Err(e))) => (
            StatusPhaseView::Sleeping,
            Some((ServiceStatus::Error, Some("Error while retrieving service status: "@ + e@))),
        ),
        (StatusPhaseView::Inspecting(_), StatusInput::Inspection(Ok(None))) => (
            StatusPhaseView::Sleeping,
            Some((ServiceStatus::Paused, None)),
        ),
        (StatusPhaseView::Inspecting(_), StatusInput::Inspection(Ok(Some(st)))) => (
            StatusPhaseView::Sleeping,
            Some(event_of_state(st)),
        ),
        (StatusPhaseView::Sleeping, StatusInput::Woke) => (StatusPhaseView::Resolving, None),
        (p, _) => (p, None),
    }
}

/// The status watcher of one service.
pub struct StatusWatcher {
    pub key: ServiceKey,
    pub interval_ms: u64,
    pub phase: StatusPhase,
}

/// The event channel of a key: `"{scene}-{service}-{suffix}"`.
pub open spec fn channel_name(key: (Seq<char>, Seq<char>), suffix: Seq<char>) -> Seq<char> {
    key.0 + "-"@ + key.1 + "-"@ + suffix
}

/// Builds the event channel name of `key` with the given suffix.
pub fn event_channel_name(key: &ServiceKey, suffix: &str) -> (r: String)
    ensures
        r@ == channel_name(key@, suffix@),
{
    let mut r = key.scene_name.clone();
    r.append("-");
    r.append(key.service_id.as_str());
    r.append("-");
    r.append(suffix);
    r
}

impl StatusWatcher {
    pub open spec fn phase(&self) -> StatusPhaseView {
        self.phase@
    }

    /// A watcher of `key` that pauses `interval_ms` between rounds; it
    /// starts by looking for the container.
    pub fn new(key: ServiceKey, interval_ms: u64) -> (r: StatusWatcher)
        ensures
            r.key == key,
            r.interval_ms == interval_ms,
            r.phase() == StatusPhaseView::Resolving,
    {
        StatusWatcher { key, interval_ms, phase: StatusPhase::Resolving }
    }

    /// The channel this watcher's events go to: `"{scene}-{service}-status-event"`.
    pub fn event_name(&self) -> (r: String)
        ensures
            r@ == channel_name(self.key@, "status-event"@),
    {
        event_channel_name(&self.key, "status-event")
    }

    pub fn is_stopped(&self) -> (r: bool)
        ensures
            r == (self.phase() == StatusPhaseView::Stopped),
    {
        match self.phase {
            StatusPhase::Stopped => true,
            _ => false,
        }
    }

    /// What the runner should do next.
    pub fn next_action(&self) -> (r: StatusAction)
        ensures
            match (self.phase(), r) {
                (StatusPhaseView::Resolving, StatusAction::ListContainers) => true,
                (StatusPhaseView::Inspecting(n), StatusAction::Inspect(m)) => m@ == n,
                (StatusPhaseView::Sleeping, StatusAction::Sleep(ms)) => ms == self.interval_ms,
                (StatusPhaseView::Stopped, StatusAction::Halt) => true,
                _ => false,
            },
    {
        match &self.phase {
            StatusPhase::Resolving => StatusAction::ListContainers,
            StatusPhase::Inspecting(n) => StatusAction::Inspect(n.clone()),
            StatusPhase::Sleeping => StatusAction::Sleep(self.interval_ms),
            StatusPhase::Stopped => StatusAction::Halt,
        }
    }

    /// Takes in what happened and returns the event to emit, if any.
    pub fn step(&mut self, input: StatusInput) -> (r: Option<ServiceStatusEventPayload>)
        ensures
            final(self).key == old(self).key,
            final(self).interval_ms == old(self).interval_ms,
            (final(self).phase(), event_view(r)) == status_transition(
                old(self).phase(),
                old(self).key@.1,
                input,
            ),
    {
        match (&self.phase, input) {
            (StatusPhase::Stopped, _) => None,
            (_, StatusInput::Cancelled) => {
                self.phase = StatusPhase::Stopped;
                None
            },
            (StatusPhase::Resolving, StatusInput::Listing(Err(e))) => {
                self.phase = StatusPhase::Sleeping;
                let mut m = String::from_str("Error getting containers: ");
                m.append(e.as_str());
                Some(ServiceStatusEventPayload { status: ServiceStatus::Error, message: Some(m) })
            },
            (StatusPhase::Resolving, StatusInput::Listing(Ok(l))) => {
                match container_name_for_service(&l, self.key.service_id.as_str()) {
                    Some(n) => {
                        self.phase = StatusPhase::Inspecting(n);
                        None
                    },
                    None => {
                        self.phase = StatusPhase::Sleeping;
                        Some(
                            ServiceStatusEventPayload {
                                status: ServiceStatus::Paused,
                                message: Some(String::from_str("Status: unexisting container")),
                            },
                        )
                    },
                }
            },
            (StatusPhase::Inspecting(_), StatusInput::Inspection(Err(e))) => {
                self.phase = StatusPhase::Sleeping;
                let mut m = String::from_str("Error while retrieving service status: ");
                m.append(e.as_str());
                Some(ServiceStatusEventPayload { status: ServiceStatus::Error, message: Some(m) })
            },
            (StatusPhase::Inspecting(_), StatusInput::Inspection(Ok(None))) => {
                self.phase = StatusPhase::Sleeping;
                Some(ServiceStatusEventPayload { status: ServiceStatus::Paused, message: None })
            },
            (StatusPhase::Inspecting(_), StatusInput::Inspection(Ok(Some(st)))) => {
                self.phase = StatusPhase::Sleeping;
                Some(status_event_from_state(&st))
            },
            (StatusPhase::Sleeping, StatusInput::Woke) => {
                self.phase = StatusPhase::Resolving;
                None
            },
            _ => None,
        }
    }
}

/// One status watcher for each service of a scene, each pausing
/// `SCENE_STATUS_INTERVAL_MS` between rounds.
pub fn scene_status_watchers(scene_name: &str, service_ids: &Vec<String>) -> (r: Vec<StatusWatcher>)
    ensures
        r@.len() == service_ids@.len(),
        forall|i: int|
            0 <= i < r@.len() ==> {
                &&& (#[trigger] r@[i]).key@ == (scene_name@, service_ids@[i]@)
                &&& r@[i].interval_ms == SCENE_STATUS_INTERVAL_MS
                &&& r@[i].phase() == StatusPhaseView::Resolving
            },
{
    let mut r: Vec<StatusWatcher> = Vec::new();
    let mut i: usize = 0;
    while i < service_ids.len()
        invariant
            i <= service_ids@.len(),
            r@.len() == i,
            forall|j: int|
                0 <= j < i ==> {
                    &&& (#[trigger] r@[j]).key@ == (scene_name@, service_ids@[j]@)
                    &&& r@[j].interval_ms == SCENE_STATUS_INTERVAL_MS
                    &&& r@[j].phase() == StatusPhaseView::Resolving
                },
        decreases service_ids@.len() - i,
    {
        let key = ServiceKey::new(scene_name, service_ids[i].as_str());
        r.push(StatusWatcher::new(key, SCENE_STATUS_INTERVAL_MS));
        i = i + 1;
    }
    r
}

/// Cancellation ends a status watcher from any phase, with no event, and a
/// stopped watcher emits nothing more whatever happens next.
pub proof fn lemma_status_watcher_cancel(phase: StatusPhaseView, id: Seq<char>, input: StatusInput)
    ensures
        status_transition(phase, id, StatusInput::Cancelled) == (StatusPhaseView::Stopped, None::<EventView>),
        status_transition(StatusPhaseView::Stopped, id, input) == (StatusPhaseView::Stopped, None::<EventView>),
{
}

} // verus!
