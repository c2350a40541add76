//! Container state as the runtime reports it, and its classification into
//! the service status shown to the user.
use vstd::prelude::*;

use crate::text::{push_signed_decimal, signed_decimal};

verus! {

/// Lifecycle state of a container.
#[derive(Clone, Copy, Debug, PartialEq, Eq, Structural)]
pub enum ContainerStatus {
    Created,
    Running,
    Paused,
    Restarting,
    Removing,
    Exited,
    Dead,
    Unknown,
}

/// Result of a container's configured health check.
#[derive(Clone, Copy, Debug, PartialEq, Eq, Structural)]
pub enum HealthStatus {
    Starting,
    Healthy,
    Unhealthy,
}

/// Normalised container state: lifecycle status, exit code and health.
#[derive(Clone, Copy, Debug, PartialEq, Eq, Structural)]
pub struct ContainerState {
    pub status: ContainerStatus,
    pub exit_code: Option<i64>,
    pub health: Option<HealthStatus>,
}

/// Status of a service as shown to the user.
#[derive(Clone, Copy, Debug, PartialEq, Eq, Structural)]
pub enum ServiceStatus {
    Running,
    Paused,
    Loading,
    Error,
}

/// One status event: the status and an optional human-readable message.
#[derive(Clone, Debug)]
pub struct ServiceStatusEventPayload {
    pub status: ServiceStatus,
    pub message: Option<String>,
}

pub open spec fn opt_text(o: Option<String>) -> Option<Seq<char>> {
    match o {
        Some(s) => Some(s@),
        None => None,
    }
}

impl View for ServiceStatusEventPayload {
    type V = (ServiceStatus, Option<Seq<char>>);

    open spec fn view(&self) -> (ServiceStatus, Option<Seq<char>>) {
        (self.status, opt_text(self.message))
    }
}

pub open spec fn status_of_container_status(s: ContainerStatus) -> ServiceStatus {
    match s {
        ContainerStatus::Created | ContainerStatus::Removing | ContainerStatus::Restarting => {
            ServiceStatus::Loading
        },
        ContainerStatus::Running => ServiceStatus::Running,
        ContainerStatus::Exited | ContainerStatus::Dead | ContainerStatus::Unknown
        | ContainerStatus::Paused => ServiceStatus::Paused,
    }
}

pub open spec fn status_of_health(h: HealthStatus) -> ServiceStatus {
    match h {
        HealthStatus::Starting => ServiceStatus::Loading,
        HealthStatus::Healthy => ServiceStatus::Running,
        HealthStatus::Unhealthy => ServiceStatus::Error,
    }
}

/// Classifies a container status when no health check decides.
pub fn get_service_status_from_container_status(s: ContainerStatus) -> (r: ServiceStatus)
    ensures
        r == status_of_container_status(s),
{
    match s {
        ContainerStatus::Created | ContainerStatus::Removing | ContainerStatus::Restarting => {
            ServiceStatus::Loading
        },
        ContainerStatus::Running => ServiceStatus::Running,
        ContainerStatus::Exited | ContainerStatus::Dead | ContainerStatus::Unknown
        | ContainerStatus::Paused => ServiceStatus::Paused,
    }
}

/// Classifies a health-check result.
pub fn get_service_status_from_health_status(h: HealthStatus) -> (r: ServiceStatus)
    ensures
        r == status_of_health(h),
{
    match h {
        HealthStatus::Starting => ServiceStatus::Loading,
        HealthStatus::Healthy => ServiceStatus::Running,
        HealthStatus::Unhealthy => ServiceStatus::Error,
    }
}

pub open spec fn container_status_name(s: ContainerStatus) -> Seq<char> {
    match s {
        ContainerStatus::Created => "created"@,
        ContainerStatus::Running => "running"@,
        ContainerStatus::Paused => "paused"@,
        ContainerStatus::Restarting => "restarting"@,
        ContainerStatus::Removing => "removing"@,
        ContainerStatus::Exited => "exited"@,
        ContainerStatus::Dead => "dead"@,
        ContainerStatus::Unknown => "unknown"@,
    }
}

pub open spec fn health_status_name(h: HealthStatus) -> Seq<char> {
    match h {
        HealthStatus::Starting => "starting"@,
        HealthStatus::Healthy => "healthy"@,
        HealthStatus::Unhealthy => "unhealthy"@,
    }
}

/// The runtime's lower-case name of a container status.
pub fn container_status_text(s: ContainerStatus) -> (r: &'static str)
    ensures
        r@ == container_status_name(s),
{
    match s {
        ContainerStatus::Created => "created",
        ContainerStatus::Running => "running",
        ContainerStatus::Paused => "paused",
        ContainerStatus::Restarting => "restarting",
        ContainerStatus::Removing => "removing",
        ContainerStatus::Exited => "exited",
        ContainerStatus::Dead => "dead",
        ContainerStatus::Unknown => "unknown",
    }
}

/// The runtime's lower-case name of a health-check result.
pub fn health_status_text(h: HealthStatus) -> (r: &'static str)
    ensures
        r@ == health_status_name(h),
{
    match h {
        HealthStatus::Starting => "starting",
        HealthStatus::Healthy => "healthy",
        HealthStatus::Unhealthy => "unhealthy",
    }
}

pub open spec fn exit_message(code: Option<i64>) -> Seq<char> {
    "Container has exited with exit code "@ + match code {
        Some(c) => signed_decimal(c as int),
        None => "Unknown"@,
    }
}

/// The event for a container state, ignoring its health check.
pub open spec fn event_of_container_status(st: ContainerState) -> (ServiceStatus, Option<Seq<char>>) {
    match st.status {
        ContainerStatus::Exited => (ServiceStatus::Paused, Some(exit_message(st.exit_code))),
        ContainerStatus::Unknown => (ServiceStatus::Paused, None),
        s => (status_of_container_status(s), Some("Status: "@ + container_status_name(s))),
    }
}

/// The event for a container state: a health check, where one reports,
/// decides; otherwise the lifecycle status does.
pub open spec fn event_of_state(st: ContainerState) -> (ServiceStatus, Option<Seq<char>>) {
    match st.health {
        Some(h) => (status_of_health(h), Some("Status: "@ + health_status_name(h))),
        None => event_of_container_status(st),
    }
}

/// The status event for a container state, by its lifecycle status alone.
pub fn emit_service_status_by_status(st: &ContainerState) -> (r: ServiceStatusEventPayload)
    ensures
        r@ == event_of_container_status(*st),
{
    match st.status {
        ContainerStatus::Exited => {
            let mut m = String::from_str("Container has exited with exit code ");
            match st.exit_code {
                Some(c) => push_signed_decimal(&mut m, c),
                None => m.append("Unknown"),
            }
            proof {
                reveal_strlit("Unknown");
            }
            assert(m@ =~= exit_message(st.exit_code));
            ServiceStatusEventPayload { status: ServiceStatus::Paused, message: Some(m) }
        },
        ContainerStatus::Unknown => ServiceStatusEventPayload {
            status: ServiceStatus::Paused,
            message: None,
        },
        s => {
            let mut m = String::from_str("Status: ");
            m.append(container_status_text(s));
            ServiceStatusEventPayload {
                status: get_service_status_from_container_status(s),
                message: Some(m),
            }
        },
    }
}

/// The status event for a container state, health check first.
pub fn status_event_from_state(st: &ContainerState) -> (r: ServiceStatusEventPayload)
    ensures
        r@ == event_of_state(*st),
{
    match st.health {
        Some(h) => {
            let mut m = String::from_str("Status: ");
            m.append(health_status_text(h));
            ServiceStatusEventPayload {
                status: get_service_status_from_health_status(h),
                message: Some(m),
            }
        },
        None => emit_service_status_by_status(st),
    }
}

} // verus!
