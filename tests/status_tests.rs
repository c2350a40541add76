use dcompose_watch::containers::ComposeContainer;
use dcompose_watch::status::{
    emit_service_status_by_status, get_service_status_from_container_status,
    get_service_status_from_health_status, status_event_from_state, ContainerState,
    ContainerStatus, HealthStatus, ServiceStatus,
};
use dcompose_watch::status_watch::{
    scene_status_watchers, StatusAction, StatusInput, StatusWatcher, SCENE_STATUS_INTERVAL_MS,
    SERVICE_STATUS_INTERVAL_MS,
};
use dcompose_watch::registry::ServiceKey;

fn state(status: ContainerStatus, exit_code: Option<i64>, health: Option<HealthStatus>) -> ContainerState {
    ContainerState { status, exit_code, health }
}

#[test]
fn running_and_health_starting_is_loading() {
    let e = status_event_from_state(&state(ContainerStatus::Running, None, Some(HealthStatus::Starting)));
    assert_eq!(e.status, ServiceStatus::Loading);
    assert_eq!(e.message.as_deref(), Some("Status: starting"));
}

#[test]
fn running_and_healthy_is_running() {
    let e = status_event_from_state(&state(ContainerStatus::Running, None, Some(HealthStatus::Healthy)));
    assert_eq!(e.status, ServiceStatus::Running);
    assert_eq!(e.message.as_deref(), Some("Status: healthy"));
}

#[test]
fn running_and_unhealthy_is_error() {
    let e = status_event_from_state(&state(ContainerStatus::Running, None, Some(HealthStatus::Unhealthy)));
    assert_eq!(e.status, ServiceStatus::Error);
}

#[test]
fn exited_with_code_one_is_paused_with_code() {
    let e = status_event_from_state(&state(ContainerStatus::Exited, Some(1), None));
    assert_eq!(e.status, ServiceStatus::Paused);
    let m = e.message.expect("message");
    assert!(m.contains('1'));
    assert_eq!(m, "Container has exited with exit code 1");
}

#[test]
fn exited_with_negative_and_unknown_code() {
    let e = emit_service_status_by_status(&state(ContainerStatus::Exited, Some(-137), None));
    assert_eq!(e.message.as_deref(), Some("Container has exited with exit code -137"));
    let e = emit_service_status_by_status(&state(ContainerStatus::Exited, None, None));
    assert_eq!(e.message.as_deref(), Some("Container has exited with exit code Unknown"));
    let e = emit_service_status_by_status(&state(ContainerStatus::Exited, Some(i64::MIN), None));
    assert_eq!(
        e.message.as_deref(),
        Some("Container has exited with exit code -9223372036854775808")
    );
}

#[test]
fn created_is_loading() {
    let e = status_event_from_state(&state(ContainerStatus::Created, None, None));
    assert_eq!(e.status, ServiceStatus::Loading);
    assert_eq!(e.message.as_deref(), Some("Status: created"));
}

#[test]
fn container_status_table() {
    let expected = [
        (ContainerStatus::Created, ServiceStatus::Loading),
        (ContainerStatus::Removing, ServiceStatus::Loading),
        (ContainerStatus::Restarting, ServiceStatus::Loading),
        (ContainerStatus::Running, ServiceStatus::Running),
        (ContainerStatus::Exited, ServiceStatus::Paused),
        (ContainerStatus::Dead, ServiceStatus::Paused),
        (ContainerStatus::Unknown, ServiceStatus::Paused),
        (ContainerStatus::Paused, ServiceStatus::Paused),
    ];
    for (s, want) in expected {
        assert_eq!(get_service_status_from_container_status(s), want);
    }
    assert_eq!(get_service_status_from_health_status(HealthStatus::Healthy), ServiceStatus::Running);
}

#[test]
fn unknown_status_is_paused_without_message() {
    let e = status_event_from_state(&state(ContainerStatus::Unknown, None, None));
    assert_eq!(e.status, ServiceStatus::Paused);
    assert!(e.message.is_none());
}

#[test]
fn health_check_decides_over_lifecycle_status() {
    let e = status_event_from_state(&state(ContainerStatus::Exited, Some(0), Some(HealthStatus::Healthy)));
    assert_eq!(e.status, ServiceStatus::Running);
}

fn listing(pairs: &[(&str, &str)]) -> Vec<ComposeContainer> {
    pairs
        .iter()
        .map(|(s, n)| ComposeContainer { service: s.to_string(), name: n.to_string() })
        .collect()
}

#[test]
fn status_watcher_full_round() {
    let mut w = StatusWatcher::new(ServiceKey::new("shop", "web"), SERVICE_STATUS_INTERVAL_MS);
    assert_eq!(w.event_name(), "shop-web-status-event");
    assert!(matches!(w.next_action(), StatusAction::ListContainers));
    let e = w.step(StatusInput::Listing(Ok(listing(&[("web", "shop-web-1")]))));
    assert!(e.is_none());
    match w.next_action() {
        StatusAction::Inspect(n) => assert_eq!(n, "shop-web-1"),
        _ => panic!("expected inspect"),
    }
    let e = w
        .step(StatusInput::Inspection(Ok(Some(state(ContainerStatus::Running, None, None)))))
        .expect("event");
    assert_eq!(e.status, ServiceStatus::Running);
    assert_eq!(e.message.as_deref(), Some("Status: running"));
    assert!(matches!(w.next_action(), StatusAction::Sleep(1000)));
    assert!(w.step(StatusInput::Woke).is_none());
    assert!(matches!(w.next_action(), StatusAction::ListContainers));
}

#[test]
fn status_watcher_no_container_is_paused_and_retries() {
    let mut w = StatusWatcher::new(ServiceKey::new("shop", "web"), SCENE_STATUS_INTERVAL_MS);
    let e = w.step(StatusInput::Listing(Ok(listing(&[("db", "shop-db-1")])))).expect("event");
    assert_eq!(e.status, ServiceStatus::Paused);
    assert_eq!(e.message.as_deref(), Some("Status: unexisting container"));
    assert!(matches!(w.next_action(), StatusAction::Sleep(3000)));
}

#[test]
fn status_watcher_errors_do_not_stop_it() {
    let mut w = StatusWatcher::new(ServiceKey::new("shop", "web"), SERVICE_STATUS_INTERVAL_MS);
    let e = w.step(StatusInput::Listing(Err("no socket".to_string()))).expect("event");
    assert_eq!(e.status, ServiceStatus::Error);
    assert_eq!(e.message.as_deref(), Some("Error getting containers: no socket"));
    assert!(!w.is_stopped());
    w.step(StatusInput::Woke);
    w.step(StatusInput::Listing(Ok(listing(&[("web", "c1")]))));
    let e = w.step(StatusInput::Inspection(Err("boom".to_string()))).expect("event");
    assert_eq!(e.status, ServiceStatus::Error);
    assert_eq!(e.message.as_deref(), Some("Error while retrieving service status: boom"));
    assert!(!w.is_stopped());
    assert!(matches!(w.next_action(), StatusAction::Sleep(_)));
}

#[test]
fn status_watcher_inspect_without_state_is_paused() {
    let mut w = StatusWatcher::new(ServiceKey::new("shop", "web"), SERVICE_STATUS_INTERVAL_MS);
    w.step(StatusInput::Listing(Ok(listing(&[("web", "c1")]))));
    let e = w.step(StatusInput::Inspection(Ok(None))).expect("event");
    assert_eq!(e.status, ServiceStatus::Paused);
    assert!(e.message.is_none());
}

#[test]
fn status_watcher_cancel_while_sleeping_halts_at_once() {
    let mut w = StatusWatcher::new(ServiceKey::new("shop", "web"), SCENE_STATUS_INTERVAL_MS);
    w.step(StatusInput::Listing(Ok(listing(&[]))));
    assert!(matches!(w.next_action(), StatusAction::Sleep(_)));
    assert!(w.step(StatusInput::Cancelled).is_none());
    assert!(w.is_stopped());
    assert!(matches!(w.next_action(), StatusAction::Halt));
    // Nothing is emitted after cancellation.
    assert!(w.step(StatusInput::Woke).is_none());
    assert!(w
        .step(StatusInput::Inspection(Ok(Some(state(ContainerStatus::Running, None, None)))))
        .is_none());
    assert!(matches!(w.next_action(), StatusAction::Halt));
}

#[test]
fn status_watcher_cancel_while_inspecting() {
    let mut w = StatusWatcher::new(ServiceKey::new("shop", "web"), SCENE_STATUS_INTERVAL_MS);
    w.step(StatusInput::Listing(Ok(listing(&[("web", "c1")]))));
    assert!(w.step(StatusInput::Cancelled).is_none());
    assert!(matches!(w.next_action(), StatusAction::Halt));
}

#[test]
fn status_watcher_ignores_unexpected_input() {
    let mut w = StatusWatcher::new(ServiceKey::new("shop", "web"), SCENE_STATUS_INTERVAL_MS);
    assert!(w.step(StatusInput::Woke).is_none());
    assert!(matches!(w.next_action(), StatusAction::ListContainers));
}

#[test]
fn scene_watchers_one_per_service() {
    let ids = vec!["web".to_string(), "db".to_string()];
    let ws = scene_status_watchers("shop", &ids);
    assert_eq!(ws.len(), 2);
    assert_eq!(ws[0].event_name(), "shop-web-status-event");
    assert_eq!(ws[1].event_name(), "shop-db-status-event");
    assert_eq!(ws[1].interval_ms, SCENE_STATUS_INTERVAL_MS);
}
