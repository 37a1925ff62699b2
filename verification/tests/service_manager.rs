use lum_event::event_repeater::{AttachError, DetachError};
use lum_service::service::ServiceInfo;
use lum_service::service_manager::ServiceManager;
use lum_service::types::{Health, Priority, RunTaskError, ShutdownError, StartupError, Status};

fn info(id: u64, name: &str, priority: Priority) -> ServiceInfo {
    ServiceInfo::new(id, format!("Type{id}"), name.to_string(), priority)
}

fn with_status(mut s: ServiceInfo, status: Status) -> ServiceInfo {
    s.status = status;
    s
}

fn attach_error() -> AttachError {
    AttachError::AlreadyAttached {
        event_repeater_name: "repeater".to_string(),
        event_name: "event".to_string(),
    }
}

fn detach_error() -> DetachError {
    DetachError::NotAttached {
        event_repeater_name: "repeater".to_string(),
        event_name: "event".to_string(),
    }
}

#[test]
fn new_keeps_first_service_of_each_type() {
    let m = ServiceManager::new(&vec![
        info(1, "first", Priority::Essential),
        info(2, "second", Priority::Optional),
        info(1, "duplicate", Priority::Optional),
        info(3, "third", Priority::Essential),
        info(2, "again", Priority::Essential),
    ]);
    assert_eq!(m.type_ids(), vec![1, 2, 3]);
    assert!(m.manages_service_by_type_id(3));
    assert!(!m.manages_service_by_type_id(4));
}

#[test]
fn empty_manager() {
    let m = ServiceManager::new(&vec![]);
    assert!(m.type_ids().is_empty());
    assert_eq!(ServiceManager::health(&vec![]), Health::Healthy);
    assert_eq!(ServiceManager::to_string(&vec![]), "Services: None");
}

#[test]
fn start_and_stop_round_trip() {
    let original = info(1, "a", Priority::Essential);
    let mut a = original.clone();
    let mut m = ServiceManager::new(&vec![a.clone()]);
    assert!(m.check_start(&a).is_ok());
    assert!(m.begin_start(&mut a, Ok(())).is_ok());
    assert!(matches!(a.status, Status::Starting));
    assert!(m.complete_start(&mut a, Ok(())).is_ok());
    assert!(matches!(a.status, Status::Started));
    assert!(a.is_available());
    assert_eq!(m.stop_service(&mut a).unwrap(), 0);
    assert!(matches!(a.status, Status::Stopping));
    assert!(m.complete_stop(&mut a, Ok(())).is_ok());
    assert!(m.finish_stop(&a, Ok(())).is_ok());
    assert!(matches!(a.status, Status::Stopped));
    assert_eq!(a.name, original.name);
    assert!(!m.has_background_tasks_by_type_id(1));
}

#[test]
fn start_refused_when_not_managed() {
    let m = ServiceManager::new(&vec![info(1, "a", Priority::Essential)]);
    let mut other = info(9, "stranger", Priority::Optional);
    match m.begin_start(&mut other, Ok(())) {
        Err(StartupError::ServiceNotManaged(name, label)) => {
            assert_eq!(name, "stranger");
            assert_eq!(label, "Type9");
        }
        other => panic!("unexpected {other:?}"),
    }
    assert!(matches!(other.status, Status::Stopped));
}

#[test]
fn start_decided_on_the_given_service() {
    // The manager was built while the service was stopped; the service has since
    // changed its own status: its current status decides.
    let a = info(1, "a", Priority::Essential);
    let m = ServiceManager::new(&vec![a.clone()]);
    let mut now_started = with_status(a.clone(), Status::Started);
    match m.begin_start(&mut now_started, Ok(())) {
        Err(StartupError::ServiceNotStopped(name, label)) => {
            assert_eq!(name, "a");
            assert_eq!(label, "Type1");
        }
        other => panic!("unexpected {other:?}"),
    }
    assert!(matches!(now_started.status, Status::Started));
    let mut renamed = a.clone();
    renamed.name = "renamed".to_string();
    renamed.status = Status::FailedToStart("x".to_string());
    match m.begin_start(&mut renamed, Ok(())) {
        Err(StartupError::ServiceNotStopped(name, _)) => assert_eq!(name, "renamed"),
        other => panic!("unexpected {other:?}"),
    }
}

#[test]
fn start_refused_while_background_task_recorded() {
    let a = info(1, "a", Priority::Essential);
    let mut m = ServiceManager::new(&vec![a.clone()]);
    let running = with_status(a.clone(), Status::Started);
    assert!(m.run_task(&running).is_ok());
    assert!(m.has_background_tasks_by_type_id(1));
    let mut stopped = a.clone();
    match m.begin_start(&mut stopped, Ok(())) {
        Err(StartupError::BackgroundTaskAlreadyRunning(name, _)) => assert_eq!(name, "a"),
        other => panic!("unexpected {other:?}"),
    }
    assert_eq!(m.abort_background_tasks(1), 1);
    assert_eq!(m.abort_background_tasks(1), 0);
    assert!(m.begin_start(&mut stopped, Ok(())).is_ok());
}

#[test]
fn failed_attachment_changes_nothing() {
    let mut a = info(1, "a", Priority::Essential);
    let m = ServiceManager::new(&vec![a.clone()]);
    match m.begin_start(&mut a, Err(attach_error())) {
        Err(StartupError::StatusAttachmentFailed(name, label, AttachError::AlreadyAttached { .. })) => {
            assert_eq!(name, "a");
            assert_eq!(label, "Type1");
        }
        other => panic!("unexpected {other:?}"),
    }
    assert!(matches!(a.status, Status::Stopped));
}

#[test]
fn failed_start_records_message() {
    let mut a = info(1, "a", Priority::Essential);
    let m = ServiceManager::new(&vec![a.clone()]);
    m.begin_start(&mut a, Ok(())).unwrap();
    match m.complete_start(&mut a, Err("deadline has elapsed".to_string())) {
        Err(StartupError::FailedToStartService(name, label)) => {
            assert_eq!(name, "a");
            assert_eq!(label, "Type1");
        }
        other => panic!("unexpected {other:?}"),
    }
    match &a.status {
        Status::FailedToStart(message) => assert_eq!(message, "deadline has elapsed"),
        other => panic!("unexpected {other:?}"),
    }
    assert_eq!(ServiceManager::health(&vec![a]), Health::Unhealthy);
}

#[test]
fn stop_refusals() {
    let mut a = info(1, "a", Priority::Essential);
    let mut m = ServiceManager::new(&vec![a.clone()]);
    match m.stop_service(&mut a) {
        Err(ShutdownError::ServiceNotStarted(name, label)) => {
            assert_eq!(name, "a");
            assert_eq!(label, "Type1");
        }
        other => panic!("unexpected {other:?}"),
    }
    let mut other = with_status(info(5, "x", Priority::Essential), Status::Started);
    assert!(matches!(m.stop_service(&mut other), Err(ShutdownError::ServiceNotManaged(_, _))));
    assert!(matches!(a.status, Status::Stopped));
    assert!(matches!(other.status, Status::Started));
}

#[test]
fn stop_aborts_background_tasks() {
    let mut a = with_status(info(1, "a", Priority::Essential), Status::Started);
    let mut m = ServiceManager::new(&vec![a.clone()]);
    m.run_task(&a).unwrap();
    m.run_task(&a).unwrap();
    assert_eq!(m.background_task_count(1), 2);
    assert_eq!(m.stop_service(&mut a).unwrap(), 2);
    assert!(!m.has_background_tasks_by_type_id(1));
    assert_eq!(m.background_task_count(1), 0);
}

#[test]
fn failed_stop_and_detachment() {
    let mut a = with_status(info(1, "a", Priority::Essential), Status::Started);
    let mut m = ServiceManager::new(&vec![a.clone()]);
    m.stop_service(&mut a).unwrap();
    assert!(matches!(
        m.complete_stop(&mut a, Err("stuck".to_string())),
        Err(ShutdownError::FailedToStopService(_, _))
    ));
    match &a.status {
        Status::FailedToStop(message) => assert_eq!(message, "stuck"),
        other => panic!("unexpected {other:?}"),
    }
    match m.finish_stop(&a, Err(detach_error())) {
        Err(ShutdownError::StatusDetachmentFailed(name, label, DetachError::NotAttached { .. })) => {
            assert_eq!(name, "a");
            assert_eq!(label, "Type1");
        }
        other => panic!("unexpected {other:?}"),
    }
}

#[test]
fn run_task_needs_starting_or_started() {
    let mut m = ServiceManager::new(&vec![info(1, "a", Priority::Essential)]);
    let stopped = info(1, "a", Priority::Essential);
    match m.run_task(&stopped) {
        Err(RunTaskError::ServiceNotStarted(name, label)) => {
            assert_eq!(name, "a");
            assert_eq!(label, "Type1");
        }
        other => panic!("unexpected {other:?}"),
    }
    assert!(!m.has_background_tasks_by_type_id(1));
    assert!(m.run_task(&with_status(stopped.clone(), Status::Starting)).is_ok());
    assert!(m.has_background_tasks_by_type_id(1));
    assert_eq!(m.background_task_count(1), 1);
}

#[test]
fn run_task_counts_per_type() {
    let mut m = ServiceManager::new(&vec![
        info(1, "a", Priority::Essential),
        info(2, "b", Priority::Essential),
    ]);
    let a = with_status(info(1, "a", Priority::Essential), Status::Started);
    let b = with_status(info(2, "b", Priority::Essential), Status::Started);
    m.run_task(&a).unwrap();
    m.run_task(&a).unwrap();
    m.run_task(&b).unwrap();
    m.run_task(&a).unwrap();
    assert_eq!(m.background_task_count(1), 3);
    assert_eq!(m.background_task_count(2), 1);
    assert_eq!(m.abort_background_tasks(1), 3);
    assert_eq!(m.background_task_count(2), 1);
}

#[test]
fn ended_task_fails_service() {
    let mut a = with_status(info(1, "a", Priority::Essential), Status::Started);
    let mut m = ServiceManager::new(&vec![a.clone()]);
    m.run_task(&a).unwrap();
    let (message, aborted) = m.task_ended(&mut a, Ok(()));
    assert_eq!(message, "Background task ended unexpectedly!");
    assert_eq!(aborted, 1);
    assert!(matches!(a.status, Status::Failing));
    m.complete_fail(&mut a, message);
    match &a.status {
        Status::RuntimeError(message) => assert_eq!(message, "Background task ended unexpectedly!"),
        other => panic!("unexpected {other:?}"),
    }
    let (message, aborted) = m.task_ended(&mut a, Err("disk full".to_string()));
    assert_eq!(message, "disk full");
    assert_eq!(aborted, 0);
}

#[test]
fn essential_failure_makes_system_unhealthy() {
    let mut a = with_status(info(1, "a", Priority::Essential), Status::Failing);
    let b = with_status(info(2, "b", Priority::Optional), Status::Started);
    let mut m = ServiceManager::new(&vec![a.clone(), b.clone()]);
    assert_eq!(m.fail_service(&mut a), 0);
    assert!(matches!(a.status, Status::Failing));
    m.complete_fail(&mut a, "gone".to_string());
    match &a.status {
        Status::RuntimeError(message) => assert_eq!(message, "gone"),
        other => panic!("unexpected {other:?}"),
    }
    assert_eq!(ServiceManager::health(&vec![b, a]), Health::Unhealthy);
}

#[test]
fn health_depends_on_essential_services_only() {
    let services = vec![
        with_status(info(1, "a", Priority::Essential), Status::Started),
        info(2, "b", Priority::Optional),
    ];
    assert_eq!(ServiceManager::health(&services), Health::Healthy);
    let services = vec![
        with_status(info(1, "a", Priority::Essential), Status::Started),
        info(2, "b", Priority::Essential),
    ];
    assert_eq!(ServiceManager::health(&services), Health::Unhealthy);
}

#[test]
fn listing_names_services_in_order() {
    let services = vec![
        info(1, "alpha", Priority::Essential),
        info(2, "beta", Priority::Optional),
        info(3, "gamma", Priority::Optional),
    ];
    assert_eq!(ServiceManager::to_string(&services), "Services: alpha, beta, gamma");
    assert_eq!(
        ServiceManager::to_string(&vec![info(1, "solo", Priority::Essential)]),
        "Services: solo"
    );
}

#[test]
fn status_overview_lists_sections() {
    let services = vec![
        with_status(info(1, "A", Priority::Essential), Status::Started),
        with_status(info(2, "B", Priority::Optional), Status::FailedToStart("boom".to_string())),
        with_status(info(3, "C", Priority::Essential), Status::Starting),
    ];
    let body = "Failed optional services:\n - B: Failed to start: boomEssential services:\n - A: StartedOther services:\n - C: Starting";
    let expected = format!("Status overview\n{}\n{}", "\u{2500}".repeat(46), body);
    assert_eq!(ServiceManager::status_overview(&services), expected);
}

#[test]
fn status_overview_of_all_sections() {
    let services = vec![
        with_status(info(1, "e1", Priority::Essential), Status::RuntimeError("r".to_string())),
        with_status(info(2, "o1", Priority::Optional), Status::FailedToStop("s".to_string())),
        info(3, "e2", Priority::Essential),
        info(4, "o2", Priority::Optional),
        with_status(info(5, "x", Priority::Optional), Status::Failing),
        with_status(info(6, "e3", Priority::Essential), Status::Started),
    ];
    let body = [
        "Failed essential services:\n - e1: Runtime error: r",
        "Failed optional services:\n - o1: Failed to stop: s",
        "Essential services:\n - e2: Stopped\n - e3: Started",
        "Optional services:\n - o2: Stopped",
        "Other services:\n - x: Failing",
    ]
    .concat();
    let width = body.lines().map(|l| l.len()).max().unwrap_or(0);
    let expected = format!("Status overview\n{}\n{}", "\u{2500}".repeat(width), body);
    assert_eq!(ServiceManager::status_overview(&services), expected);
}

#[test]
fn status_overview_of_no_services() {
    assert_eq!(ServiceManager::status_overview(&vec![]), "Status overview\n\n");
}

#[test]
fn ignored_services_are_later_repeats() {
    let input = vec![
        info(1, "first", Priority::Essential),
        info(2, "second", Priority::Optional),
        info(1, "duplicate", Priority::Optional),
        info(2, "again", Priority::Essential),
        info(3, "third", Priority::Essential),
    ];
    let ignored = ServiceManager::ignored_services(&input);
    assert_eq!(ignored, vec![false, false, true, true, false]);
    let m = ServiceManager::new(&input);
    let kept: Vec<u64> = input
        .iter()
        .zip(ignored)
        .filter(|(_, ignored)| !ignored)
        .map(|(s, _)| s.type_id)
        .collect();
    assert_eq!(m.type_ids(), kept);
}

#[test]
fn start_service_attaches_status_event_once() {
    let runtime = lum_libs::tokio::runtime::Runtime::new().unwrap();
    runtime.block_on(async {
        let repeater: lum_event::EventRepeater<Status> = lum_event::EventRepeater::new("repeater");
        let event: lum_event::Event<Status> = lum_event::Event::new("Type1::status_change");
        let a = info(1, "a", Priority::Essential);
        let m = ServiceManager::new(&vec![a.clone()]);

        let mut first = a.clone();
        assert!(m.start_service(&mut first, &repeater, &event).is_ok());
        assert!(matches!(first.status, Status::Starting));
        assert_eq!(repeater.attachment_count(), 1);

        let mut second = a.clone();
        match m.start_service(&mut second, &repeater, &event) {
            Err(StartupError::StatusAttachmentFailed(name, label, AttachError::AlreadyAttached { .. })) => {
                assert_eq!(name, "a");
                assert_eq!(label, "Type1");
            }
            other => panic!("unexpected {other:?}"),
        }
        assert!(matches!(second.status, Status::Stopped));

        assert!(m.detach_status(&first, &repeater, &event).is_ok());
        assert_eq!(repeater.attachment_count(), 0);
        match m.detach_status(&first, &repeater, &event) {
            Err(ShutdownError::StatusDetachmentFailed(name, _, DetachError::NotAttached { .. })) => {
                assert_eq!(name, "a");
            }
            other => panic!("unexpected {other:?}"),
        }
    });
}

#[test]
fn start_service_refusal_does_not_attach() {
    let runtime = lum_libs::tokio::runtime::Runtime::new().unwrap();
    runtime.block_on(async {
        let repeater: lum_event::EventRepeater<Status> = lum_event::EventRepeater::new("repeater");
        let event: lum_event::Event<Status> = lum_event::Event::new("event");
        let mut a = with_status(info(1, "a", Priority::Essential), Status::Started);
        let m = ServiceManager::new(&vec![a.clone()]);
        assert!(matches!(
            m.start_service(&mut a, &repeater, &event),
            Err(StartupError::ServiceNotStopped(_, _))
        ));
        assert_eq!(repeater.attachment_count(), 0);
    });
}

#[test]
fn recorded_tasks_agree_with_counts() {
    let a = with_status(info(1, "a", Priority::Essential), Status::Started);
    let mut m = ServiceManager::new(&vec![a.clone(), info(2, "b", Priority::Optional)]);
    for id in [1u64, 2, 3] {
        assert_eq!(m.has_background_tasks_by_type_id(id), m.background_task_count(id) > 0);
    }
    m.run_task(&a).unwrap();
    assert!(m.has_background_tasks_by_type_id(1) && m.background_task_count(1) == 1);
    m.abort_background_tasks(1);
    assert!(!m.has_background_tasks_by_type_id(1) && m.background_task_count(1) == 0);
}
