use lum_service::types::{Health, Priority, Status};

#[test]
fn status_texts() {
    assert_eq!(Status::Starting.to_string(), "Starting");
    assert_eq!(Status::Started.to_string(), "Started");
    assert_eq!(Status::Stopping.to_string(), "Stopping");
    assert_eq!(Status::Stopped.to_string(), "Stopped");
    assert_eq!(Status::FailedToStart("boom".to_string()).to_string(), "Failed to start: boom");
    assert_eq!(Status::FailedToStop("stuck".to_string()).to_string(), "Failed to stop: stuck");
    assert_eq!(Status::Failing.to_string(), "Failing");
    assert_eq!(Status::RuntimeError("crash".to_string()).to_string(), "Runtime error: crash");
}

#[test]
fn status_equality_ignores_messages() {
    assert!(Status::FailedToStart("a".to_string()) == Status::FailedToStart("b".to_string()));
    assert!(Status::RuntimeError("a".to_string()) == Status::RuntimeError(String::new()));
    assert!(Status::Started == Status::Started);
    assert!(Status::Started != Status::Stopped);
    assert!(Status::FailedToStart("a".to_string()) != Status::FailedToStop("a".to_string()));
}

#[test]
fn status_equality_is_an_equivalence() {
    let all = vec![
        Status::Starting,
        Status::Started,
        Status::Stopping,
        Status::Stopped,
        Status::FailedToStart("x".to_string()),
        Status::FailedToStop("y".to_string()),
        Status::Failing,
        Status::RuntimeError("z".to_string()),
    ];
    for a in &all {
        assert!(a == a);
        for b in &all {
            assert_eq!(a == b, b == a);
            for c in &all {
                if a == b && b == c {
                    assert!(a == c);
                }
            }
        }
    }
}

#[test]
fn health_and_priority_texts() {
    assert_eq!(Health::Healthy.to_string(), "Healthy");
    assert_eq!(Health::Unhealthy.to_string(), "Unhealthy");
    assert_eq!(Priority::Essential.to_string(), "Essential");
    assert_eq!(Priority::Optional.to_string(), "Optional");
}

#[test]
fn priority_order_follows_declaration() {
    assert!(Priority::Essential < Priority::Optional);
    assert!(Health::Healthy < Health::Unhealthy);
}
