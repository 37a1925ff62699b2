use std::cmp::Ordering;

use lum_service::service::ServiceInfo;
use lum_service::types::{Priority, Status};

fn info(id: u64, name: &str) -> ServiceInfo {
    ServiceInfo::new(id, "Dummy".to_string(), name.to_string(), Priority::Essential)
}

#[test]
fn new_service_is_stopped() {
    let s = ServiceInfo::new(7, "Type".to_string(), "svc".to_string(), Priority::Optional);
    assert_eq!(s.type_id, 7);
    assert_eq!(s.type_label, "Type");
    assert_eq!(s.name, "svc");
    assert_eq!(s.priority, Priority::Optional);
    assert!(matches!(s.status, Status::Stopped));
    assert!(!s.is_available());
}

#[test]
fn available_only_when_started() {
    let mut s = info(1, "a");
    s.set_status(Status::Started);
    assert!(s.is_available());
    s.set_status(Status::Stopping);
    assert!(!s.is_available());
}

#[test]
fn set_status_reports_change() {
    let mut s = info(1, "a");
    assert!(!s.set_status(Status::Stopped));
    assert!(s.set_status(Status::Starting));
    assert!(matches!(s.status, Status::Starting));
}

#[test]
fn set_status_keeps_message_of_same_variant() {
    let mut s = info(1, "a");
    assert!(s.set_status(Status::FailedToStart("first".to_string())));
    assert!(!s.set_status(Status::FailedToStart("second".to_string())));
    match &s.status {
        Status::FailedToStart(m) => assert_eq!(m, "first"),
        _ => panic!("unexpected status"),
    }
}

#[test]
fn status_event_name_uses_type_label() {
    let s = info(1, "a");
    assert_eq!(s.status_event_name(), "Dummy::status_change");
}

#[test]
fn services_are_equal_by_type() {
    assert!(info(1, "a") == info(1, "b"));
    assert!(info(1, "a") != info(2, "a"));
}

#[test]
fn services_are_ordered_by_name() {
    assert_eq!(info(1, "alpha").cmp(&info(2, "beta")), Ordering::Less);
    assert_eq!(info(1, "beta").cmp(&info(2, "alpha")), Ordering::Greater);
    assert_eq!(info(1, "same").cmp(&info(2, "same")), Ordering::Equal);
    assert_eq!(info(1, "ab").cmp(&info(2, "abc")), Ordering::Less);
    assert_eq!(info(1, "b").partial_cmp(&info(2, "a")), Some(Ordering::Greater));
    assert!(info(1, "a") < info(2, "b"));
}
