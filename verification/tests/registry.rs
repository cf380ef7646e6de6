use grpc_health::error::HealthError;
use grpc_health::event::ChangeEvent;
use grpc_health::health_check::HealthCheckService;
use grpc_health::registry::Registry;
use grpc_health::status::{HealthCheckResponse, ServingStatus};

fn log_of(service: &HealthCheckService) -> Vec<(String, ServingStatus)> {
    let log = service.broadcaster();
    let mut events = Vec::new();
    for position in 0..log.len() {
        let event = log.event(position);
        events.push((event.service.clone(), event.status));
    }
    events
}

fn status_of(service: &HealthCheckService, name: &str) -> Result<ServingStatus, HealthError> {
    service.check(name).map(|response| response.status)
}

#[test]
fn fresh_service_serves_the_empty_name() {
    let service = HealthCheckService::new();
    assert_eq!(service.check(""), Ok(HealthCheckResponse { status: ServingStatus::Serving }));
    assert_eq!(service.check("x"), Err(HealthError::NotFound));
    assert_eq!(service.check(" "), Err(HealthError::NotFound));
    assert!(log_of(&service).is_empty());
}

#[test]
fn first_write_registers_and_publishes() {
    let mut service = HealthCheckService::new();
    assert_eq!(service.set_status("x", ServingStatus::NotServing), Ok(()));
    assert_eq!(status_of(&service, "x"), Ok(ServingStatus::NotServing));
    assert_eq!(status_of(&service, ""), Ok(ServingStatus::Serving));
    assert_eq!(log_of(&service), vec![("x".to_string(), ServingStatus::NotServing)]);
}

#[test]
fn same_status_twice_publishes_once() {
    let mut service = HealthCheckService::new();
    assert_eq!(service.set_status("x", ServingStatus::Serving), Ok(()));
    assert_eq!(service.set_status("x", ServingStatus::Serving), Ok(()));
    assert_eq!(log_of(&service), vec![("x".to_string(), ServingStatus::Serving)]);
    assert_eq!(status_of(&service, "x"), Ok(ServingStatus::Serving));
}

#[test]
fn confirming_the_initial_status_publishes_nothing() {
    let mut service = HealthCheckService::new();
    assert_eq!(service.set_status("", ServingStatus::Serving), Ok(()));
    assert!(log_of(&service).is_empty());
    assert_eq!(service.set_status("", ServingStatus::NotServing), Ok(()));
    assert_eq!(log_of(&service), vec![(String::new(), ServingStatus::NotServing)]);
    assert_eq!(status_of(&service, ""), Ok(ServingStatus::NotServing));
}

#[test]
fn two_statuses_publish_two_events_in_order() {
    let mut service = HealthCheckService::new();
    assert_eq!(service.set_status("x", ServingStatus::Serving), Ok(()));
    assert_eq!(service.set_status("x", ServingStatus::NotServing), Ok(()));
    assert_eq!(
        log_of(&service),
        vec![
            ("x".to_string(), ServingStatus::Serving),
            ("x".to_string(), ServingStatus::NotServing),
        ]
    );
    assert_eq!(status_of(&service, "x"), Ok(ServingStatus::NotServing));
}

#[test]
fn returning_to_an_earlier_status_publishes_again() {
    let mut service = HealthCheckService::new();
    service.set_status("x", ServingStatus::Serving).unwrap();
    service.set_status("x", ServingStatus::NotServing).unwrap();
    service.set_status("x", ServingStatus::Serving).unwrap();
    assert_eq!(log_of(&service).len(), 3);
    assert_eq!(log_of(&service)[2], ("x".to_string(), ServingStatus::Serving));
}

#[test]
fn every_status_is_stored_as_written() {
    let mut service = HealthCheckService::new();
    service.set_status("u", ServingStatus::Unknown).unwrap();
    service.set_status("s", ServingStatus::ServiceUnknown).unwrap();
    assert_eq!(status_of(&service, "u"), Ok(ServingStatus::Unknown));
    assert_eq!(status_of(&service, "s"), Ok(ServingStatus::ServiceUnknown));
    assert_eq!(
        log_of(&service),
        vec![
            ("u".to_string(), ServingStatus::Unknown),
            ("s".to_string(), ServingStatus::ServiceUnknown),
        ]
    );
}

#[test]
fn names_are_told_apart_exactly() {
    let mut service = HealthCheckService::new();
    service.set_status("svc", ServingStatus::Serving).unwrap();
    assert_eq!(service.check("Svc"), Err(HealthError::NotFound));
    assert_eq!(service.check("svc "), Err(HealthError::NotFound));
    assert_eq!(service.check("sv"), Err(HealthError::NotFound));
    assert_eq!(status_of(&service, "svc"), Ok(ServingStatus::Serving));
}

#[test]
fn shutdown_publishes_only_for_services_that_change() {
    let mut service = HealthCheckService::new();
    service.set_status("a", ServingStatus::NotServing).unwrap();
    service.set_status("b", ServingStatus::Serving).unwrap();
    let before = log_of(&service).len();
    assert_eq!(service.shutdown(), Ok(()));
    let log = log_of(&service);
    assert_eq!(
        log[before..].to_vec(),
        vec![
            (String::new(), ServingStatus::NotServing),
            ("b".to_string(), ServingStatus::NotServing),
        ]
    );
    assert_eq!(status_of(&service, ""), Ok(ServingStatus::NotServing));
    assert_eq!(status_of(&service, "a"), Ok(ServingStatus::NotServing));
    assert_eq!(status_of(&service, "b"), Ok(ServingStatus::NotServing));
}

#[test]
fn shutdown_of_a_fresh_service_retires_the_server() {
    let mut service = HealthCheckService::new();
    assert_eq!(service.shutdown(), Ok(()));
    assert_eq!(log_of(&service), vec![(String::new(), ServingStatus::NotServing)]);
    assert_eq!(status_of(&service, ""), Ok(ServingStatus::NotServing));
    assert_eq!(service.check("x"), Err(HealthError::NotFound));
}

#[test]
fn second_shutdown_publishes_nothing() {
    let mut service = HealthCheckService::new();
    service.set_status("a", ServingStatus::Unknown).unwrap();
    service.shutdown().unwrap();
    let after_first = log_of(&service);
    service.shutdown().unwrap();
    assert_eq!(log_of(&service), after_first);
    assert_eq!(after_first.len(), 3);
}

#[test]
fn shutdown_walks_services_in_registration_order() {
    let mut service = HealthCheckService::new();
    service.set_status("z", ServingStatus::Serving).unwrap();
    service.set_status("m", ServingStatus::Unknown).unwrap();
    service.set_status("a", ServingStatus::ServiceUnknown).unwrap();
    service.set_status("z", ServingStatus::Unknown).unwrap();
    let before = log_of(&service).len();
    service.shutdown().unwrap();
    let names: Vec<String> = log_of(&service)[before..].iter().map(|event| event.0.clone()).collect();
    assert_eq!(names, vec!["".to_string(), "z".to_string(), "m".to_string(), "a".to_string()]);
}

#[test]
fn a_service_can_serve_again_after_shutdown() {
    let mut service = HealthCheckService::new();
    service.shutdown().unwrap();
    service.set_status("", ServingStatus::Serving).unwrap();
    assert_eq!(status_of(&service, ""), Ok(ServingStatus::Serving));
    assert_eq!(log_of(&service).len(), 2);
}

#[test]
fn writes_for_distinct_names_land_in_any_order() {
    let writes = vec![
        ("a", ServingStatus::Serving),
        ("b", ServingStatus::NotServing),
        ("c", ServingStatus::Unknown),
        ("d", ServingStatus::ServiceUnknown),
        ("e", ServingStatus::Serving),
    ];
    let mut forward = HealthCheckService::new();
    for (name, status) in writes.iter() {
        forward.set_status(name, *status).unwrap();
    }
    let mut backward = HealthCheckService::new();
    for (name, status) in writes.iter().rev() {
        backward.set_status(name, *status).unwrap();
    }
    for (name, status) in writes.iter() {
        assert_eq!(status_of(&forward, name), Ok(*status));
        assert_eq!(status_of(&backward, name), Ok(*status));
    }
    assert_eq!(status_of(&forward, ""), Ok(ServingStatus::Serving));
    assert_eq!(log_of(&forward).len(), writes.len());
    assert_eq!(log_of(&backward).len(), writes.len());
    let expected: Vec<(String, ServingStatus)> =
        writes.iter().map(|(name, status)| (name.to_string(), *status)).collect();
    assert_eq!(log_of(&forward), expected);
}

#[test]
fn status_codes_are_the_wire_numbers() {
    assert_eq!(ServingStatus::Unknown.code(), 0);
    assert_eq!(ServingStatus::Serving.code(), 1);
    assert_eq!(ServingStatus::NotServing.code(), 2);
    assert_eq!(ServingStatus::ServiceUnknown.code(), 3);
}

#[test]
fn registry_reports_transitions() {
    let mut registry = Registry::new();
    assert_eq!(registry.get(""), Some(ServingStatus::Serving));
    assert_eq!(registry.get("x"), None);
    assert!(registry.set("x", ServingStatus::Serving));
    assert!(!registry.set("x", ServingStatus::Serving));
    assert!(registry.set("x", ServingStatus::Unknown));
    assert!(!registry.set("", ServingStatus::Serving));
    assert_eq!(registry.get("x"), Some(ServingStatus::Unknown));
}

#[test]
fn registry_shutdown_returns_its_events() {
    let mut registry = Registry::new();
    registry.set("a", ServingStatus::NotServing);
    registry.set("b", ServingStatus::Unknown);
    let events = registry.shutdown();
    assert_eq!(
        events,
        vec![
            ChangeEvent::new("", ServingStatus::NotServing),
            ChangeEvent::new("b", ServingStatus::NotServing),
        ]
    );
    assert_eq!(registry.get(""), Some(ServingStatus::NotServing));
    assert_eq!(registry.get("a"), Some(ServingStatus::NotServing));
    assert_eq!(registry.get("b"), Some(ServingStatus::NotServing));
    assert!(registry.shutdown().is_empty());
}

#[test]
fn a_copied_event_equals_its_source() {
    let event = ChangeEvent::new("svc", ServingStatus::NotServing);
    let copy = event.clone();
    assert_eq!(copy, event);
    assert_eq!(copy.service, "svc");
    assert_eq!(copy.status, ServingStatus::NotServing);
}
