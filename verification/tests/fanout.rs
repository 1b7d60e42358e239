use sirius::fanout::{aggregate_outcomes, propagate, MyIam, PropagationRequest};
use sirius::namespace::Mode;
use sirius::value::JsonValue;

fn request(target: &str, resource: &str) -> PropagationRequest {
    PropagationRequest {
        target_id: target.to_string(),
        permission_type: "user".to_string(),
        resource_id: resource.to_string(),
        value: JsonValue::Str("contributor".to_string()),
        mode: Mode::Meta,
    }
}

#[test]
fn propagate_reports_the_failing_item_and_reaches_every_sibling() {
    let mut service = MyIam::failing_on("r2".to_string());
    let batch = vec![request("u1", "r1"), request("u2", "r2"), request("u3", "r3")];
    let result = propagate(&mut service, &batch);
    // every call reached the service, the failure included
    assert_eq!(service.log.len(), 3);
    assert_eq!(service.log[0].resource_id, "r1");
    assert_eq!(service.log[1].resource_id, "r2");
    assert_eq!(service.log[2].resource_id, "r3");
    // the reported error is the failing item's
    assert_eq!(result.unwrap_err(), "permission denied: r2");
}

#[test]
fn propagate_succeeds_when_every_call_succeeds() {
    let mut service = MyIam::new();
    let batch = vec![request("u1", "r1"), request("u2", "r2")];
    assert!(propagate(&mut service, &batch).is_ok());
    assert_eq!(service.log.len(), 2);
}

#[test]
fn propagate_reports_the_first_of_several_failures() {
    let mut service = MyIam::failing_on("bad".to_string());
    let batch = vec![request("u1", "ok"), request("u2", "bad"), request("u3", "bad")];
    let result = propagate(&mut service, &batch);
    assert_eq!(service.log.len(), 3);
    assert_eq!(result.unwrap_err(), "permission denied: bad");
}

#[test]
fn add_permission_records_a_refused_request_too() {
    let mut service = MyIam::failing_on("r9".to_string());
    let outcome = service.add_permission(request("u1", "r9"));
    assert!(outcome.is_err());
    assert_eq!(service.log.len(), 1);
    let outcome = service.replace_permission(request("u1", "r1"));
    assert!(outcome.is_ok());
    let outcome = service.remove_permission(request("u1", "r1"));
    assert!(outcome.is_ok());
    assert_eq!(service.log.len(), 3);
}

#[test]
fn aggregate_outcomes_is_ok_only_when_all_are() {
    let all_ok: Vec<Result<(), String>> = vec![Ok(()), Ok(())];
    assert!(aggregate_outcomes(&all_ok).is_ok());
    let none: Vec<Result<(), String>> = Vec::new();
    assert!(aggregate_outcomes(&none).is_ok());
}

#[test]
fn aggregate_outcomes_returns_the_first_error() {
    let outcomes: Vec<Result<(), String>> = vec![
        Ok(()),
        Err("second failed".to_string()),
        Err("third failed".to_string()),
    ];
    assert_eq!(aggregate_outcomes(&outcomes).unwrap_err(), "second failed");
}
