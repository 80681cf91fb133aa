use dravr_tronc::json::Json;
use dravr_tronc::server::health::HealthResponse;

#[test]
fn ok_response() {
    let resp = HealthResponse::ok("test-service", "1.0.0");
    assert_eq!(resp.status, "ok");
    assert_eq!(resp.service, "test-service");
    assert_eq!(resp.version, "1.0.0");
    assert!(resp.details.is_empty());
    assert_eq!(resp.status_code(), 200);
}

#[test]
fn degraded_response() {
    let resp = HealthResponse::degraded("test-service", "1.0.0");
    assert_eq!(resp.status, "degraded");
    assert_eq!(resp.status_code(), 503);
}

#[test]
fn with_details() {
    let resp = HealthResponse::ok("svc", "1.0")
        .with_detail("db", "connected")
        .with_detail("cache", "warm");
    assert_eq!(resp.details.len(), 2);
    assert_eq!(resp.details.get("db"), Some("connected"));
    assert_eq!(resp.details.get("cache"), Some("warm"));
}

#[test]
fn ok_serializes_without_empty_details() {
    let resp = HealthResponse::ok("svc", "1.0");
    let json = resp.to_json();
    assert!(json.get("details").is_none());
}

#[test]
fn ok_serializes_with_details_when_present() {
    let resp = HealthResponse::ok("svc", "1.0").with_detail("key", "val");
    let json = resp.to_json();
    let details = json.get("details").expect("details");
    assert_eq!(details.get("key"), Some(&Json::text("val")));
}

#[test]
fn degraded_serializes_correctly() {
    let resp = HealthResponse::degraded("svc", "1.0");
    let json = resp.to_json();
    assert_eq!(json.get("status"), Some(&Json::text("degraded")));
    assert_eq!(json.get("service"), Some(&Json::text("svc")));
}

#[test]
fn health_response_builder_chain() {
    let resp = HealthResponse::ok("my-service", "2.0.0")
        .with_detail("strava", "connected")
        .with_detail("garmin", "disconnected");
    assert_eq!(resp.status, "ok");
    assert_eq!(resp.service, "my-service");
    assert_eq!(resp.version, "2.0.0");
    assert_eq!(resp.details.len(), 2);
    assert_eq!(resp.details.get("strava"), Some("connected"));
}

#[test]
fn a_detail_given_twice_keeps_the_last_value_in_its_place() {
    let resp = HealthResponse::ok("svc", "1.0")
        .with_detail("a", "1")
        .with_detail("b", "2")
        .with_detail("a", "3");
    assert_eq!(resp.details.len(), 2);
    assert_eq!(resp.details.key_at(0), "a");
    assert_eq!(resp.details.value_at(0), "3");
    assert_eq!(resp.details.get("c"), None);
}
