use dravr_tronc::error::{
    ErrorResponse, HEADER_MISMATCH, INTERNAL_ERROR, INVALID_PARAMS, INVALID_REQUEST,
    METHOD_NOT_FOUND, MISSING_REQUIRED_CLIENT_CAPABILITY, PARSE_ERROR,
    UNSUPPORTED_PROTOCOL_VERSION,
};
use dravr_tronc::json::Json;

fn text_at(json: &Json, path: &[&str]) -> String {
    let mut here = json;
    for key in path {
        here = here.get(key).expect("member");
    }
    here.as_str().expect("string").to_owned()
}

#[test]
fn error_response_serializes_correctly() {
    let resp = ErrorResponse::new("test_error", "something broke");
    let json = resp.to_json();
    assert_eq!(text_at(&json, &["error", "type"]), "test_error");
    assert_eq!(text_at(&json, &["error", "message"]), "something broke");
}

#[test]
fn error_codes_match_json_rpc_spec() {
    assert_eq!(PARSE_ERROR, -32_700);
    assert_eq!(INVALID_REQUEST, -32_600);
    assert_eq!(METHOD_NOT_FOUND, -32_601);
    assert_eq!(INVALID_PARAMS, -32_602);
    assert_eq!(INTERNAL_ERROR, -32_603);
}

#[test]
fn reserved_codes_lie_in_the_reserved_band() {
    assert_eq!(HEADER_MISMATCH, -32_020);
    assert_eq!(MISSING_REQUIRED_CLIENT_CAPABILITY, -32_021);
    assert_eq!(UNSUPPORTED_PROTOCOL_VERSION, -32_022);
}

#[test]
fn error_response_debug_impl() {
    let resp = ErrorResponse::new("auth", "denied");
    let debug = format!("{resp:?}");
    assert!(debug.contains("auth"));
    assert!(debug.contains("denied"));
}

#[test]
fn error_response_structure() {
    let resp = ErrorResponse::new("quota_exceeded", "daily limit reached");
    let json = resp.to_json();
    assert_eq!(text_at(&json, &["error", "type"]), "quota_exceeded");
    assert_eq!(text_at(&json, &["error", "message"]), "daily limit reached");
}
