use dravr_tronc::error::{INVALID_REQUEST, PARSE_ERROR};
use dravr_tronc::json::{Json, Number};
use dravr_tronc::mcp::protocol::{redact, JsonRpcError, JsonRpcRequest, JsonRpcResponse};

fn json(text: &str) -> Json {
    Json::parse(text).expect("json")
}

fn request(text: &str) -> JsonRpcRequest {
    match JsonRpcRequest::from_json(&json(text)) {
        Ok(request) => request,
        Err(words) => panic!("deserialize: {words}"),
    }
}

#[test]
fn serialize_success_response() {
    let resp = JsonRpcResponse::success(Some(Json::unsigned(1)), json(r#"{"ok": true}"#));
    let json = resp.to_json();
    assert!(json.get("result").is_some());
    assert!(json.get("error").is_none());
}

#[test]
fn serialize_error_response() {
    let resp = JsonRpcResponse::error(Some(Json::unsigned(1)), PARSE_ERROR, "bad json");
    let json = resp.to_json();
    let error = json.get("error").expect("error");
    assert_eq!(error.get("code"), Some(&Json::signed(-32700)));
    assert!(json.get("result").is_none());
}

#[test]
fn error_with_data_carries_payload() {
    let resp = JsonRpcResponse::error_with_data(
        Some(Json::unsigned(1)),
        -32_004,
        "unsupported version",
        json(r#"{"supported": ["2025-11-25"]}"#),
    );
    let err = resp.error.expect("error");
    assert_eq!(err.code, -32_004);
    let data = err.data.expect("data");
    match data.get("supported") {
        Some(Json::Array(versions)) => assert_eq!(versions[0].as_str(), Some("2025-11-25")),
        other => panic!("supported was {other:?}"),
    }
}

#[test]
fn deserialize_request_with_params() {
    let raw = r#"{"jsonrpc":"2.0","id":1,"method":"tools/call","params":{"name":"test"}}"#;
    let req = request(raw);
    assert_eq!(req.method, "tools/call");
    assert!(req.params.is_some());
}

#[test]
fn deserialize_request_without_params() {
    let raw = r#"{"jsonrpc":"2.0","id":1,"method":"tools/list"}"#;
    let req = request(raw);
    assert_eq!(req.method, "tools/list");
    assert!(req.params.is_none());
}

#[test]
fn deserialize_notification_has_no_id() {
    let raw = r#"{"jsonrpc":"2.0","method":"notifications/cancelled"}"#;
    let req = request(raw);
    assert!(req.id.is_none());
}

#[test]
fn debug_redacts_long_auth_token() {
    let mut req = JsonRpcRequest::new("ping", None);
    req.auth_token = Some("abcdefghij_secret_middle_part_klmnopqr".to_owned());
    let debug = req.redacted_auth().expect("a token");
    assert!(!debug.contains("secret_middle_part"));
    assert!(debug.contains("..."));
}

#[test]
fn redaction_counts_characters_and_hides_short_tokens() {
    assert_eq!(redact("abcdefghij_secret_middle_part_klmnopqr"), "abcdefghij...klmnopqr");
    assert_eq!(redact("twenty_characters_20"), "[REDACTED]");
    assert_eq!(redact("twenty_one_characters"), "twenty_one...aracters");
    assert_eq!(redact("ééééééééééxxxxèèèèèèèè"), "éééééééééé...èèèèèèèè");
}

#[test]
fn success_response_omits_error_field() {
    let resp = JsonRpcResponse::success(Some(Json::unsigned(1)), Json::Null);
    let json = resp.to_json();
    assert!(json.get("error").is_none());
    assert!(json.get("result").is_some());
}

#[test]
fn error_response_omits_result_field() {
    let resp = JsonRpcResponse::error(Some(Json::unsigned(1)), -1, "fail");
    let json = resp.to_json();
    assert!(json.get("result").is_none());
    assert!(json.get("error").is_some());
}

#[test]
fn is_success_and_is_error_are_exclusive() {
    let ok = JsonRpcResponse::success(None, Json::Null);
    assert!(ok.is_success());
    assert!(!ok.is_error());

    let err = JsonRpcResponse::error(None, -32_603, "x");
    assert!(err.is_error());
    assert!(!err.is_success());
}

#[test]
fn an_absent_response_id_is_null_on_the_wire() {
    let json = JsonRpcResponse::success(None, Json::Bool(true)).to_json();
    assert_eq!(json.get("id"), Some(&Json::Null));
    let error = JsonRpcError::with_data(7, "words", Json::Null);
    assert_eq!(error.to_json().get("data"), Some(&Json::Null));
    assert!(JsonRpcError::new(7, "words").to_json().get("data").is_none());
}

#[test]
fn constructors_set_the_id() {
    assert_eq!(JsonRpcRequest::new("m", None).id, Some(Json::unsigned(1)));
    assert_eq!(JsonRpcRequest::with_id("m", None, Json::text("a")).id, Some(Json::text("a")));
    assert_eq!(JsonRpcRequest::notification("m", None).id, None);
    let req = JsonRpcRequest::new("m", None).with_metadata("k", "v").with_metadata("k", "w");
    assert_eq!(req.get_metadata("k"), Some("w"));
    assert_eq!(req.get_metadata("other"), None);
}

#[test]
fn a_request_reads_back_as_it_was_written() {
    let raw = r#"{"jsonrpc":"2.0","id":"a","method":"m","params":[1],"auth":"t",
                  "headers":{"h":1},"metadata":{"x":"1","y":"2"}}"#;
    let first = request(raw);
    let again = match JsonRpcRequest::from_json(&first.to_json()) {
        Ok(again) => again,
        Err(words) => panic!("{words}"),
    };
    assert_eq!(again.jsonrpc, "2.0");
    assert_eq!(again.method, "m");
    assert_eq!(again.id, Some(Json::text("a")));
    assert_eq!(again.params, first.params);
    assert_eq!(again.auth_token.as_deref(), Some("t"));
    assert_eq!(again.headers, first.headers);
    assert_eq!(again.get_metadata("x"), Some("1"));
    assert_eq!(again.get_metadata("y"), Some("2"));
}

#[test]
fn what_is_no_request_is_refused_in_words() {
    let refused = |text: &str| match JsonRpcRequest::from_json(&json(text)) {
        Ok(_) => panic!("{text} is no request"),
        Err(words) => words,
    };
    assert_eq!(refused(r#"{"method":"m"}"#), "missing field `jsonrpc`");
    assert_eq!(refused(r#"{"jsonrpc":"2.0"}"#), "missing field `method`");
    assert_eq!(
        refused(r#"{"jsonrpc":2,"method":"m"}"#),
        "invalid type: integer `2`, expected a string"
    );
    assert_eq!(
        refused(r#"{"jsonrpc":"2.0","method":"m","headers":"a\"b"}"#),
        r#"invalid type: string "a\"b", expected a map"#
    );
    assert_eq!(
        refused(r#"{"jsonrpc":"2.0","method":"m","metadata":{"a":-1}}"#),
        "invalid type: integer `-1`, expected a string"
    );
    assert_eq!(refused("1.5"), "invalid type: floating point `1.5`, expected struct JsonRpcRequest");
    assert_eq!(refused("true"), "invalid type: boolean `true`, expected struct JsonRpcRequest");
    assert_eq!(refused("null"), "invalid type: null, expected struct JsonRpcRequest");
    assert_eq!(
        refused(r#"["2.0","m"]"#),
        "invalid length 2, expected struct JsonRpcRequest with 7 elements"
    );
    assert_eq!(
        refused(r#"["2.0","m",null,1,null,null,{},0]"#),
        "invalid length 8, expected fewer elements in array"
    );
}

#[test]
fn a_posted_body_must_be_a_request() {
    let refusal = |body: &str| match JsonRpcRequest::parse(body) {
        Ok(_) => panic!("{body} must be refused"),
        Err(refusal) => *refusal,
    };
    let not_json = refusal("not json");
    assert_eq!(not_json.error.expect("error").code, PARSE_ERROR);
    for body in [
        r#"{"jsonrpc":"2.0","id":1,"result":{}}"#,
        r#"[{"jsonrpc":"2.0","id":1,"method":"ping"}]"#,
        r#"{"jsonrpc":"2.0","id":null,"method":"ping"}"#,
        r#"{"jsonrpc":"2.0","id":{},"method":"ping"}"#,
        r#"{"jsonrpc":"2.0","id":1.5,"method":"ping"}"#,
    ] {
        let refused = refusal(body);
        assert_eq!(refused.id, None, "{body}");
        assert_eq!(refused.error.expect("error").code, INVALID_REQUEST, "{body}");
    }
}

#[test]
fn a_posted_body_carries_no_credential() {
    let body = r#"{"jsonrpc":"2.0","id":-3,"method":"ping","auth":"stolen"}"#;
    let request = match JsonRpcRequest::parse(body) {
        Ok(request) => request,
        Err(refusal) => panic!("{refusal:?}"),
    };
    assert_eq!(request.auth_token, None);
    assert_eq!(request.id, Some(Json::Number(Number::Negative(-3))));
}

#[test]
fn documents_are_read_by_serde_json() {
    assert_eq!(json("[1, -2, 1.5, \"é\", null]"), Json::Array(vec![
        Json::Number(Number::Unsigned(1)),
        Json::Number(Number::Negative(-2)),
        Json::Number(Number::Float("1.5".to_owned())),
        Json::text("é"),
        Json::Null,
    ]));
    assert!(Json::parse("{").is_err());
    assert_eq!(
        Json::from_value(serde_json::Value::Bool(true)),
        Json::Bool(true)
    );
}
