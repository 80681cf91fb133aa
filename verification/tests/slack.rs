use dravr_tronc::http_client::{Cause, RequestFailure};
use dravr_tronc::json::Json;
use dravr_tronc::notifications::config::SlackConfig;
use dravr_tronc::notifications::slack::{
    is_misconfigured_target, log_delivery_failure, read_slack_reply, Severity, SignatureError,
    SlackClient, SlackReply, SlackResult, SLACK_MISCONFIGURED_TARGET_ERRORS,
};
use ring::hmac;

fn client(secret: Option<&str>) -> SlackClient {
    SlackClient::new(&SlackConfig {
        bot_token: "xoxb-test".into(),
        error_channel: "#errors".into(),
        signing_secret: secret.map(|secret| secret.to_owned()),
    })
}

fn signature(secret: &str, timestamp: &str, body: &[u8]) -> String {
    let basestring = format!(
        "v0:{timestamp}:{}",
        std::str::from_utf8(body).expect("test body is valid UTF-8")
    );
    let key = hmac::Key::new(hmac::HMAC_SHA256, secret.as_bytes());
    let tag = hmac::sign(&key, basestring.as_bytes());
    format!("v0={}", hex::encode(tag.as_ref()))
}

fn failure(words: &str) -> RequestFailure {
    RequestFailure {
        failure: words.to_owned(),
        causes: vec![
            Cause { text: "for url (https://secret)".to_owned(), is_request_error: true },
            Cause { text: "connection refused".to_owned(), is_request_error: false },
        ],
    }
}

#[test]
fn renamed_channel_is_a_misconfigured_target() {
    assert!(is_misconfigured_target("channel_not_found"));
}

#[test]
fn operator_actionable_slack_errors_are_misconfigured_targets() {
    for code in [
        "channel_not_found",
        "is_archived",
        "not_in_channel",
        "invalid_auth",
        "not_authed",
        "account_inactive",
        "token_revoked",
        "missing_scope",
        "restricted_action",
    ] {
        assert!(is_misconfigured_target(code), "{code} must escalate to ERROR");
    }
    assert_eq!(SLACK_MISCONFIGURED_TARGET_ERRORS.len(), 9);
}

#[test]
fn transient_slack_errors_are_not_misconfigured_targets() {
    for code in [
        "ratelimited",
        "service_unavailable",
        "request_timeout",
        "fatal_error",
        "internal_error",
        "",
    ] {
        assert!(!is_misconfigured_target(code), "{code} must stay at WARN");
    }
}

#[test]
fn signature_error_display() {
    assert_eq!(
        SignatureError::MissingHeader("x-slack-request-timestamp").message(),
        "missing header: x-slack-request-timestamp"
    );
    assert_eq!(SignatureError::TimestampExpired(600).message(), "timestamp too old (600s)");
    assert_eq!(SignatureError::InvalidSignature.message(), "invalid HMAC signature");
    assert_eq!(SignatureError::NotConfigured.message(), "signing secret not configured");
}

#[test]
fn verify_signature_rejects_without_secret() {
    let result = client(None).verify_signature("1234567890", "v0=abc", b"body");
    assert!(matches!(result, Err(SignatureError::NotConfigured)));
}

#[test]
fn verify_signature_validates_correctly() {
    let secret = "test_signing_secret";
    let timestamp = "1234567890";
    let body = b"test_body";
    let signature = signature(secret, timestamp, body);
    let result = client(Some(secret)).verify_signature(timestamp, &signature, body);
    assert!(matches!(result, Err(SignatureError::TimestampExpired(_))));
}

#[test]
fn verify_signature_accepts_valid_with_fresh_timestamp() {
    let secret = "test_signing_secret";
    let now = chrono::Utc::now().timestamp().to_string();
    let body = b"payload=hello";
    let signature = signature(secret, &now, body);
    let result = client(Some(secret)).verify_signature(&now, &signature, body);
    assert!(result.is_ok());
}

#[test]
fn verify_signature_rejects_bad_signature() {
    let now = chrono::Utc::now().timestamp().to_string();
    let result = client(Some("secret")).verify_signature(&now, "v0=badhash", b"body");
    assert!(matches!(result, Err(SignatureError::InvalidSignature)));
}

#[test]
fn a_signature_is_good_for_five_minutes() {
    let client = client(Some("s"));
    let signed = signature("s", "1000", b"body");
    assert!(client.verify_signature_at("1000", &signed, b"body", 1300).is_ok());
    assert!(client.verify_signature_at("1000", &signed, b"body", 700).is_ok());
    assert!(matches!(
        client.verify_signature_at("1000", &signed, b"body", 1301),
        Err(SignatureError::TimestampExpired(301))
    ));
    assert!(matches!(
        client.verify_signature_at("1000", &signed, b"body2", 1000),
        Err(SignatureError::InvalidSignature)
    ));
    assert!(matches!(
        client.verify_signature_at("soon", &signed, b"body", 1000),
        Err(SignatureError::MissingHeader("x-slack-request-timestamp"))
    ));
    assert!(matches!(
        client.verify_signature_at("1000", &signed, &[0xff, 0xfe], 1000),
        Err(SignatureError::InvalidSignature)
    ));
    let empty = signature("s", "1000", b"");
    assert!(client.verify_signature_at("1000", &empty, b"", 1000).is_ok());
    assert!(matches!(
        client.verify_signature_at("1000", &empty, &[0xff, 0xfe], 1000),
        Err(SignatureError::InvalidSignature)
    ));
    let key = hmac::Key::new(hmac::HMAC_SHA256, b"s");
    let tag = hmac::sign(&key, b"v0:1000:\xff\xfe");
    let raw = format!("v0={}", hex::encode(tag.as_ref()));
    assert!(client.verify_signature_at("1000", &raw, &[0xff, 0xfe], 1000).is_ok());
}

#[test]
fn calls_carry_their_channel_and_blocks() {
    let client = client(None);
    assert_eq!(client.authorization(), "Bearer xoxb-test");
    let call = client.post_message("#c", Json::array(vec![]));
    assert_eq!(call.url, "https://slack.com/api/chat.postMessage");
    assert_eq!(call.payload.get("channel"), Some(&Json::text("#c")));
    let call = client.update_message("#c", "17.5", Json::array(vec![]));
    assert_eq!(call.url, "https://slack.com/api/chat.update");
    assert_eq!(call.payload.get("ts"), Some(&Json::text("17.5")));
    assert_eq!(call.payload.get("blocks"), Some(&Json::array(vec![])));
}

#[test]
fn replies_are_read_by_their_status_and_body() {
    let answer = |status: u16, body: Result<&str, &str>| {
        read_slack_reply(SlackReply::Answered {
            status,
            status_text: format!("{status} Text"),
            body: match body {
                Ok(text) => Ok(text.as_bytes().to_vec()),
                Err(why) => Err(failure(why)),
            },
        })
    };
    assert!(matches!(answer(200, Ok(r#"{"ok":true}"#)), SlackResult::Delivered));
    match answer(200, Ok(r#"{"ok":false,"error":"is_archived"}"#)) {
        SlackResult::ApiError(error) => {
            assert_eq!(error, "is_archived");
            assert_eq!(log_delivery_failure(&SlackResult::ApiError(error)), Severity::Error);
        }
        other => panic!("{other:?}"),
    }
    assert!(matches!(answer(200, Ok("{}")), SlackResult::ApiError(error) if error == "unknown"));
    assert!(matches!(answer(500, Ok("{}")), SlackResult::HttpError(why) if why == "HTTP 500 Text"));
    assert!(matches!(
        answer(200, Err("eof")),
        SlackResult::HttpError(why) if why == "response parse: eof: connection refused"
    ));
    assert!(matches!(
        answer(200, Ok("{")),
        SlackResult::HttpError(why) if why.starts_with("response parse: error decoding response body: EOF")
    ));
    let lost = read_slack_reply(SlackReply::Failed(failure("lost")));
    match &lost {
        SlackResult::HttpError(why) => assert_eq!(why, "lost: connection refused"),
        other => panic!("{other:?}"),
    }
    assert_eq!(log_delivery_failure(&lost), Severity::Warn);
    assert_eq!(log_delivery_failure(&SlackResult::Delivered), Severity::Silent);
    let limited = SlackResult::ApiError("ratelimited".to_owned());
    assert_eq!(log_delivery_failure(&limited), Severity::Warn);
}
