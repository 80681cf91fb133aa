use dravr_tronc::mcp::auth::{quote_escape, ApiKeyAuthHook, AuthError, API_KEY_AUTH_METHOD};
use dravr_tronc::mcp::protocol::JsonRpcRequest;
use dravr_tronc::json::Json;
use dravr_tronc::server::auth::{
    api_key_configured, bearer_credential, is_loopback_host, posture_notice, require_auth,
    resolve_startup_auth, startup_auth, Admission, AuthMode,
};

fn refusal(key: Option<&str>, header: Option<&str>) -> Option<String> {
    let admission = require_auth(key, header);
    match admission.status() {
        None => assert!(matches!(admission, Admission::Pass)),
        Some(status) => assert_eq!(status, 401),
    }
    match admission {
        Admission::Pass => None,
        Admission::Refuse(body) => {
            assert_eq!(body.error.error_type, "authentication_error");
            Some(body.error.message)
        }
    }
}

#[test]
fn no_env_allows_all_requests() {
    assert_eq!(refusal(None, None), None);
}

#[test]
fn empty_env_allows_all_requests() {
    assert_eq!(refusal(Some(""), None), None);
}

#[test]
fn valid_bearer_token_passes() {
    assert_eq!(refusal(Some("secret-key-123"), Some("Bearer secret-key-123")), None);
}

#[test]
fn invalid_bearer_token_returns_401() {
    let admission = require_auth(Some("secret-key-123"), Some("Bearer wrong-key"));
    assert_eq!(admission.status(), Some(401));
    match admission {
        Admission::Refuse(body) => assert_eq!(
            body.to_json().get("error").and_then(|error| error.get("type")),
            Some(&Json::text("authentication_error"))
        ),
        Admission::Pass => panic!("let through"),
    }
    assert_eq!(
        refusal(Some("secret-key-123"), Some("Bearer wrong-key")).as_deref(),
        Some("Invalid API key")
    );
}

#[test]
fn missing_header_returns_401() {
    assert_eq!(
        refusal(Some("secret-key-123"), None).as_deref(),
        Some("Missing Authorization header")
    );
}

#[test]
fn non_bearer_scheme_returns_401() {
    let message = refusal(Some("secret-key-123"), Some("Basic dXNlcjpwYXNz")).expect("refused");
    assert!(message.contains("Bearer"));
}

#[test]
fn lowercase_bearer_scheme_passes() {
    assert_eq!(refusal(Some("secret-key-123"), Some("bearer secret-key-123")), None);
}

#[test]
fn bearer_credential_reads_the_scheme_in_any_case() {
    for header in [
        "Bearer tok-1",
        "bearer tok-1",
        "BEARER tok-1",
        "BeArEr tok-1",
        "Bearer   tok-1",
    ] {
        assert_eq!(
            bearer_credential(header),
            Some("tok-1"),
            "{header:?} carries the credential tok-1"
        );
    }
}

#[test]
fn bearer_credential_refuses_other_schemes_and_empty_credentials() {
    for header in [
        "Basic dXNlcjpwYXNz",
        "Bearertok-1",
        "Bearer",
        "Bearer ",
        "Bearer    ",
        "tok-1",
        "",
    ] {
        assert_eq!(
            bearer_credential(header),
            None,
            "{header:?} must not read as a bearer credential"
        );
    }
}

#[test]
fn loopback_hosts_are_recognised() {
    for host in ["127.0.0.1", "127.1.2.3", "::1", "[::1]", "localhost", "LocalHost"] {
        assert!(is_loopback_host(host), "{host} should be loopback");
    }
}

#[test]
fn every_spelling_of_a_loopback_literal_is_recognised() {
    for host in [
        " 127.255.0.9 ",
        "0:0:0:0:0:0:0:1",
        "0000:0000:0000:0000:0000:0000:0000:0001",
        "0::1",
        "::0:1",
        "::0.0.0.1",
        "0:0:0:0:0:0:0.0.0.1",
        "[0::1]",
    ] {
        assert!(is_loopback_host(host), "{host} should be loopback");
    }
    for host in [
        "127.0.0.01",
        "127.0.0.256",
        "127.0.0",
        "127.0.0.1.1",
        "::2",
        ":::1",
        "1::",
        "::1::",
        "0:0:0:0:0:0:0:0:1",
        "::ffff:127.0.0.1",
        "00000::1",
        "::g",
        "[::1",
        "[127.0.0.1]",
        "[localhost]",
        "[[::1]]",
        "[]",
        "localhost.",
        "٣.0.0.1",
    ] {
        assert!(!is_loopback_host(host), "{host} should not be loopback");
    }
}

#[test]
fn anything_reachable_or_unparseable_is_not_loopback() {
    for host in ["0.0.0.0", "::", "192.168.1.10", "example.com", "", "   "] {
        assert!(!is_loopback_host(host), "{host:?} must not read as loopback");
    }
}

#[test]
fn a_reachable_bind_with_nothing_gating_it_is_refused() {
    let err = resolve_startup_auth("0.0.0.0", false)
        .expect_err("a reachable bind with no gate must be refused");
    assert_eq!(err.host, "0.0.0.0");
    let msg = err.message();
    assert!(msg.contains("refusing to start"), "message was {msg:?}");
    assert!(
        msg.contains("0.0.0.0"),
        "the message must name the bind that was refused; message was {msg:?}"
    );
}

#[test]
fn an_identity_gated_service_binds_a_reachable_host_holding_no_key() {
    assert!(!api_key_configured(None));
    assert_eq!(resolve_startup_auth("0.0.0.0", true), Ok(AuthMode::Enforced));
}

#[test]
fn loopback_without_a_gate_is_development_not_a_refusal() {
    assert_eq!(resolve_startup_auth("127.0.0.1", false), Ok(AuthMode::LoopbackDev));
}

#[test]
fn a_gate_enforces_on_every_host() {
    assert_eq!(resolve_startup_auth("0.0.0.0", true), Ok(AuthMode::Enforced));
    assert_eq!(resolve_startup_auth("127.0.0.1", true), Ok(AuthMode::Enforced));
}

#[test]
fn startup_auth_refuses_a_reachable_bind_and_names_the_key_to_set() {
    const ENV: &str = "TRONC_STARTUP_AUTH_TEST_REFUSED";
    let err = startup_auth(ENV, None, "0.0.0.0")
        .expect_err("no key on a reachable bind must be refused");
    assert_eq!(err.host, "0.0.0.0");
    assert_eq!(err.gate.as_deref(), Some(ENV));
    let msg = err.message();
    assert!(
        msg.contains(&format!("Set {ENV}")),
        "the refusal must name the variable to set; message was {msg:?}"
    );
}

#[test]
fn startup_auth_enforces_when_the_key_is_set_and_says_so() {
    const ENV: &str = "TRONC_STARTUP_AUTH_TEST_ENFORCED";
    let mode = startup_auth(ENV, Some("k-123"), "0.0.0.0");
    assert_eq!(mode, Ok(AuthMode::Enforced));
    let notice = posture_notice(ENV, AuthMode::Enforced);
    assert!(!notice.warning);
    assert!(notice.text.contains(&format!("{ENV} set")));
    assert!(!notice.text.contains("k-123"), "the key's value must never be logged");
}

#[test]
fn startup_auth_warns_when_loopback_serves_unauthenticated() {
    const ENV: &str = "TRONC_STARTUP_AUTH_TEST_LOOPBACK";
    let mode = startup_auth(ENV, Some(""), "localhost");
    assert_eq!(mode, Ok(AuthMode::LoopbackDev));
    let notice = posture_notice(ENV, AuthMode::LoopbackDev);
    assert!(notice.warning);
    assert!(notice.text.contains(&format!("{ENV} unset")) && notice.text.contains("UNAUTHENTICATED"));
}

#[test]
fn a_refusal_with_no_single_gate_asks_for_the_gate_generically() {
    let msg = resolve_startup_auth("0.0.0.0", false)
        .expect_err("refused")
        .message();
    assert!(msg.contains("Arm this service's gate"), "message was {msg:?}");
}

#[test]
fn an_empty_key_is_no_key_here_too() {
    assert!(!api_key_configured(Some("")));
    assert!(resolve_startup_auth("0.0.0.0", api_key_configured(Some(""))).is_err());
}

#[test]
fn the_realm_is_escaped_into_a_quoted_string() {
    let hook = ApiKeyAuthHook::new("UNUSED", r#"a "quoted" \ realm"#);
    assert_eq!(hook.challenge(), r#"Bearer realm="a \"quoted\" \\ realm""#);
}

#[test]
fn escaping_adds_a_backslash_before_quotes_and_backslashes_only() {
    assert_eq!(quote_escape("plain é"), "plain é");
    assert_eq!(quote_escape(r#"\""#), r#"\\\""#);
    assert_eq!(quote_escape(""), "");
}

#[test]
fn the_key_admits_whoever_holds_it_and_nobody_else() {
    let hook = ApiKeyAuthHook::new("KEY_VAR", "svc");
    assert_eq!(hook.env_var(), "KEY_VAR");
    let mut request = JsonRpcRequest::with_id("tools/list", None, Json::unsigned(9));
    request.auth_token = Some("k-1".to_owned());
    let ctx = match hook.authenticate(Some("k-1"), &request) {
        Ok(ctx) => ctx,
        Err(error) => panic!("{error:?}"),
    };
    assert_eq!(ctx.auth_method.as_deref(), Some(API_KEY_AUTH_METHOD));
    assert_eq!(ctx.request_id, Some(Json::unsigned(9)));
    assert!(!ctx.is_admin && ctx.user_id.is_none() && ctx.tenant_id.is_none());

    for key in [Some("k-2"), Some("k-11"), Some(""), None] {
        match hook.authenticate(key, &request) {
            Err(AuthError::Unauthorized { www_authenticate }) => {
                assert_eq!(www_authenticate, "Bearer realm=\"svc\"");
            }
            _ => panic!("{key:?} must be refused"),
        }
    }
}

#[test]
fn an_empty_key_admits_nobody() {
    let hook = ApiKeyAuthHook::new("KEY_VAR", "posture-test");
    let mut request = JsonRpcRequest::new("tools/list", None);
    request.auth_token = Some(String::new());
    assert!(hook.authenticate(Some(""), &request).is_err());
    assert!(hook.authenticate(None, &request).is_err());
}
