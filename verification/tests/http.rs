use dravr_tronc::error::{INVALID_REQUEST, PARSE_ERROR};
use dravr_tronc::json::Json;
use dravr_tronc::mcp::auth::{ApiKeyAuthHook, AuthError};
use dravr_tronc::mcp::host::CallToolOutcome;
use dravr_tronc::mcp::protocol::{JsonRpcRequest, JsonRpcResponse};
use dravr_tronc::mcp::schema::{Tool, ToolResponse};
use dravr_tronc::mcp::server::{McpServer, Step};
use dravr_tronc::mcp::tool::{ToolCapabilities, ToolContext, ToolRegistry};
use dravr_tronc::mcp::transport::http::{
    admit_post, authenticated, is_port, render_rejection, render_response, serve_posture,
    Admission, Header, HttpBody, HttpReply, RequestHead, MCP_PROTOCOL_VERSION_HEADER,
};
use dravr_tronc::server::auth::AuthMode;

type Handler = fn(&ToolContext) -> ToolResponse;
type Server = McpServer<Handler>;

const PING: &str = r#"{"jsonrpc":"2.0","id":1,"method":"ping"}"#;
const WHOAMI: &str =
    r#"{"jsonrpc":"2.0","id":8,"method":"tools/call","params":{"name":"whoami","arguments":{}}}"#;

fn tool(name: &str) -> Tool {
    Tool {
        name: name.to_owned(),
        description: name.to_owned(),
        input_schema: Json::parse(r#"{"type": "object"}"#).expect("json"),
        output_schema: None,
        annotations: None,
        execution: None,
    }
}

fn hello(_: &ToolContext) -> ToolResponse {
    ToolResponse::text("hello world".to_owned())
}

fn admin_op(_: &ToolContext) -> ToolResponse {
    ToolResponse::text("admin ok".to_owned())
}

fn whoami(ctx: &ToolContext) -> ToolResponse {
    ToolResponse::text(format!(
        "method={} admin={} user={}",
        ctx.auth_method.as_deref().unwrap_or("none"),
        ctx.is_admin,
        ctx.user_id.as_deref().unwrap_or("none"),
    ))
}

fn make_app() -> Server {
    let mut registry: ToolRegistry<Handler> = ToolRegistry::new();
    registry.register(tool("hello"), ToolCapabilities::empty(), hello);
    McpServer::new("test", "0.1.0", registry)
}

fn make_authed_app() -> Server {
    let mut registry: ToolRegistry<Handler> = ToolRegistry::new();
    registry.register(tool("hello"), ToolCapabilities::empty(), hello);
    registry.register(tool("admin_op"), ToolCapabilities::admin_only(), admin_op);
    registry.register(tool("whoami"), ToolCapabilities::empty(), whoami);
    McpServer::new("test", "0.1.0", registry)
        .with_auth_hook()
        .with_allowed_origins(vec!["https://app.example.test".to_owned()])
}

fn header(value: Option<&str>) -> Header {
    match value {
        Some(value) => Header::Text(value.to_owned()),
        None => Header::Absent,
    }
}

fn head(headers: &[(&str, &str)]) -> RequestHead {
    let named = |name: &str| {
        header(headers.iter().find(|(known, _)| *known == name).map(|(_, value)| *value))
    };
    RequestHead {
        origin: named("origin"),
        authorization: named("authorization"),
        protocol_version: named(MCP_PROTOCOL_VERSION_HEADER),
        accept: named("accept"),
    }
}

/// Accepts the tokens `admin` and `user`, and turns everybody else away.
fn known_tokens(request: &JsonRpcRequest) -> Result<ToolContext, AuthError> {
    match request.auth_token.as_deref() {
        Some("admin") => Ok(ToolContext::new().with_user("u1").as_admin(true)),
        Some("user") => Ok(ToolContext::new().with_user("u2")),
        _ => Err(AuthError::Unauthorized {
            www_authenticate: "Bearer resource_metadata=\"https://example.test/.well-known/oauth-protected-resource\"".to_owned(),
        }),
    }
}

fn serve(
    server: &Server,
    head: &RequestHead,
    body: &str,
    hook: impl Fn(&JsonRpcRequest) -> Result<ToolContext, AuthError>,
) -> HttpReply {
    let request = match admit_post(server, head, body) {
        Admission::Refuse(reply) => return reply,
        Admission::Authenticate(request) => request,
    };
    let outcome = if server.authenticates() { Some(hook(&request)) } else { None };
    let ctx = match authenticated(outcome) {
        Ok(ctx) => ctx,
        Err(reply) => return reply,
    };
    let response = match server.handle_request_with_context(request, &ctx) {
        Step::Silent => None,
        Step::Reply(response) => Some(response),
        Step::RunTool { pending, handler, .. } => {
            Some(server.finish_call(pending, CallToolOutcome::from(handler(&ctx))))
        }
        _ => panic!("nothing else is installed"),
    };
    render_response(response, &head.accept)
}

fn post(server: &Server, body: &str, headers: &[(&str, &str)]) -> HttpReply {
    serve(server, &head(headers), body, known_tokens)
}

fn body_of(reply: &HttpReply) -> &Json {
    match &reply.body {
        HttpBody::Json(json) => json,
        other => panic!("body was {other:?}"),
    }
}

fn at<'a>(json: &'a Json, path: &[&str]) -> &'a Json {
    let mut here = json;
    for key in path {
        here = here.get(key).expect("member");
    }
    here
}

fn text_of(reply: &HttpReply) -> &str {
    match at(body_of(reply), &["result", "content"]) {
        Json::Array(items) => at(&items[0], &["text"]).as_str().expect("text"),
        other => panic!("content was {other:?}"),
    }
}

#[test]
fn mcp_post_ping_returns_json() {
    let reply = post(&make_app(), PING, &[]);
    assert_eq!(reply.status, 200);
    let json = body_of(&reply);
    assert_eq!(json.get("jsonrpc"), Some(&Json::text("2.0")));
    assert!(json.get("result").is_some());
}

#[test]
fn mcp_post_tools_call() {
    let body = r#"{"jsonrpc":"2.0","id":2,"method":"tools/call","params":{"name":"hello"}}"#;
    assert_eq!(text_of(&post(&make_app(), body, &[])), "hello world");
}

#[test]
fn mcp_post_invalid_json_returns_parse_error() {
    let reply = post(&make_app(), "not json", &[]);
    assert_eq!(reply.status, 400);
    assert_eq!(at(body_of(&reply), &["error", "code"]), &Json::signed(PARSE_ERROR.into()));
}

#[test]
fn mcp_post_notification_returns_202_with_no_body() {
    let body = r#"{"jsonrpc":"2.0","method":"notifications/initialized"}"#;
    let reply = post(&make_app(), body, &[]);
    assert_eq!(reply.status, 202);
    assert!(matches!(reply.body, HttpBody::Empty), "a 202 carries no body");
}

#[test]
fn json_that_is_not_a_request_is_refused_with_400_invalid_request() {
    for body in [
        r#"{"jsonrpc":"2.0","id":7,"result":{}}"#,
        r#"[{"jsonrpc":"2.0","id":1,"method":"ping"}]"#,
        r#"{"jsonrpc":"2.0","id":null,"method":"ping"}"#,
        r#"{"jsonrpc":"2.0","id":{"n":1},"method":"ping"}"#,
        r#"{"jsonrpc":"2.0","id":1.5,"method":"ping"}"#,
    ] {
        let reply = post(&make_app(), body, &[]);
        assert_eq!(reply.status, 400, "{body}");
        let json = body_of(&reply);
        assert_eq!(at(json, &["error", "code"]), &Json::signed(INVALID_REQUEST.into()), "{body}");
        assert_eq!(json.get("id"), Some(&Json::Null), "{body}");
    }
}

#[test]
fn empty_allowlist_refuses_a_non_loopback_origin() {
    for origin in [
        "https://evil.test",
        "http://192.168.1.10:3000",
        "http://localhost.evil.test",
        "http://127.0.0.1.nip.io",
        "http://evil.test@localhost",
        "http://localhost/path",
        "http://localhost:99999",
        "http://::1",
        "ftp://localhost",
        "null",
    ] {
        let reply = post(&make_app(), PING, &[("origin", origin)]);
        assert_eq!(reply.status, 403, "origin {origin}");
    }
}

#[test]
fn an_unreadable_origin_is_refused_not_read_as_absent() {
    let head = RequestHead {
        origin: Header::Unreadable,
        authorization: Header::Absent,
        protocol_version: Header::Absent,
        accept: Header::Absent,
    };
    assert_eq!(serve(&make_app(), &head, PING, known_tokens).status, 403);
}

#[test]
fn empty_allowlist_admits_a_loopback_origin() {
    for origin in [
        "http://localhost:3000",
        "https://localhost",
        "http://LOCALHOST:8082",
        "http://127.0.0.1:8081",
        "http://127.1.2.3",
        "http://[::1]:5173",
        "http://[::1]",
    ] {
        let reply = post(&make_app(), PING, &[("origin", origin)]);
        assert_eq!(reply.status, 200, "origin {origin}");
    }
}

#[test]
fn wildcard_allowlist_admits_any_origin() {
    let server = make_app().with_allowed_origins(vec!["*".to_owned()]);
    assert_eq!(server.allowed_origins(), &["*".to_owned()]);
    assert_eq!(post(&server, PING, &[("origin", "https://evil.test")]).status, 200);
}

#[test]
fn a_token_in_the_body_does_not_authenticate() {
    let body = r#"{"jsonrpc":"2.0","id":3,"method":"tools/call","params":{"name":"admin_op"},"auth":"admin"}"#;
    assert_eq!(post(&make_authed_app(), body, &[]).status, 401);
}

#[test]
fn the_bearer_scheme_is_matched_case_insensitively() {
    for authorization in ["bearer user", "BEARER user"] {
        let body = r#"{"jsonrpc":"2.0","id":2,"method":"tools/call","params":{"name":"hello"}}"#;
        let reply = post(&make_authed_app(), body, &[("authorization", authorization)]);
        assert_eq!(reply.status, 200, "{authorization}");
        assert_eq!(text_of(&reply), "hello world", "{authorization}");
    }
}

#[test]
fn mcp_post_sse_accept_returns_event_stream() {
    let reply = post(&make_app(), PING, &[("accept", "text/event-stream")]);
    assert!(matches!(reply.body, HttpBody::Event(_)));
    let reply = post(&make_app(), PING, &[("accept", "application/json, text/event-stream")]);
    assert!(matches!(reply.body, HttpBody::Event(_)));
}

#[test]
fn mcp_post_tools_list() {
    let body = r#"{"jsonrpc":"2.0","id":4,"method":"tools/list"}"#;
    let reply = post(&make_app(), body, &[]);
    match at(body_of(&reply), &["result", "tools"]) {
        Json::Array(tools) => {
            assert_eq!(tools.len(), 1);
            assert_eq!(tools[0].get("name"), Some(&Json::text("hello")));
        }
        other => panic!("tools were {other:?}"),
    }
}

#[test]
fn mcp_post_initialize() {
    let body = r#"{
        "jsonrpc":"2.0",
        "id":5,
        "method":"initialize",
        "params":{
            "protocolVersion":"2024-11-05",
            "capabilities":{},
            "clientInfo":{"name":"test"}
        }
    }"#;
    let reply = post(&make_app(), body, &[]);
    assert_eq!(at(body_of(&reply), &["result", "serverInfo", "name"]), &Json::text("test"));
}

#[test]
fn mcp_post_disallowed_origin_returns_403() {
    let reply = post(&make_authed_app(), PING, &[("origin", "https://evil.test")]);
    assert_eq!(reply.status, 403);
}

#[test]
fn mcp_post_missing_token_returns_401_with_challenge() {
    let body = r#"{"jsonrpc":"2.0","id":1,"method":"tools/list"}"#;
    let reply = post(&make_authed_app(), body, &[]);
    assert_eq!(reply.status, 401);
    let challenge = reply.www_authenticate.expect("www-authenticate header");
    assert!(challenge.contains("Bearer"));
    assert!(challenge.contains("resource_metadata"));
}

#[test]
fn mcp_post_authenticated_user_runs_allowed_tool() {
    let body = r#"{"jsonrpc":"2.0","id":2,"method":"tools/call","params":{"name":"hello"}}"#;
    let reply = post(
        &make_authed_app(),
        body,
        &[("origin", "https://app.example.test"), ("authorization", "Bearer user")],
    );
    assert_eq!(reply.status, 200);
    assert_eq!(text_of(&reply), "hello world");
}

#[test]
fn mcp_post_admin_token_runs_admin_tool() {
    let body = r#"{"jsonrpc":"2.0","id":3,"method":"tools/call","params":{"name":"admin_op"}}"#;
    let reply = post(&make_authed_app(), body, &[("authorization", "Bearer admin")]);
    assert_eq!(text_of(&reply), "admin ok");
    assert_eq!(at(body_of(&reply), &["result", "isError"]), &Json::Bool(false));
}

#[test]
fn mcp_post_non_admin_blocked_from_admin_tool() {
    let body = r#"{"jsonrpc":"2.0","id":4,"method":"tools/call","params":{"name":"admin_op"}}"#;
    let reply = post(&make_authed_app(), body, &[("authorization", "Bearer user")]);
    assert_eq!(reply.status, 200);
    assert_eq!(at(body_of(&reply), &["result", "isError"]), &Json::Bool(true));
    assert!(text_of(&reply).contains("admin"));
}

#[test]
fn insufficient_scope_returns_403_with_the_challenge() {
    let server = make_app().with_auth_hook();
    let body = r#"{"jsonrpc":"2.0","id":1,"method":"tools/call",
                   "params":{"name":"hello","arguments":{}}}"#;
    let reply = serve(&server, &head(&[]), body, |_| {
        Err(AuthError::InsufficientScope {
            www_authenticate: "Bearer error=\"insufficient_scope\", scope=\"fitness:write\""
                .to_owned(),
            reason: "the grant does not cover this tool".to_owned(),
        })
    });
    assert_eq!(reply.status, 403);
    let challenge =
        reply.www_authenticate.expect("an insufficient-scope refusal must carry the challenge");
    assert!(
        challenge.contains("insufficient_scope"),
        "challenge names the error: {challenge}"
    );
    assert!(
        challenge.contains("fitness:write"),
        "challenge names the scope the client must ask for: {challenge}"
    );
}

#[test]
fn an_unsupported_protocol_version_header_is_refused() {
    let body = r#"{"jsonrpc":"2.0","id":1,"method":"tools/list"}"#;
    let reply = post(&make_app(), body, &[(MCP_PROTOCOL_VERSION_HEADER, "1999-01-01")]);
    assert_eq!(reply.status, 400);
    let json = body_of(&reply);
    assert_eq!(at(json, &["error", "code"]), &Json::signed(-32_022));
    assert_eq!(at(json, &["error", "data", "requested"]), &Json::text("1999-01-01"));
    assert!(
        matches!(at(json, &["error", "data", "supported"]), Json::Array(_)),
        "the refusal tells the client what we DO speak: {json:?}"
    );
}

#[test]
fn a_supported_protocol_version_header_is_served() {
    let server: Server = McpServer::new("test", "0.1.0", ToolRegistry::new());
    let supported = server
        .advertised_protocol_versions()
        .first()
        .cloned()
        .expect("a server advertises at least one revision");
    let body = r#"{"jsonrpc":"2.0","id":1,"method":"tools/list"}"#;
    let reply = post(&make_app(), body, &[(MCP_PROTOCOL_VERSION_HEADER, supported.as_str())]);
    assert_eq!(reply.status, 200);
}

#[test]
fn other_rejections_have_their_status() {
    let reply = render_rejection(AuthError::Forbidden { reason: "no".to_owned() });
    assert_eq!(reply.status, 403);
    assert!(reply.www_authenticate.is_none());
    let reply = render_rejection(AuthError::Internal { reason: "boom".to_owned() });
    assert_eq!(reply.status, 500);
    for (asked, told) in [(0, 1), (30, 30)] {
        let reply = render_rejection(AuthError::RateLimited {
            retry_after_secs: asked,
            reason: "slow down".to_owned(),
        });
        assert_eq!(reply.status, 429);
        assert_eq!(reply.retry_after, Some(told));
        let json = body_of(&reply);
        assert_eq!(
            at(json, &["error", "data", "retry_after_secs"]),
            &Json::unsigned(told)
        );
    }
}

#[test]
fn responses_go_out_as_json_unless_events_are_asked_for() {
    let response = || Some(JsonRpcResponse::success(None, Json::Null));
    assert!(matches!(render_response(response(), &Header::Absent).body, HttpBody::Json(_)));
    assert!(matches!(render_response(response(), &Header::Unreadable).body, HttpBody::Json(_)));
    assert_eq!(render_response(None, &Header::Absent).status, 202);
}

#[test]
fn ports_are_numbers_of_sixteen_bits() {
    for port in ["0", "1", "080", "65535"] {
        assert!(is_port(port), "{port}");
    }
    for port in ["", "65536", "-1", "+1", " 1", "1a"] {
        assert!(!is_port(port), "{port}");
    }
}

// Serving

#[test]
fn serve_refuses_the_ipv4_wildcard_without_an_auth_hook() {
    let err = serve_posture(&make_app(), "0.0.0.0", &["0.0.0.0".to_owned()])
        .expect_err("a reachable bind with no hook must be refused");
    assert_eq!(err.host, "0.0.0.0");
    assert_eq!(err.gate, None);
    assert!(err.message().contains("refusing to start"));
}

#[test]
fn serve_refuses_the_ipv6_wildcard_without_an_auth_hook() {
    let err = serve_posture(&make_app(), "[::]", &["::".to_owned()])
        .expect_err("a reachable bind with no hook must be refused");
    assert_eq!(err.host, "[::]");
}

#[test]
fn serve_serves_loopback_without_an_auth_hook() {
    let mode = serve_posture(&make_app(), "127.0.0.1", &["127.0.0.1".to_owned()]);
    assert_eq!(mode, Ok(AuthMode::LoopbackDev));
}

#[test]
fn serve_accepts_localhost_because_it_resolves_to_loopback() {
    let addresses = ["::1".to_owned(), "127.0.0.1".to_owned()];
    assert_eq!(serve_posture(&make_app(), "localhost", &addresses), Ok(AuthMode::LoopbackDev));
    let elsewhere = ["127.0.0.1".to_owned(), "10.0.0.1".to_owned()];
    assert!(serve_posture(&make_app(), "localhost", &elsewhere).is_err());
}

#[test]
fn serve_serves_a_reachable_bind_behind_the_api_key_hook() {
    let server = make_authed_app();
    assert_eq!(serve_posture(&server, "0.0.0.0", &[]), Ok(AuthMode::Enforced));
    let hook = ApiKeyAuthHook::new("KEY", "posture-test");
    let call = |bearer: Option<&str>, body: &str| {
        let authorization = bearer.map(|token| format!("Bearer {token}"));
        let head = RequestHead {
            origin: Header::Absent,
            authorization: header(authorization.as_deref()),
            protocol_version: Header::Absent,
            accept: Header::Text("application/json".to_owned()),
        };
        serve(&server, &head, body, |request| hook.authenticate(Some("wire-key-42"), request))
    };
    let without = call(None, PING);
    assert_eq!(without.status, 401);
    assert_eq!(without.www_authenticate.as_deref(), Some("Bearer realm=\"posture-test\""));
    assert_eq!(call(Some("wire-key-43"), PING).status, 401);
    let with = call(Some("wire-key-42"), WHOAMI);
    assert_eq!(with.status, 200);
    assert_eq!(text_of(&with), "method=api_key admin=false user=none");
}

fn hooked(key: Option<&str>, bearer: Option<&str>) -> HttpReply {
    let hook = ApiKeyAuthHook::new("KEY", "posture-test");
    let authorization = bearer.map(|token| format!("Bearer {token}"));
    let head = RequestHead {
        origin: Header::Absent,
        authorization: header(authorization.as_deref()),
        protocol_version: Header::Absent,
        accept: Header::Absent,
    };
    serve(&make_authed_app(), &head, WHOAMI, |request| hook.authenticate(key, request))
}

#[test]
fn the_hook_answers_401_with_a_bearer_challenge_without_the_key() {
    let reply = hooked(Some("correct-horse"), None);
    assert_eq!(reply.status, 401);
    assert_eq!(at(body_of(&reply), &["error", "message"]), &Json::text("Unauthorized"));
    assert_eq!(reply.www_authenticate.as_deref(), Some("Bearer realm=\"posture-test\""));
}

#[test]
fn the_hook_refuses_a_wrong_key_of_the_same_length() {
    let reply = hooked(Some("correct-horse"), Some("correct-mouse"));
    assert_eq!(reply.status, 401);
    assert_eq!(reply.www_authenticate.as_deref(), Some("Bearer realm=\"posture-test\""));
}

#[test]
fn the_hook_admits_the_key_as_a_key_holder_never_an_admin() {
    let reply = hooked(Some("correct-horse"), Some("correct-horse"));
    assert_eq!(reply.status, 200);
    assert_eq!(reply.www_authenticate, None);
    assert_eq!(text_of(&reply), "method=api_key admin=false user=none");
}

#[test]
fn the_hook_fails_closed_when_its_key_is_unset_or_empty() {
    for bearer in [None, Some("anything")] {
        assert_eq!(hooked(None, bearer).status, 401, "unset key, bearer {bearer:?}");
        assert_eq!(hooked(Some(""), bearer).status, 401, "empty key, bearer {bearer:?}");
    }
}
