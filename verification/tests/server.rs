use dravr_tronc::error::{
    INTERNAL_ERROR, INVALID_PARAMS, INVALID_REQUEST, METHOD_NOT_FOUND, PARSE_ERROR,
    UNSUPPORTED_PROTOCOL_VERSION,
};
use dravr_tronc::json::Json;
use dravr_tronc::mcp::host::CallToolOutcome;
use dravr_tronc::mcp::protocol::{JsonRpcRequest, JsonRpcResponse, PROTOCOL_VERSION};
use dravr_tronc::mcp::schema::{ServerCapabilities, Tool, ToolResponse};
use dravr_tronc::mcp::server::{
    context_for, default_supported_versions, finish_list, finish_method, finish_task, McpServer, Step,
};
use dravr_tronc::mcp::tasks::TaskError;
use dravr_tronc::mcp::tool::{ToolCapabilities, ToolContext, ToolRegistry};
use dravr_tronc::mcp::transport::stdio::handle_line;

type Handler = fn(&Json) -> ToolResponse;
type Server = McpServer<Handler>;

fn json(text: &str) -> Json {
    Json::parse(text).expect("json")
}

fn at<'a>(json: &'a Json, path: &[&str]) -> &'a Json {
    let mut here = json;
    for key in path {
        here = here.get(key).expect("member");
    }
    here
}

fn items(json: &Json) -> &Vec<Json> {
    match json {
        Json::Array(items) => items,
        other => panic!("not an array: {other:?}"),
    }
}

fn tool(name: &str, description: &str) -> Tool {
    Tool {
        name: name.to_owned(),
        description: description.to_owned(),
        input_schema: json(r#"{"type": "object"}"#),
        output_schema: None,
        annotations: None,
        execution: None,
    }
}

fn pong(_: &Json) -> ToolResponse {
    ToolResponse::text("pong".to_owned())
}

fn make_server() -> Server {
    let mut registry: ToolRegistry<Handler> = ToolRegistry::new();
    registry.register(tool("ping_tool", "Returns pong"), ToolCapabilities::empty(), pong);
    McpServer::new("test-server", "0.1.0", registry)
}

/// A host whose dispatcher shows one tool to a tenant, and whose method handler serves
/// one method.
fn drive(server: &Server, step: Step<'_, Handler>, ctx: &ToolContext) -> Option<JsonRpcResponse> {
    match step {
        Step::Silent => None,
        Step::Reply(response) => Some(response),
        Step::ListTools(pending) => {
            let tools = if ctx.tenant_id.is_some() {
                vec![tool("scoped_tool", "tenant-scoped")]
            } else {
                Vec::new()
            };
            Some(finish_list(pending, tools))
        }
        Step::CallTool { pending, name, .. } => {
            let answer = match name.as_str() {
                "scoped_tool" => ToolResponse::text("dispatched".to_owned()),
                other => ToolResponse::error(format!("quota exceeded for {other}")),
            };
            Some(server.finish_call(pending, CallToolOutcome::from(answer)))
        }
        Step::RunTool { pending, handler, arguments } => {
            let answer = handler(&arguments);
            Some(server.finish_call(pending, CallToolOutcome::from(answer)))
        }
        Step::AskHost { pending, method, .. } => {
            let answer = if method == "resources/list" {
                let id = pending.id.as_ref().map(|id| id.dup());
                Some(JsonRpcResponse::success(id, json(r#"{ "resources": [] }"#)))
            } else {
                None
            };
            Some(finish_method(pending, &method, answer))
        }
        Step::Task { pending, op, task_id } => {
            Some(finish_task(pending, op, Err(TaskError::NotFound(task_id))))
        }
    }
}

fn handle(server: &Server, raw: &str) -> Option<JsonRpcResponse> {
    drive(server, server.handle_raw(raw), &ToolContext::new())
}

fn result_of(server: &Server, raw: &str) -> Json {
    handle(server, raw).expect("response").result.expect("result")
}

#[test]
fn handle_initialize() {
    let raw = r#"{
        "jsonrpc": "2.0",
        "id": 1,
        "method": "initialize",
        "params": {
            "protocolVersion": "2024-11-05",
            "capabilities": {},
            "clientInfo": { "name": "test-client" }
        }
    }"#;
    let result = result_of(&make_server(), raw);
    assert_eq!(result.get("protocolVersion"), Some(&Json::text(PROTOCOL_VERSION)));
    assert_eq!(at(&result, &["serverInfo", "name"]), &Json::text("test-server"));
    assert_eq!(at(&result, &["serverInfo", "version"]), &Json::text("0.1.0"));
}

#[test]
fn handle_initialize_without_params() {
    let raw = r#"{"jsonrpc": "2.0", "id": 1, "method": "initialize"}"#;
    let resp = handle(&make_server(), raw).expect("response");
    assert!(resp.result.is_some());
    assert!(resp.error.is_none());
}

#[test]
fn handle_tools_list() {
    let raw = r#"{"jsonrpc": "2.0", "id": 2, "method": "tools/list"}"#;
    let result = result_of(&make_server(), raw);
    let tools = items(at(&result, &["tools"]));
    assert_eq!(tools.len(), 1);
    assert_eq!(tools[0].get("name"), Some(&Json::text("ping_tool")));
    assert!(result.get("resultType").is_none());
}

#[test]
fn handle_tools_call() {
    let raw = r#"{
        "jsonrpc": "2.0",
        "id": 3,
        "method": "tools/call",
        "params": { "name": "ping_tool", "arguments": {} }
    }"#;
    let result = result_of(&make_server(), raw);
    assert_eq!(items(at(&result, &["content"]))[0].get("text"), Some(&Json::text("pong")));
}

#[test]
fn handle_tools_call_unknown_tool() {
    let raw = r#"{
        "jsonrpc": "2.0",
        "id": 4,
        "method": "tools/call",
        "params": { "name": "nonexistent" }
    }"#;
    let result = result_of(&make_server(), raw);
    assert_eq!(result.get("isError"), Some(&Json::Bool(true)));
    let text = at(&items(at(&result, &["content"]))[0], &["text"]).as_str().expect("text");
    assert!(text.contains("Unknown tool"));
}

#[test]
fn handle_tools_call_missing_params() {
    let raw = r#"{"jsonrpc": "2.0", "id": 5, "method": "tools/call"}"#;
    let err = handle(&make_server(), raw).expect("response").error.expect("error");
    assert_eq!(err.code, INVALID_PARAMS);
}

#[test]
fn handle_ping() {
    let raw = r#"{"jsonrpc": "2.0", "id": 6, "method": "ping"}"#;
    let resp = handle(&make_server(), raw).expect("response");
    assert!(resp.result.is_some());
    assert!(resp.error.is_none());
}

#[test]
fn handle_unknown_method() {
    let raw = r#"{"jsonrpc": "2.0", "id": 7, "method": "bogus/method"}"#;
    let err = handle(&make_server(), raw).expect("response").error.expect("error");
    assert_eq!(err.code, METHOD_NOT_FOUND);
    assert!(err.message.contains("bogus/method"));
}

#[test]
fn handle_invalid_json() {
    let err = handle(&make_server(), "not json at all").expect("response").error.expect("error");
    assert_eq!(err.code, PARSE_ERROR);
}

#[test]
fn handle_wrong_jsonrpc_version() {
    let raw = r#"{"jsonrpc": "1.0", "id": 8, "method": "ping"}"#;
    let err = handle(&make_server(), raw).expect("response").error.expect("error");
    assert_eq!(err.code, INVALID_REQUEST);
}

#[test]
fn notification_returns_none() {
    let raw = r#"{"jsonrpc": "2.0", "method": "notifications/cancelled"}"#;
    assert!(handle(&make_server(), raw).is_none());
}

#[test]
fn notification_is_silently_ignored() {
    let raw = r#"{"jsonrpc":"2.0","method":"notifications/initialized"}"#;
    assert!(handle(&make_server(), raw).is_none());
}

#[test]
fn a_notification_is_never_answered_whatever_its_version() {
    let raw = r#"{"jsonrpc": "1.0", "method": "ping"}"#;
    assert!(handle(&make_server(), raw).is_none());
}

#[test]
fn response_id_matches_request_id() {
    let raw = r#"{"jsonrpc": "2.0", "id": 999, "method": "ping"}"#;
    let resp = handle(&make_server(), raw).expect("response");
    assert_eq!(resp.id, Some(Json::unsigned(999)));
}

#[test]
fn tools_call_with_no_arguments_defaults_to_empty_object() {
    let raw = r#"{
        "jsonrpc": "2.0",
        "id": 10,
        "method": "tools/call",
        "params": { "name": "ping_tool" }
    }"#;
    let server = make_server();
    match server.handle_raw(raw) {
        Step::RunTool { arguments, .. } => assert_eq!(arguments, json("{}")),
        _ => panic!("expected the tool to run"),
    }
    let result = result_of(&server, raw);
    assert_eq!(items(at(&result, &["content"]))[0].get("text"), Some(&Json::text("pong")));
}

#[test]
fn tools_call_with_invalid_params_structure() {
    let raw = r#"{
        "jsonrpc": "2.0",
        "id": 11,
        "method": "tools/call",
        "params": "not an object"
    }"#;
    let err = handle(&make_server(), raw).expect("response").error.expect("error");
    assert_eq!(err.code, INVALID_PARAMS);
}

#[test]
fn server_discover_advertises_versions_and_tools() {
    let raw = r#"{"jsonrpc": "2.0", "id": 20, "method": "server/discover"}"#;
    let result = result_of(&make_server(), raw);
    assert_eq!(result.get("resultType"), Some(&Json::text("complete")));
    let versions = items(at(&result, &["supportedVersions"]));
    assert!(versions.contains(&Json::text("2026-07-28")));
    assert!(versions.contains(&Json::text("2025-11-25")));
    assert!(matches!(at(&result, &["capabilities", "tools"]), Json::Object(_)));
    assert_eq!(at(&result, &["serverInfo", "name"]), &Json::text("test-server"));
}

#[test]
fn initialize_echoes_supported_client_version() {
    let raw = r#"{
        "jsonrpc": "2.0",
        "id": 21,
        "method": "initialize",
        "params": {
            "protocolVersion": "2026-07-28",
            "capabilities": {},
            "clientInfo": { "name": "c", "version": "1" }
        }
    }"#;
    let result = result_of(&make_server(), raw);
    assert_eq!(result.get("protocolVersion"), Some(&Json::text("2026-07-28")));
}

fn modern(id: u32, version: &str, info: &str) -> String {
    format!(
        r#"{{
            "jsonrpc": "2.0",
            "id": {id},
            "method": "tools/list",
            "params": {{
                "_meta": {{
                    "io.modelcontextprotocol/protocolVersion": "{version}",
                    {info}
                    "io.modelcontextprotocol/clientCapabilities": {{}}
                }}
            }}
        }}"#
    )
}

const INFO: &str =
    r#""io.modelcontextprotocol/clientInfo": { "name": "c", "version": "1" },"#;

#[test]
fn modern_tools_list_frames_result_type() {
    let result = result_of(&make_server(), &modern(22, "2026-07-28", INFO));
    assert_eq!(result.get("resultType"), Some(&Json::text("complete")));
    assert_eq!(
        items(at(&result, &["tools"]))[0].get("name"),
        Some(&Json::text("ping_tool"))
    );
}

#[test]
fn modern_unsupported_version_returns_minus_32004() {
    let resp = handle(&make_server(), &modern(23, "1999-01-01", INFO)).expect("response");
    let err = resp.error.expect("error");
    assert_eq!(err.code, UNSUPPORTED_PROTOCOL_VERSION);
    let data = err.data.expect("data");
    assert_eq!(data.get("requested"), Some(&Json::text("1999-01-01")));
    assert!(items(at(&data, &["supported"])).contains(&Json::text("2026-07-28")));
}

#[test]
fn modern_malformed_meta_returns_invalid_params() {
    let resp = handle(&make_server(), &modern(24, "2026-07-28", "")).expect("response");
    assert_eq!(resp.error.expect("error").code, INVALID_PARAMS);
}

#[test]
fn dispatcher_list_empty_without_tenant() {
    let server = make_server().with_tool_dispatcher();
    let raw = r#"{"jsonrpc": "2.0", "id": 30, "method": "tools/list"}"#;
    let result = result_of(&server, raw);
    assert!(
        items(at(&result, &["tools"])).is_empty(),
        "no tenant → dispatcher yields no tools"
    );
}

#[test]
fn dispatcher_list_scoped_with_tenant() {
    let server = make_server().with_tool_dispatcher();
    let request = JsonRpcRequest::with_id("tools/list", None, Json::unsigned(31));
    let ctx = ToolContext::new().with_tenant("tenant-1");
    let step = server.handle_request_with_context(request, &ctx);
    let resp = drive(&server, step, &ctx).expect("response");
    let result = resp.result.expect("result");
    let tools = items(at(&result, &["tools"]));
    assert_eq!(tools.len(), 1);
    assert_eq!(tools[0].get("name"), Some(&Json::text("scoped_tool")));
}

#[test]
fn method_handler_serves_non_tool_method() {
    let server = make_server().with_method_handler();
    let raw = r#"{"jsonrpc": "2.0", "id": 32, "method": "resources/list"}"#;
    let resp = handle(&server, raw).expect("response");
    assert!(resp.error.is_none());
    let result = resp.result.expect("result");
    assert!(items(at(&result, &["resources"])).is_empty());
}

#[test]
fn method_handler_declines_falls_through_to_method_not_found() {
    let server = make_server().with_method_handler();
    let raw = r#"{"jsonrpc": "2.0", "id": 33, "method": "prompts/list"}"#;
    let err = handle(&server, raw).expect("response").error.expect("error");
    assert_eq!(err.code, METHOD_NOT_FOUND);
    assert!(err.message.contains("prompts/list"));
}

#[test]
fn dispatcher_call_routes_host_side() {
    let server = make_server().with_tool_dispatcher();
    let raw = r#"{
        "jsonrpc": "2.0",
        "id": 34,
        "method": "tools/call",
        "params": { "name": "scoped_tool", "arguments": {} }
    }"#;
    let result = result_of(&server, raw);
    assert_eq!(
        items(at(&result, &["content"]))[0].get("text"),
        Some(&Json::text("dispatched"))
    );
}

#[test]
fn dispatcher_call_reports_host_error() {
    let server = make_server().with_tool_dispatcher();
    let raw = r#"{
        "jsonrpc": "2.0",
        "id": 35,
        "method": "tools/call",
        "params": { "name": "ping_tool", "arguments": {} }
    }"#;
    let result = result_of(&server, raw);
    assert_eq!(result.get("isError"), Some(&Json::Bool(true)));
    let text = at(&items(at(&result, &["content"]))[0], &["text"]).as_str().expect("text");
    assert!(text.contains("quota exceeded"));
}

#[test]
fn unknown_tool_returns_error_in_result() {
    let raw = r#"{"jsonrpc":"2.0","id":1,"method":"tools/call","params":{"name":"bogus"}}"#;
    let result = result_of(&make_server(), raw);
    assert_eq!(result.get("isError"), Some(&Json::Bool(true)));
}

#[test]
fn a_host_says_what_it_serves() {
    let server = make_server()
        .with_capabilities(ServerCapabilities::none())
        .with_instructions("Read me")
        .with_supported_versions(vec!["v9".to_owned()]);
    assert!(server.accepts_protocol_version("v9"));
    assert!(!server.accepts_protocol_version(PROTOCOL_VERSION));
    assert_eq!(server.advertised_protocol_versions(), &vec!["v9".to_owned()]);
    assert_eq!(server.tools().len(), 1);
    assert!(!server.authenticates());
    assert!(make_server().with_auth_hook().authenticates());
    let raw = r#"{"jsonrpc": "2.0", "id": 1, "method": "server/discover"}"#;
    let result = result_of(&server, raw);
    assert_eq!(result.get("instructions"), Some(&Json::text("Read me")));
    assert!(at(&result, &["capabilities"]).get("tools").is_none());
    assert_eq!(default_supported_versions(), vec!["2026-07-28", "2025-11-25"]);
}

#[test]
fn tasks_are_not_advertised_by_a_server_without_them() {
    let mut able = ServerCapabilities::tools_only();
    able.extensions = match json(r#"{"io.modelcontextprotocol/tasks":{},"x":{}}"#) {
        Json::Object(members) => Some(members),
        other => panic!("{other:?}"),
    };
    let raw = r#"{"jsonrpc": "2.0", "id": 1, "method": "server/discover"}"#;
    let result = result_of(&make_server().with_capabilities(able), raw);
    assert_eq!(at(&result, &["capabilities", "extensions"]), &json(r#"{"x":{}}"#));
}

#[test]
fn a_lost_task_store_is_an_internal_error() {
    let server: Server = McpServer::new("s", "1", ToolRegistry::new()).with_task_manager();
    let raw = r#"{"jsonrpc":"2.0","id":1,"method":"tasks/get","params":{"taskId":"t","_meta":{
        "io.modelcontextprotocol/protocolVersion":"2026-07-28",
        "io.modelcontextprotocol/clientInfo":{"name":"c","version":"1"},
        "io.modelcontextprotocol/clientCapabilities":{
            "extensions":{"io.modelcontextprotocol/tasks":{}}}}}}"#;
    match server.handle_raw(raw) {
        Step::Task { pending, op, task_id } => {
            assert_eq!(task_id.as_str(), "t");
            let response = finish_task(pending, op, Err(TaskError::Store("disk".to_owned())));
            assert_eq!(response.id, Some(Json::unsigned(1)));
            assert_eq!(response.error.expect("error").code, INTERNAL_ERROR);
        }
        _ => panic!("expected a task step"),
    }
}

#[test]
fn blank_lines_are_skipped() {
    let server = make_server();
    assert!(handle_line(&server, "  \t ").is_none());
    match handle_line(&server, r#"{"jsonrpc": "2.0", "id": 6, "method": "ping"}"#) {
        Some(Step::Reply(response)) => assert!(response.is_success()),
        _ => panic!("expected an answer"),
    }
}

#[test]
fn bodies_and_requests_are_answered_alike() {
    let server = make_server();
    match server.handle_raw(r#"{"method":"ping"}"#) {
        Step::Reply(response) => {
            let error = response.error.expect("error");
            assert_eq!(error.code, PARSE_ERROR);
            assert_eq!(error.message, "Parse error: missing field `jsonrpc` at line 1 column 17");
        }
        _ => panic!("expected an answer"),
    }
    match server.handle_request(JsonRpcRequest::new("ping", None)) {
        Step::Reply(response) => assert_eq!(response.result, Some(json("{}"))),
        _ => panic!("expected an answer"),
    }
}

#[test]
fn a_request_is_served_with_what_its_client_said() {
    let server = make_server().with_tool_dispatcher();
    let mut ctx = ToolContext::new();
    ctx.tenant_id = Some("t".to_owned());
    ctx.client_capabilities = Some(json(r#"{"before":{}}"#));
    match server.handle_raw(&modern(1, "2026-07-28", INFO)) {
        Step::ListTools(pending) => {
            let served = context_for(&ctx, &pending);
            assert_eq!(served.client_capabilities, Some(json("{}")));
            assert_eq!(served.tenant_id.as_deref(), Some("t"));
        }
        _ => panic!("the host lists its tools"),
    }
    match server.handle_raw(r#"{"jsonrpc":"2.0","id":1,"method":"tools/list"}"#) {
        Step::ListTools(pending) => {
            let served = context_for(&ctx, &pending);
            assert_eq!(served.client_capabilities, ctx.client_capabilities);
        }
        _ => panic!("the host lists its tools"),
    }
}
