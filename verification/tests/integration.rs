use dravr_tronc::json::Json;
use dravr_tronc::mcp::host::CallToolOutcome;
use dravr_tronc::mcp::protocol::JsonRpcResponse;
use dravr_tronc::mcp::schema::{Tool, ToolResponse};
use dravr_tronc::mcp::server::{McpServer, Step};
use dravr_tronc::mcp::tool::{CallDecision, ToolCapabilities, ToolContext, ToolRegistry};

struct AppState {
    greeting: String,
    counter: i32,
}

type Handler = fn(&AppState, &Json) -> ToolResponse;

fn tool(name: &str, schema: &str) -> Tool {
    Tool {
        name: name.to_owned(),
        description: name.to_owned(),
        input_schema: Json::parse(schema).expect("json"),
        output_schema: None,
        annotations: None,
        execution: None,
    }
}

fn text_argument<'a>(arguments: &'a Json, name: &str, default: &'a str) -> &'a str {
    match arguments.get(name) {
        Some(Json::Text(text)) => text,
        _ => default,
    }
}

fn greet(state: &AppState, arguments: &Json) -> ToolResponse {
    let name = text_argument(arguments, "name", "stranger");
    ToolResponse::text(format!("{} {name}", state.greeting))
}

fn uppercase(_: &AppState, arguments: &Json) -> ToolResponse {
    ToolResponse::text(text_argument(arguments, "text", "").to_uppercase())
}

fn counter(state: &AppState, _: &Json) -> ToolResponse {
    ToolResponse::text(format!("counter: {}", state.counter))
}

fn registry() -> ToolRegistry<Handler> {
    let mut registry: ToolRegistry<Handler> = ToolRegistry::new();
    registry.register(
        tool(
            "greet",
            r#"{
                "type": "object",
                "properties": {
                    "name": { "type": "string", "description": "Person to greet" }
                },
                "required": ["name"]
            }"#,
        ),
        ToolCapabilities::empty(),
        greet,
    );
    registry.register(
        tool("uppercase", r#"{ "type": "object", "properties": { "text": { "type": "string" } } }"#),
        ToolCapabilities::empty(),
        uppercase,
    );
    registry
}

fn state(greeting: &str) -> AppState {
    AppState { greeting: greeting.to_owned(), counter: 42 }
}

fn handle(server: &McpServer<Handler>, state: &AppState, raw: &str) -> Option<JsonRpcResponse> {
    match server.handle_raw(raw) {
        Step::Silent => None,
        Step::Reply(response) => Some(response),
        Step::RunTool { pending, handler, arguments } => {
            let answer = handler(state, &arguments);
            Some(server.finish_call(pending, CallToolOutcome::from(answer)))
        }
        _ => panic!("nothing else is installed"),
    }
}

fn text_of(response: &JsonRpcResponse) -> String {
    let content = response.result.as_ref().and_then(|result| result.get("content"));
    match content {
        Some(Json::Array(items)) => {
            items[0].get("text").and_then(|text| text.as_str()).expect("text").to_owned()
        }
        other => panic!("content was {other:?}"),
    }
}

#[test]
fn tool_reads_shared_state() {
    let server = McpServer::new("test", "0.1", registry());
    let raw = r#"{"jsonrpc":"2.0","id":1,"method":"tools/call","params":{"name":"greet","arguments":{"name":"Jean"}}}"#;
    let response = handle(&server, &state("Bonjour"), raw).expect("response");
    assert_eq!(text_of(&response), "Bonjour Jean");
}

#[test]
fn multiple_sequential_requests_maintain_state() {
    let server = McpServer::new("integration-test", "0.0.1", registry());
    for i in 1..=5 {
        let raw = format!(
            r#"{{"jsonrpc":"2.0","id":{i},"method":"tools/call","params":{{"name":"uppercase","arguments":{{"text":"hello"}}}}}}"#
        );
        let response = handle(&server, &state("Hello"), &raw).expect("response");
        assert_eq!(text_of(&response), "HELLO");
        assert_eq!(response.id, Some(Json::unsigned(i)));
    }
}

#[test]
fn execute_reads_state() {
    let mut registry: ToolRegistry<Handler> = ToolRegistry::new();
    registry.register(
        tool("counter", r#"{"type": "object"}"#),
        ToolCapabilities::empty(),
        counter,
    );
    match registry.decide("counter", &ToolContext::new()) {
        CallDecision::Run(handler) => {
            let answer = handler(&state(""), &Json::Null);
            assert_eq!(answer.content[0].as_text(), Some("counter: 42"));
        }
        CallDecision::Refuse(answer) => panic!("refused: {answer:?}"),
    }
}
