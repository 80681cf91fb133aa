use dravr_tronc::json::{Float, Json};
use dravr_tronc::mcp::capabilities::{
    InitializeRequest, InitializeResponse, ServerCapabilities,
};
use dravr_tronc::mcp::messages::{
    CompleteRequest, CompleteResult, CreateMessageRequest, CreateMessageResult, ModelPreferences,
    OAuthCompletedNotification, ProgressNotification, PromptMessage, Root,
};
use dravr_tronc::mcp::modern::ModernClientInfo;
use dravr_tronc::mcp::protocol::{JsonRpcError, JsonRpcResponse};
use dravr_tronc::mcp::schema::{
    Content, ProtocolInfo, ServerInfo, TaskSupport, ToolCall, ToolExecution, ToolResponse,
};
use dravr_tronc::mcp::tasks::{Task, TaskStatus};

fn json(text: &str) -> Json {
    Json::parse(text).expect("json")
}

/// Whether two documents are equal, whatever the order of their members.
fn same_document(a: &Json, b: &Json) -> bool {
    match (a, b) {
        (Json::Object(left), Json::Object(right)) => {
            left.len() == right.len()
                && left.iter().all(|member| {
                    b.get(&member.key).is_some_and(|other| same_document(&member.value, other))
                })
        }
        (Json::Array(left), Json::Array(right)) => {
            left.len() == right.len()
                && left.iter().zip(right.iter()).all(|(a, b)| same_document(a, b))
        }
        _ => a == b,
    }
}

/// What is written after `text` was read, and what should be.
fn assert_shows(written: Option<Json>, expected: &str) {
    let written = written.unwrap_or_else(|| panic!("refused: {expected}"));
    assert!(same_document(&written, &json(expected)), "{written:?} is not {expected}");
}

fn content(text: &str) -> Option<Json> {
    Content::from_json(&json(text)).map(|content| content.to_json())
}

#[test]
fn content_is_read_by_its_kind() {
    for text in [
        r#"{"type":"text","text":"hi"}"#,
        r#"{"type":"image","data":"AA==","mimeType":"image/png"}"#,
        r#"{"type":"resource","uri":"file:///a"}"#,
        r#"{"type":"resource","uri":"file:///a","text":"t","mimeType":"text/plain"}"#,
        r#"{"type":"progress","progressToken":"p","progress":0.5,"total":2.0}"#,
        r#"{"type":"progress","progressToken":"p","progress":0.5,"total":null}"#,
    ] {
        assert_shows(content(text), text);
    }
    assert_shows(
        content(r#"{"text":"hi","type":"text","annotations":{}}"#),
        r#"{"type":"text","text":"hi"}"#,
    );
    assert_shows(content(r#"["text","hi"]"#), r#"{"type":"text","text":"hi"}"#);
    assert_shows(
        content(r#"["resource","u",null,"m"]"#),
        r#"{"type":"resource","uri":"u","mimeType":"m"}"#,
    );
    match Content::from_json(&json(r#"{"type":"text","text":"hi"}"#)) {
        Some(item) => assert_eq!(item.as_text(), Some("hi")),
        None => panic!("refused"),
    }
}

#[test]
fn what_is_no_content_is_refused() {
    for text in [
        "null",
        r#""text""#,
        "[]",
        r#"["text"]"#,
        r#"["text","a","b"]"#,
        r#"["resource","u"]"#,
        r#"{"text":"hi"}"#,
        r#"{"type":"audio","data":"","mimeType":""}"#,
        r#"{"type":0,"text":"hi"}"#,
        r#"{"type":"text"}"#,
        r#"{"type":"text","text":null}"#,
        r#"{"type":"image","data":"a"}"#,
        r#"{"type":"progress","progressToken":"p"}"#,
        r#"{"type":"progress","progressToken":"p","progress":null}"#,
        r#"{"type":"progress","progressToken":"p","progress":1,"total":"2"}"#,
    ] {
        assert!(content(text).is_none(), "{text}");
    }
}

#[test]
fn whole_numbers_are_held_as_floating_point_numbers() {
    for (read, held) in [
        ("0", "0.0"),
        ("-7", "-7.0"),
        ("42", "42.0"),
        ("9007199254740991", "9007199254740991.0"),
        ("-9007199254740991", "-9007199254740991.0"),
        ("18446744073709551615", "1.8446744073709552e19"),
        ("2.5", "2.5"),
    ] {
        assert_eq!(Float::from_json(&json(read)), Some(Float::Finite(held.to_owned())), "{read}");
    }
    assert_eq!(Float::from_json(&json("null")), None);
    assert_shows(
        content(r#"{"type":"progress","progressToken":"p","progress":3,"total":10}"#),
        r#"{"type":"progress","progressToken":"p","progress":3.0,"total":10.0}"#,
    );
}

#[test]
fn an_endless_progress_does_not_read_back() {
    let endless = Content::Progress {
        progress_token: "p".to_owned(),
        progress: Float::NotFinite,
        total: None,
    };
    assert!(Content::from_json(&endless.to_json()).is_none());
}

#[test]
fn an_answer_of_a_tool_reads_back_as_it_was_written() {
    let read = |text: &str| ToolResponse::from_json(&json(text)).map(|answer| answer.to_json());
    for text in [
        r#"{"content":[],"isError":false}"#,
        r#"{"content":[{"type":"text","text":"a"},{"type":"resource","uri":"u"}],"isError":true,
            "structuredContent":{"n":1}}"#,
    ] {
        assert_shows(read(text), text);
    }
    assert_shows(
        read(r#"{"content":[],"isError":false,"structuredContent":null}"#),
        r#"{"content":[],"isError":false}"#,
    );
    assert_shows(read(r#"[[["text","a"]],true,1]"#),
        r#"{"content":[{"type":"text","text":"a"}],"isError":true,"structuredContent":1}"#);
    for text in [
        r#"{"content":[]}"#,
        r#"{"isError":false}"#,
        r#"{"content":{},"isError":false}"#,
        r#"{"content":[{}],"isError":false}"#,
        r#"{"content":[],"isError":0}"#,
        r#"[[],true]"#,
    ] {
        assert!(read(text).is_none(), "{text}");
    }
    let written = ToolResponse::text("done".to_owned());
    let back = ToolResponse::from_json(&written.to_json()).expect("reads back");
    assert_eq!(back.to_json(), written.to_json());
}

#[test]
fn notifications_read_back_as_they_were_written() {
    let told = ProgressNotification::new(
        "p".to_owned(),
        Float::Finite("0.5".to_owned()),
        None,
        Some("halfway".to_owned()),
    );
    let back = ProgressNotification::from_json(&told.to_json()).expect("reads back");
    assert_eq!(back.to_json(), told.to_json());
    assert_eq!(back.params.message.as_deref(), Some("halfway"));
    let ended =
        OAuthCompletedNotification::new("strava".to_owned(), true, "ok".to_owned(), None);
    let back = OAuthCompletedNotification::from_json(&ended.to_json()).expect("reads back");
    assert_eq!(back.to_json(), ended.to_json());
    assert!(back.params.success);
    assert!(ProgressNotification::from_json(&ended.to_json()).is_none());
    assert!(OAuthCompletedNotification::from_json(&told.to_json()).is_none());
    assert!(ProgressNotification::from_json(&json(r#"{"jsonrpc":"2.0","method":"m"}"#)).is_none());
    assert!(OAuthCompletedNotification::from_json(&json(
        r#"{"jsonrpc":"2.0","method":"m",
            "params":{"provider":"p","success":1,"message":"m"}}"#
    ))
    .is_none());
}

#[test]
fn what_a_model_said_reads_back() {
    let read = |text: &str| CreateMessageResult::from_json(&json(text)).map(|said| said.to_json());
    for text in [
        r#"{"role":"assistant","content":{"type":"text","text":"hi"},"model":"m"}"#,
        r#"{"role":"assistant","content":{"type":"text","text":"hi"},"model":"m",
            "stopReason":"endTurn"}"#,
    ] {
        assert_shows(read(text), text);
    }
    for text in [
        r#"{"role":"assistant","content":"hi","model":"m"}"#,
        r#"{"role":"assistant","content":{"type":"text"},"model":"m"}"#,
        r#"{"role":"assistant","content":{"type":"text","text":"hi"}}"#,
        r#"{"role":"a","content":{"type":"text","text":"hi"},"model":"m","stopReason":1}"#,
    ] {
        assert!(read(text).is_none(), "{text}");
    }
    let message = PromptMessage::user(Content::Text { text: "hi".to_owned() });
    let back = PromptMessage::from_json(&message.to_json()).expect("reads back");
    assert_eq!(back.to_json(), message.to_json());
    assert!(PromptMessage::from_json(&json(r#"{"role":"user"}"#)).is_none());
}

#[test]
fn a_request_to_a_model_reads_back() {
    let read = |text: &str| CreateMessageRequest::from_json(&json(text)).map(|ask| ask.to_json());
    for text in [
        r#"{"messages":[],"maxTokens":-2147483648}"#,
        r#"{"messages":[{"role":"user","content":{"type":"text","text":"hi"}}],
            "modelPreferences":{"hints":[{"name":"a"},{}],"costPriority":0.5,
                                "speedPriority":0.25,"intelligencePriority":1.0},
            "systemPrompt":"s","includeContext":"none","maxTokens":2147483647,
            "temperature":0.75,"stopSequences":["x","y"],"metadata":{"k":null}}"#,
    ] {
        assert_shows(read(text), text);
    }
    for text in [
        r#"{"messages":[]}"#,
        r#"{"messages":[{}],"maxTokens":1}"#,
        r#"{"messages":[],"maxTokens":2147483648}"#,
        r#"{"messages":[],"maxTokens":-2147483649}"#,
        r#"{"messages":[],"maxTokens":1.0}"#,
        r#"{"messages":[],"maxTokens":1,"stopSequences":[1]}"#,
        r#"{"messages":[],"maxTokens":1,"metadata":[]}"#,
        r#"{"messages":[],"maxTokens":1,"modelPreferences":{"hints":[1]}}"#,
    ] {
        assert!(read(text).is_none(), "{text}");
    }
    assert_shows(
        ModelPreferences::from_json(&json(r#"{"costPriority":1}"#)).map(|it| it.to_json()),
        r#"{"costPriority":1.0}"#,
    );
}

#[test]
fn suggestions_read_back() {
    let ask = r#"{"ref":{"type":"ref/prompt","name":"p"},"argument":{"name":"a","value":"v"}}"#;
    assert_shows(CompleteRequest::from_json(&json(ask)).map(|it| it.to_json()), ask);
    assert!(CompleteRequest::from_json(&json(r#"{"ref":{"type":"t","name":"n"}}"#)).is_none());
    let read = |text: &str| CompleteResult::from_json(&json(text)).map(|it| it.to_json());
    for text in [
        r#"{"completion":{"values":[]}}"#,
        r#"{"completion":{"values":["a","b"],"total":7,"hasMore":true}}"#,
    ] {
        assert_shows(read(text), text);
    }
    for text in [
        r#"{"completion":{}}"#,
        r#"{"completion":{"values":null}}"#,
        r#"{"completion":{"values":[1]}}"#,
        r#"{"completion":{"values":[],"total":-1}}"#,
        r#"{"completion":{"values":[],"hasMore":"no"}}"#,
    ] {
        assert!(read(text).is_none(), "{text}");
    }
    let root = Root::from_json(&json(r#"{"uri":"file:///a","name":"a"}"#)).expect("a root");
    assert_eq!((root.uri.as_str(), root.name.as_str()), ("file:///a", "a"));
    assert!(Root::from_json(&json(r#"{"uri":"file:///a"}"#)).is_none());
}

#[test]
fn server_capabilities_read_back() {
    let read = |text: &str| ServerCapabilities::from_json(&json(text)).map(|it| it.to_json());
    let oauth2 = r#"{"discoveryUrl":"d","authorizationEndpoint":"a","tokenEndpoint":"t",
                     "registrationEndpoint":"r"}"#;
    let full = format!(
        r#"{{"experimental":{{"x":1}},"logging":{{}},"prompts":{{"listChanged":true}},
            "resources":{{"subscribe":true,"listChanged":false}},"tools":{{}},
            "auth":{{"oauth2":{oauth2}}},"oauth2":{oauth2},"completion":{{}},"sampling":{{}},
            "extensions":{{"io.modelcontextprotocol/tasks":{{}}}}}}"#
    );
    for text in ["{}", r#"{"tools":{"listChanged":false}}"#, full.as_str()] {
        assert_shows(read(text), text);
    }
    assert_shows(read(r#"{"logging":null,"auth":{"oauth2":null},"other":1}"#), r#"{"auth":{}}"#);
    for text in [
        "[]",
        r#"{"logging":1}"#,
        r#"{"logging":[1]}"#,
        r#"{"tools":{"listChanged":1}}"#,
        r#"{"resources":{"subscribe":"yes"}}"#,
        r#"{"oauth2":{"discoveryUrl":"d"}}"#,
        r#"{"extensions":[]}"#,
    ] {
        assert!(read(text).is_none(), "{text}");
    }
    let tools = ServerCapabilities::tools_only();
    let back = ServerCapabilities::from_json(&tools.to_json()).expect("reads back");
    assert_eq!(back.to_json(), tools.to_json());
}

#[test]
fn the_answer_to_a_handshake_reads_back() {
    let response = InitializeResponse::new(
        "2025-11-25".to_owned(),
        ServerInfo::new("s", "1"),
        ServerCapabilities::tools_only(),
        Some("be kind".to_owned()),
    );
    let back = InitializeResponse::from_json(&response.to_json()).expect("reads back");
    assert_eq!(back.to_json(), response.to_json());
    assert_eq!(back.instructions.as_deref(), Some("be kind"));
    assert!(InitializeResponse::from_json(&json(r#"{"protocolVersion":"v"}"#)).is_none());
    assert!(ServerInfo::from_json(&json(r#"{"name":"s"}"#)).is_none());
    let info = ProtocolInfo::from_json(&json(r#"{"protocolVersion":"v"}"#)).expect("a version");
    assert_eq!(info.protocol_version, "v");
    assert!(ProtocolInfo::from_json(&json("{}")).is_none());
}

#[test]
fn a_response_reads_back_as_it_was_written() {
    let fine = JsonRpcResponse::success(Some(json("7")), json(r#"{"ok":true}"#));
    let back = JsonRpcResponse::from_json(&fine.to_json()).expect("reads back");
    assert_eq!(back.to_json(), fine.to_json());
    assert!(back.error.is_none());
    let failed = JsonRpcResponse::error(None, -32600, "no");
    let back = JsonRpcResponse::from_json(&failed.to_json()).expect("reads back");
    assert_eq!(back.to_json(), failed.to_json());
    assert!(back.id.is_none());
    assert_eq!(back.error.expect("an error").code, -32600);
    let nothing = JsonRpcResponse::success(Some(json("7")), Json::Null);
    let back = JsonRpcResponse::from_json(&nothing.to_json()).expect("reads back");
    assert!(back.result.is_none(), "null reads as absent");
    assert!(JsonRpcResponse::from_json(&json(r#"{"result":1,"id":1}"#)).is_none());
    assert!(JsonRpcResponse::from_json(&json(r#"{"jsonrpc":"2.0","error":{}}"#)).is_none());
    assert!(JsonRpcError::from_json(&json(r#"{"code":2147483648,"message":"m"}"#)).is_none());
    assert!(JsonRpcError::from_json(&json(r#"{"code":-1}"#)).is_none());
}

#[test]
fn a_word_may_stand_as_the_one_member_of_an_object() {
    let execution = ToolExecution::from_json(&json(r#"{"taskSupport":{"optional":null}}"#));
    assert!(matches!(execution.expect("a level").task_support, TaskSupport::Optional));
    assert!(ToolExecution::from_json(&json(r#"{"taskSupport":{"optional":1}}"#)).is_none());
    assert!(ToolExecution::from_json(&json(r#"{"taskSupport":{}}"#)).is_none());
    let task = Task::from_json(&json(
        r#"{"taskId":"t","status":{"working":null},"createdAt":"c","lastUpdatedAt":"u",
            "ttlMs":null}"#,
    ));
    assert_eq!(task.expect("a task").status, TaskStatus::Working);
}

#[test]
fn a_task_may_be_an_array_of_its_fields() {
    let named = Task::from_json(&json(
        r#"{"taskId":"t","status":"completed","statusMessage":"m","createdAt":"c",
            "lastUpdatedAt":"u","ttlMs":5,"pollIntervalMs":6}"#,
    ))
    .expect("a task");
    let listed = Task::from_json(&json(r#"["t","completed","m","c","u",5,6]"#)).expect("a task");
    assert_eq!(listed.to_json(), named.to_json());
    assert!(Task::from_json(&json(r#"["t","completed"]"#)).is_err());
    assert!(Task::from_json(&json(r#"["t","completed","m","c","u",5,6,7]"#)).is_err());
}

#[test]
fn a_handshake_says_all_that_it_says() {
    let text = r#"{"protocolVersion":"v","clientInfo":{"name":"c","version":"1","title":"T",
            "websiteUrl":"w"},"capabilities":{"sampling":{},"roots":{"listChanged":true},
            "experimental":{"x":1}},"oauthCredentials":{"app":{}}}"#;
    let request = InitializeRequest::from_json(&json(text)).expect("a request");
    assert_shows(Some(request.to_json()), text);
    assert_eq!(request.client_info.title.as_deref(), Some("T"));
    assert_eq!(request.client_info.description, None);
    assert_eq!(request.client_info.website_url.as_deref(), Some("w"));
    assert!(request.capabilities.sampling.is_some());
    assert_eq!(request.capabilities.roots.expect("roots").list_changed, Some(true));
    assert_eq!(request.capabilities.experimental.expect("some").len(), 1);
    assert_eq!(request.oauth_credentials.expect("some")[0].key, "app");
}

#[test]
fn a_call_reads_back_as_it_was_written() {
    let call = ToolCall { name: "t".to_owned(), arguments: Some(json(r#"{"a":1}"#)) };
    assert_shows(Some(call.to_json()), r#"{"name":"t","arguments":{"a":1}}"#);
    let back = ToolCall::from_json(&call.to_json()).expect("reads back");
    assert_eq!(back.to_json(), call.to_json());
    let bare = ToolCall { name: "t".to_owned(), arguments: None };
    assert_shows(Some(bare.to_json()), r#"{"name":"t","arguments":null}"#);
    assert_eq!(ToolCall::from_json(&bare.to_json()).expect("reads back").arguments, None);
    let client = ModernClientInfo { name: "c".to_owned(), version: "2".to_owned() };
    assert_shows(Some(client.to_json()), r#"{"name":"c","version":"2"}"#);
    let back = ModernClientInfo::from_json(&client.to_json()).expect("reads back");
    assert_eq!((back.name.as_str(), back.version.as_str()), ("c", "2"));
}
