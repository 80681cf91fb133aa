use dravr_tronc::json::{Float, Json};
use dravr_tronc::mcp::capabilities::{
    CompletionCapability, LoggingCapability, OAuth2Capability, PromptsCapability,
    ResourcesCapability, SamplingCapability, ServerCapabilities, ToolsCapability,
};
use dravr_tronc::mcp::messages::{
    ArgumentValue, CompleteRequest, CompleteResult, Completion, CompletionReference,
    CreateMessageRequest, CreateMessageResult, MessageContent, ModelHint, ModelPreferences,
    OAuthCompletedNotification, ProgressNotification, PromptMessage, Root,
};
use dravr_tronc::mcp::schema::{Content, ServerInfo};

fn json(text: &str) -> Json {
    Json::parse(text).expect("json")
}

/// Whether two documents are equal, whatever the order of their members.
fn same_document(a: &Json, b: &Json) -> bool {
    match (a, b) {
        (Json::Object(left), Json::Object(right)) => {
            left.len() == right.len()
                && left.iter().all(|member| {
                    b.get(&member.key).is_some_and(|other| same_document(&member.value, other))
                })
        }
        (Json::Array(left), Json::Array(right)) => {
            left.len() == right.len()
                && left.iter().zip(right.iter()).all(|(a, b)| same_document(a, b))
        }
        _ => a == b,
    }
}

fn assert_wire(written: &Json, expected: &str) {
    assert!(same_document(written, &json(expected)), "{written:?} is not {expected}");
}

fn text(text: &str) -> Content {
    Content::Text { text: text.to_owned() }
}

fn float(text: &str) -> Float {
    Float::Finite(text.to_owned())
}

#[test]
fn progress_is_told_with_its_total_even_when_unknown() {
    let progress = ProgressNotification::new("p".to_owned(), float("0.5"), None, None);
    assert_wire(
        &progress.to_json(),
        r#"{"jsonrpc":"2.0","method":"notifications/progress",
            "params":{"progressToken":"p","progress":0.5,"total":null}}"#,
    );
    let done = ProgressNotification::new(
        "p".to_owned(),
        float("1.0"),
        Some(float("1.0")),
        Some("done".to_owned()),
    );
    assert_wire(
        &done.to_json(),
        r#"{"jsonrpc":"2.0","method":"notifications/progress",
            "params":{"progressToken":"p","progress":1.0,"total":1.0,"message":"done"}}"#,
    );
    let cancelled = ProgressNotification::cancelled("p".to_owned(), None);
    assert_wire(
        &cancelled.to_json(),
        r#"{"jsonrpc":"2.0","method":"notifications/cancelled",
            "params":{"progressToken":"p","progress":0.0,"total":null}}"#,
    );
}

#[test]
fn the_end_of_an_oauth_flow_is_told() {
    let told = OAuthCompletedNotification::new(
        "strava".to_owned(),
        true,
        "connected".to_owned(),
        Some("u1".to_owned()),
    );
    assert_wire(
        &told.to_json(),
        r#"{"jsonrpc":"2.0","method":"notifications/oauth_completed",
            "params":{"provider":"strava","success":true,"message":"connected","user_id":"u1"}}"#,
    );
}

#[test]
fn a_sampling_request_leaves_out_what_is_not_asked_for() {
    let bare = CreateMessageRequest {
        messages: vec![PromptMessage::user(text("hi")), PromptMessage::assistant(text("yes?"))],
        model_preferences: None,
        system_prompt: None,
        include_context: None,
        max_tokens: -1,
        temperature: None,
        stop_sequences: None,
        metadata: None,
    };
    assert_wire(
        &bare.to_json(),
        r#"{"messages":[{"role":"user","content":{"type":"text","text":"hi"}},
                        {"role":"assistant","content":{"type":"text","text":"yes?"}}],
            "maxTokens":-1}"#,
    );
    let full = CreateMessageRequest {
        messages: Vec::new(),
        model_preferences: Some(ModelPreferences {
            hints: Some(vec![ModelHint { name: Some("m".to_owned()) }, ModelHint { name: None }]),
            cost_priority: Some(float("0.1")),
            speed_priority: None,
            intelligence_priority: Some(float("1.0")),
        }),
        system_prompt: Some("s".to_owned()),
        include_context: Some("none".to_owned()),
        max_tokens: 100,
        temperature: Some(float("0.7")),
        stop_sequences: Some(vec!["x".to_owned()]),
        metadata: Some(Vec::new()),
    };
    assert_wire(
        &full.to_json(),
        r#"{"messages":[],
            "modelPreferences":{"hints":[{"name":"m"},{}],"costPriority":0.1,
                                "intelligencePriority":1.0},
            "systemPrompt":"s","includeContext":"none","maxTokens":100,"temperature":0.7,
            "stopSequences":["x"],"metadata":{}}"#,
    );
}

#[test]
fn sampling_and_completion_results_are_told() {
    let result = CreateMessageResult {
        role: "assistant".to_owned(),
        content: MessageContent { content_type: "text".to_owned(), text: "t".to_owned() },
        model: "m".to_owned(),
        stop_reason: None,
    };
    assert_wire(
        &result.to_json(),
        r#"{"role":"assistant","content":{"type":"text","text":"t"},"model":"m"}"#,
    );
    let asked = CompleteRequest {
        ref_: CompletionReference { type_: "ref/prompt".to_owned(), name: "n".to_owned() },
        argument: ArgumentValue { name: "a".to_owned(), value: "v".to_owned() },
    };
    assert_wire(
        &asked.to_json(),
        r#"{"ref":{"type":"ref/prompt","name":"n"},"argument":{"name":"a","value":"v"}}"#,
    );
    let completed = CompleteResult {
        completion: Completion {
            values: vec!["v1".to_owned()],
            total: Some(1),
            has_more: Some(false),
        },
    };
    assert_wire(
        &completed.to_json(),
        r#"{"completion":{"values":["v1"],"total":1,"hasMore":false}}"#,
    );
    let root = Root { uri: "file:///".to_owned(), name: "root".to_owned() };
    assert_wire(&root.to_json(), r#"{"uri":"file:///","name":"root"}"#);
}

#[test]
fn content_is_tagged_by_its_kind() {
    let image = Content::Image { data: "AAAA".to_owned(), mime_type: "image/png".to_owned() };
    assert_wire(&image.to_json(), r#"{"type":"image","data":"AAAA","mimeType":"image/png"}"#);
}

#[test]
fn capabilities_are_told_as_far_as_they_are_there() {
    assert_wire(&ServerCapabilities::none().to_json(), "{}");
    let mut able = ServerCapabilities::tools_only();
    able.logging = Some(LoggingCapability {});
    able.completion = Some(CompletionCapability {});
    able.sampling = Some(SamplingCapability {});
    able.prompts = Some(PromptsCapability { list_changed: Some(true) });
    able.resources = Some(ResourcesCapability { subscribe: Some(true), list_changed: None });
    able.tools = Some(ToolsCapability { list_changed: None });
    able.oauth2 = Some(OAuth2Capability {
        discovery_url: "d".to_owned(),
        authorization_endpoint: "a".to_owned(),
        token_endpoint: "t".to_owned(),
        registration_endpoint: "r".to_owned(),
    });
    let written = able.to_json();
    for key in ["logging", "completion", "sampling", "tools"] {
        assert_eq!(written.get(key), Some(&json("{}")), "{key}");
    }
    assert_eq!(written.get("prompts"), Some(&json(r#"{"listChanged":true}"#)));
    assert_eq!(written.get("resources"), Some(&json(r#"{"subscribe":true}"#)));
    assert!(written.get("oauth2").is_some());
    assert!(written.get("extensions").is_none());
}

#[test]
fn a_server_is_named_with_what_is_known_of_it() {
    let mut info = ServerInfo::new("n", "1");
    assert_wire(&info.to_json(), r#"{"name":"n","version":"1"}"#);
    info.title = Some("T".to_owned());
    info.website_url = Some("https://x.test".to_owned());
    assert_wire(
        &info.to_json(),
        r#"{"name":"n","version":"1","title":"T","websiteUrl":"https://x.test"}"#,
    );
}
