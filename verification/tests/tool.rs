use dravr_tronc::json::Json;
use dravr_tronc::mcp::computation::{definition, respond, Computed};
use dravr_tronc::mcp::schema::{Tool, ToolResponse};
use dravr_tronc::mcp::tool::{CallDecision, ToolCapabilities, ToolContext, ToolRegistry};

type Handler = fn(&Json) -> ToolResponse;

fn json(text: &str) -> Json {
    Json::parse(text).expect("json")
}

fn tool(name: &str, description: &str) -> Tool {
    Tool {
        name: name.to_owned(),
        description: description.to_owned(),
        input_schema: json(r#"{"type": "object"}"#),
        output_schema: None,
        annotations: None,
        execution: None,
    }
}

fn echo(arguments: &Json) -> ToolResponse {
    let message = match arguments.get("message") {
        Some(Json::Text(message)) => message.as_str(),
        _ => "(empty)",
    };
    ToolResponse::text(format!("echo: {message}"))
}

fn counter(_: &Json) -> ToolResponse {
    ToolResponse::text("counter: 42".to_owned())
}

fn reset(_: &Json) -> ToolResponse {
    ToolResponse::text("reset".to_owned())
}

fn add_echo(registry: &mut ToolRegistry<Handler>) {
    registry.register(tool("echo", "Echoes the input"), ToolCapabilities::reads_data(), echo);
}

fn add_counter(registry: &mut ToolRegistry<Handler>) {
    registry.register(
        tool("counter", "Returns the counter value"),
        ToolCapabilities::empty(),
        counter,
    );
}

fn add_admin(registry: &mut ToolRegistry<Handler>) {
    registry.register(
        tool("admin_reset", "Admin-only reset"),
        ToolCapabilities::admin_only().union(ToolCapabilities::writes_data()),
        reset,
    );
}

fn execute(
    registry: &ToolRegistry<Handler>,
    name: &str,
    ctx: &ToolContext,
    arguments: &Json,
) -> ToolResponse {
    match registry.decide(name, ctx) {
        CallDecision::Run(handler) => handler(arguments),
        CallDecision::Refuse(answer) => answer,
    }
}

#[test]
fn empty_registry() {
    let registry = ToolRegistry::<Handler>::new();
    assert!(registry.is_empty());
    assert_eq!(registry.len(), 0);
    assert!(registry.list_definitions().is_empty());
}

#[test]
fn default_is_empty() {
    let registry = ToolRegistry::<Handler>::default();
    assert!(registry.is_empty());
}

#[test]
fn register_and_list() {
    let mut registry = ToolRegistry::<Handler>::new();
    add_echo(&mut registry);
    add_counter(&mut registry);

    assert_eq!(registry.len(), 2);
    assert!(!registry.is_empty());

    let defs = registry.list_definitions();
    assert_eq!(defs.len(), 2);

    let names: Vec<&str> = defs.iter().map(|d| d.name.as_str()).collect();
    assert!(names.contains(&"echo"));
    assert!(names.contains(&"counter"));
}

#[test]
fn register_replaces_duplicate_name() {
    let mut registry = ToolRegistry::<Handler>::new();
    add_echo(&mut registry);
    add_echo(&mut registry);
    assert_eq!(registry.len(), 1);
}

#[test]
fn a_replaced_tool_runs_as_the_last_one_registered() {
    let mut registry = ToolRegistry::<Handler>::new();
    add_echo(&mut registry);
    registry.register(tool("echo", "Another"), ToolCapabilities::profile(), counter);
    let answer = execute(&registry, "echo", &ToolContext::new(), &Json::Null);
    assert_eq!(answer.content[0].as_text(), Some("counter: 42"));
    assert_eq!(registry.list_definitions()[0].description, "Another");
}

#[test]
fn register_with_category_tracks_membership() {
    let mut registry = ToolRegistry::<Handler>::new();
    registry.register_with_category(
        tool("echo", "Echoes the input"),
        ToolCapabilities::reads_data(),
        echo,
        "data",
    );
    registry.register_with_category(
        tool("counter", "Returns the counter value"),
        ToolCapabilities::empty(),
        counter,
        "data",
    );

    assert!(registry.categories().contains(&"data"));
    let mut in_data = registry.tools_in_category("data");
    in_data.sort_unstable();
    assert_eq!(in_data, vec!["counter", "echo"]);
    assert!(registry.tools_in_category("missing").is_empty());
}

#[test]
fn capabilities_are_reported() {
    let mut registry = ToolRegistry::<Handler>::new();
    add_echo(&mut registry);
    assert_eq!(registry.capabilities_of("echo"), Some(ToolCapabilities::reads_data()));
    assert!(registry.capabilities_of("missing").is_none());
}

#[test]
fn admin_only_tools_hidden_from_non_admins() {
    let mut registry = ToolRegistry::<Handler>::new();
    add_echo(&mut registry);
    add_admin(&mut registry);

    let user_visible = registry.list_definitions_for(false);
    assert_eq!(user_visible.len(), 1);
    assert_eq!(user_visible[0].name, "echo");

    let admin_visible = registry.list_definitions_for(true);
    assert_eq!(admin_visible.len(), 2);
}

#[test]
fn execute_known_tool() {
    let mut registry = ToolRegistry::<Handler>::new();
    add_echo(&mut registry);
    let result =
        execute(&registry, "echo", &ToolContext::new(), &json(r#"{"message": "hello"}"#));
    assert!(!result.is_error);
    assert_eq!(result.content[0].as_text(), Some("echo: hello"));
}

#[test]
fn execute_unknown_tool_returns_error() {
    let registry = ToolRegistry::<Handler>::new();
    let result = execute(&registry, "nonexistent", &ToolContext::new(), &json("{}"));
    assert!(result.is_error);
    assert!(result.content[0].as_text().expect("text").contains("Unknown tool"));
}

#[test]
fn admin_only_tool_rejects_non_admin() {
    let mut registry = ToolRegistry::<Handler>::new();
    add_admin(&mut registry);

    let denied = execute(&registry, "admin_reset", &ToolContext::new(), &json("{}"));
    assert!(denied.is_error);
    assert!(denied.content[0].as_text().expect("text").contains("admin"));

    let admin = ToolContext::new().as_admin(true);
    let allowed = execute(&registry, "admin_reset", &admin, &json("{}"));
    assert!(!allowed.is_error);
    assert_eq!(allowed.content[0].as_text(), Some("reset"));
}

#[test]
fn tool_definitions_have_required_fields() {
    let def = tool("echo", "Echoes the input");
    assert!(!def.name.is_empty());
    assert!(!def.description.is_empty());
    assert!(matches!(def.input_schema, Json::Object(_)));
}

#[test]
fn capabilities_are_flags() {
    let both = ToolCapabilities::reads_data().union(ToolCapabilities::requires_auth());
    assert!(both.contains(ToolCapabilities::reads_data()));
    assert!(both.contains(ToolCapabilities::requires_auth()));
    assert!(!both.contains(ToolCapabilities::admin_only()));
    assert!(both.contains(ToolCapabilities::empty()));
}

#[test]
fn a_context_knows_the_extensions_its_client_declared() {
    let ctx = ToolContext::new().with_client_capabilities(json(
        r#"{"extensions":{"io.modelcontextprotocol/tasks":{},"other":null}}"#,
    ));
    assert!(ctx.supports_tasks());
    assert!(ctx.declares_extension("other"));
    assert!(!ctx.declares_extension("absent"));
    assert!(!ToolContext::new().supports_tasks());
}

#[test]
fn a_computation_error_is_a_tool_error_naming_the_tool() {
    let answer = respond("warmest_reading", Computed::Refused("celsius is empty".to_owned()));
    assert!(answer.is_error);
    assert_eq!(answer.content[0].as_text(), Some("warmest_reading: celsius is empty"));
}

#[test]
fn malformed_arguments_name_the_tool() {
    let answer = respond(
        "warmest_reading",
        Computed::BadArguments("invalid type: string \"warm\", expected a sequence".to_owned()),
    );
    assert!(answer.is_error);
    assert!(answer.content[0]
        .as_text()
        .expect("text")
        .starts_with("warmest_reading: invalid arguments: invalid type: string"));
}

#[test]
fn a_rendered_result_is_passed_on_as_it_is() {
    let rendered = r#"{"celsius":12.8,"count":3}"#;
    let answer = respond("warmest_reading", Computed::Rendered(rendered.to_owned()));
    assert!(!answer.is_error);
    assert_eq!(answer.content[0].as_text(), Some(rendered));
    let answer = respond("warmest_reading", Computed::Unrenderable("key".to_owned()));
    assert!(answer.is_error);
}

#[test]
fn the_definition_is_generated_from_the_input_type() {
    let tool = definition(
        "warmest_reading",
        "Warmest reading",
        "The highest of the given temperatures.",
        json(r#"{"type":"object","required":["celsius"]}"#),
    );
    let wire = tool.to_json();
    assert_eq!(wire.get("name"), Some(&Json::text("warmest_reading")));
    assert_eq!(
        wire.get("description"),
        Some(&Json::text("The highest of the given temperatures."))
    );
    let schema = wire.get("inputSchema").expect("inputSchema");
    assert_eq!(schema.get("type"), Some(&Json::text("object")));
    let annotations = wire.get("annotations").expect("annotations");
    assert_eq!(annotations.get("title"), Some(&Json::text("Warmest reading")));
    assert_eq!(annotations.get("readOnlyHint"), Some(&Json::Bool(true)));
    assert_eq!(annotations.get("openWorldHint"), Some(&Json::Bool(false)));
}
