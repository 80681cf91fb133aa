use dravr_tronc::json::{Float, Json, Number};
use dravr_tronc::mcp::json_schema::{JsonSchema, PropertySchema, SchemaMap, ToolSchema};
use dravr_tronc::mcp::protocol::PROTOCOL_VERSION;
use dravr_tronc::mcp::schema::{
    Content, InitializeRequest, InitializeResponse, ServerCapabilities, ServerInfo, TaskSupport,
    Tool, ToolAnnotations, ToolCall, ToolExecution, ToolResponse,
};

fn json(text: &str) -> Json {
    Json::parse(text).expect("json")
}

fn at<'a>(json: &'a Json, path: &[&str]) -> &'a Json {
    let mut here = json;
    for key in path {
        here = here.get(key).expect("member");
    }
    here
}

fn items(json: &Json) -> &Vec<Json> {
    match json {
        Json::Array(items) => items,
        other => panic!("not an array: {other:?}"),
    }
}

fn keys(json: &Json) -> Vec<String> {
    match json {
        Json::Object(members) => members.iter().map(|member| member.key.clone()).collect(),
        other => panic!("not an object: {other:?}"),
    }
}

/// Whether two documents are equal, whatever the order of their members.
fn same_document(a: &Json, b: &Json) -> bool {
    match (a, b) {
        (Json::Object(left), Json::Object(right)) => {
            left.len() == right.len()
                && left.iter().all(|member| {
                    b.get(&member.key).is_some_and(|other| same_document(&member.value, other))
                })
        }
        (Json::Array(left), Json::Array(right)) => {
            left.len() == right.len()
                && left.iter().zip(right.iter()).all(|(a, b)| same_document(a, b))
        }
        _ => a == b,
    }
}

fn tool(execution: Option<ToolExecution>) -> Tool {
    Tool {
        name: "test_tool".to_owned(),
        description: "A test".to_owned(),
        input_schema: json(r#"{"type": "object"}"#),
        output_schema: None,
        annotations: None,
        execution,
    }
}

#[test]
fn tool_serializes_input_schema_as_camel_case() {
    let json = tool(None).to_json();
    assert_eq!(json.get("name"), Some(&Json::text("test_tool")));
    assert!(json.get("inputSchema").is_some());
    assert!(json.get("input_schema").is_none());
    assert!(json.get("annotations").is_none());
}

#[test]
fn tool_call_arguments_default_to_none() {
    let call = ToolCall::from_json(&json(r#"{"name": "my_tool"}"#)).expect("deserialize");
    assert_eq!(call.name, "my_tool");
    assert!(call.arguments.is_none());
}

#[test]
fn tool_response_text_is_not_error() {
    let resp = ToolResponse::text("hello".to_owned());
    assert!(!resp.is_error);
    assert_eq!(resp.content.len(), 1);
    assert_eq!(resp.content[0].as_text(), Some("hello"));
}

#[test]
fn tool_response_error_sets_is_error() {
    let resp = ToolResponse::error("oops".to_owned());
    assert!(resp.is_error);
    let json = resp.to_json();
    assert_eq!(json.get("isError"), Some(&Json::Bool(true)));
    let content = items(at(&json, &["content"]));
    assert_eq!(content[0].get("type"), Some(&Json::text("text")));
    assert_eq!(content[0].get("text"), Some(&Json::text("oops")));
}

#[test]
fn initialize_response_serializes_camel_case() {
    let result = InitializeResponse::new(
        PROTOCOL_VERSION.to_owned(),
        ServerInfo::new("test", "0.1.0"),
        ServerCapabilities::tools_only(),
        None,
    );
    let json = result.to_json();
    assert!(json.get("protocolVersion").is_some());
    assert!(json.get("serverInfo").is_some());
    assert_eq!(at(&json, &["capabilities", "tools", "listChanged"]), &Json::Bool(false));
    assert!(json.get("protocol_version").is_none());
}

#[test]
fn initialize_request_deserializes_camel_case() {
    let raw = r#"{
        "protocolVersion": "2025-11-25",
        "capabilities": {},
        "clientInfo": { "name": "test-client", "version": "1.0" }
    }"#;
    let req = InitializeRequest::from_json(&json(raw)).expect("deserialize");
    assert_eq!(req.protocol_version, "2025-11-25");
    assert_eq!(req.client_info.name, "test-client");
    assert_eq!(req.client_info.version, "1.0");
}

#[test]
fn content_as_text_only_matches_text_variant() {
    let img = Content::Image { data: "AAAA".to_owned(), mime_type: "image/png".to_owned() };
    assert!(img.as_text().is_none());
}

#[test]
fn progress_that_is_no_number_is_null() {
    let progress = Content::Progress {
        progress_token: "p".to_owned(),
        progress: Float::Finite("0.5".to_owned()),
        total: Some(Float::NotFinite),
    };
    let json = progress.to_json();
    assert_eq!(json.get("progress"), Some(&Json::Number(Number::Float("0.5".to_owned()))));
    assert_eq!(json.get("total"), Some(&Json::Null));
}

#[test]
fn tool_execution_task_support_round_trips() {
    let long = Tool {
        name: "long_tool".to_owned(),
        description: "may answer with a handle".to_owned(),
        ..tool(Some(ToolExecution { task_support: TaskSupport::Optional }))
    };
    let wire = long.to_json();
    assert_eq!(at(&wire, &["execution", "taskSupport"]), &Json::text("optional"));

    let back = Tool::from_json(&wire).expect("deserialize");
    assert_eq!(back.execution.expect("execution present").task_support, TaskSupport::Optional);

    let bare = Tool {
        name: "sync_tool".to_owned(),
        description: "always inline".to_owned(),
        ..tool(None)
    };
    let wire = bare.to_json();
    assert!(wire.get("execution").is_none());
    let back = Tool::from_json(&wire).expect("deserialize");
    assert!(back.execution.is_none());
}

#[test]
fn a_tool_reads_back_as_it_was_written() {
    let mut written = tool(Some(ToolExecution { task_support: TaskSupport::Required }));
    written.output_schema = Some(json(r#"{"type":"string"}"#));
    written.annotations = Some(ToolAnnotations {
        title: Some("T".to_owned()),
        read_only_hint: Some(true),
        destructive_hint: None,
        idempotent_hint: Some(false),
        open_world_hint: None,
    });
    let wire = written.to_json();
    let back = Tool::from_json(&wire).expect("deserialize");
    assert_eq!(back.to_json(), wire);
    assert_eq!(back.annotations.expect("annotations").title.as_deref(), Some("T"));
    assert!(Tool::from_json(&json(r#"{"name":"x","description":"y"}"#)).is_none());
}

// JSON Schema

fn string_property(description: &str) -> PropertySchema {
    PropertySchema {
        property_type: "string".to_owned(),
        description: Some(description.to_owned()),
        ..Default::default()
    }
}

fn object_schema() -> JsonSchema {
    JsonSchema { schema_type: "object".to_owned(), ..Default::default() }
}

#[test]
fn a_simple_object_schema_is_unchanged_on_the_wire() {
    let mut properties = SchemaMap::new();
    properties.insert("name".to_owned(), string_property("Person to greet"));
    let schema = JsonSchema {
        schema_type: "object".to_owned(),
        properties: Some(properties),
        required: Some(vec!["name".to_owned()]),
        ..Default::default()
    };
    let expected = json(
        r#"{
            "type": "object",
            "properties": { "name": { "type": "string", "description": "Person to greet" } },
            "required": ["name"]
        }"#,
    );
    assert!(
        same_document(&schema.to_json(), &expected),
        "additive fields must not appear when unset"
    );
}

#[test]
fn validation_keywords_use_their_json_schema_names() {
    let property = PropertySchema {
        property_type: "string".to_owned(),
        enum_values: Some(vec![Json::text("run"), Json::text("ride")]),
        format: Some("date-time".to_owned()),
        pattern: Some("^[a-z]+$".to_owned()),
        min_length: Some(1),
        max_length: Some(64),
        default_value: Some(Json::text("run")),
        ..Default::default()
    };
    let value = property.to_json();
    assert_eq!(value.get("enum"), Some(&json(r#"["run", "ride"]"#)));
    assert_eq!(value.get("format"), Some(&Json::text("date-time")));
    assert_eq!(value.get("pattern"), Some(&Json::text("^[a-z]+$")));
    assert_eq!(value.get("minLength"), Some(&Json::unsigned(1)));
    assert_eq!(value.get("maxLength"), Some(&Json::unsigned(64)));
    assert_eq!(value.get("default"), Some(&Json::text("run")));
}

#[test]
fn numeric_and_array_bounds_serialize() {
    let property = PropertySchema {
        property_type: "array".to_owned(),
        min_items: Some(1),
        max_items: Some(10),
        items: Some(Box::new(PropertySchema {
            property_type: "number".to_owned(),
            minimum: Some(Float::Finite("0.0".to_owned())),
            maximum: Some(Float::Finite("100.0".to_owned())),
            ..Default::default()
        })),
        ..Default::default()
    };
    let value = property.to_json();
    assert_eq!(value.get("minItems"), Some(&Json::unsigned(1)));
    assert_eq!(value.get("maxItems"), Some(&Json::unsigned(10)));
    assert_eq!(at(&value, &["items", "minimum"]), &json("0.0"));
    assert_eq!(at(&value, &["items", "maximum"]), &json("100.0"));
}

#[test]
fn a_ref_only_subschema_omits_type() {
    let property = PropertySchema {
        ref_path: Some("#/$defs/Activity".to_owned()),
        ..Default::default()
    };
    let value = property.to_json();
    assert_eq!(value.get("$ref"), Some(&Json::text("#/$defs/Activity")));
    assert!(
        value.get("type").is_none(),
        "a $ref-only subschema must not carry a type: {value:?}"
    );
}

#[test]
fn composition_and_defs_serialize_with_dollar_names() {
    let mut defs = SchemaMap::new();
    defs.insert(
        "Activity".to_owned(),
        PropertySchema { property_type: "object".to_owned(), ..Default::default() },
    );
    let branch = |name: &str| PropertySchema {
        required: Some(vec![name.to_owned()]),
        ..Default::default()
    };
    let schema = JsonSchema {
        schema_dialect: Some("https://json-schema.org/draft/2020-12/schema".to_owned()),
        schema_type: "object".to_owned(),
        defs: Some(defs),
        one_of: Some(vec![branch("a"), branch("b")]),
        additional_properties: Some(false),
        ..Default::default()
    };
    let value = schema.to_json();
    assert_eq!(
        value.get("$schema"),
        Some(&Json::text("https://json-schema.org/draft/2020-12/schema"))
    );
    assert!(matches!(at(&value, &["$defs", "Activity"]), Json::Object(_)));
    assert_eq!(items(at(&value, &["oneOf"])).len(), 2);
    assert_eq!(value.get("additionalProperties"), Some(&Json::Bool(false)));
    assert!(items(at(&value, &["oneOf"]))[0].get("type").is_none());
}

#[test]
fn tool_schema_carries_an_output_schema() {
    let schema = ToolSchema::without_annotations(
        "get_activities".to_owned(),
        "List activities".to_owned(),
        object_schema(),
    )
    .with_output_schema(JsonSchema {
        schema_type: "object".to_owned(),
        required: Some(vec!["activities".to_owned()]),
        ..Default::default()
    });
    let value = schema.to_json();
    assert_eq!(at(&value, &["outputSchema", "type"]), &Json::text("object"));
    assert_eq!(
        items(at(&value, &["outputSchema", "required"]))[0],
        Json::text("activities")
    );

    let bare =
        ToolSchema::without_annotations("ping".to_owned(), "Ping".to_owned(), object_schema());
    assert!(bare.to_json().get("outputSchema").is_none());
}

#[test]
fn nested_schema_keys_serialize_in_order() {
    let many = |prefix: &str| {
        let mut map = SchemaMap::new();
        for i in (0..12).rev() {
            let key = format!("{prefix}_{i:02}");
            let property = string_property(&format!("field {key}"));
            map.insert(key, property);
        }
        map
    };
    let mut outer = many("outer");
    outer.insert(
        "nested".to_owned(),
        PropertySchema {
            property_type: "object".to_owned(),
            properties: Some(many("inner")),
            ..Default::default()
        },
    );
    let encoded = JsonSchema {
        schema_type: "object".to_owned(),
        properties: Some(outer),
        ..Default::default()
    }
    .to_json();

    let inner = keys(at(&encoded, &["properties", "nested", "properties"]));
    let expected: Vec<String> = (0..12).map(|i| format!("inner_{i:02}")).collect();
    assert_eq!(inner, expected, "nested property keys must serialize in order");
    let outer = keys(at(&encoded, &["properties"]));
    assert_eq!(outer[0], "nested");
    assert_eq!(outer[12], "outer_11");
}

#[test]
fn a_name_inserted_twice_keeps_the_last_schema() {
    let mut map = SchemaMap::new();
    map.insert("b".to_owned(), string_property("1"));
    map.insert("a".to_owned(), string_property("2"));
    map.insert("b".to_owned(), string_property("3"));
    assert_eq!(map.entries().len(), 2);
    assert_eq!(map.entries()[0].name, "a");
    assert_eq!(map.entries()[1].schema.description.as_deref(), Some("3"));
}

#[test]
fn a_2020_12_schema_round_trips() {
    let original = JsonSchema {
        schema_dialect: Some("https://json-schema.org/draft/2020-12/schema".to_owned()),
        schema_type: "object".to_owned(),
        description: Some("A composed schema".to_owned()),
        any_of: Some(vec![PropertySchema {
            const_value: Some(Json::text("fixed")),
            ..Default::default()
        }]),
        ..Default::default()
    };
    let encoded = original.to_json();
    let decoded = JsonSchema::from_json(&encoded).expect("round-trips");
    assert_eq!(decoded.schema_type, "object");
    assert_eq!(decoded.description.as_deref(), Some("A composed schema"));
    assert_eq!(
        decoded
            .any_of
            .expect("anyOf survives")
            .first()
            .expect("one branch")
            .const_value,
        Some(Json::text("fixed"))
    );
}

#[test]
fn every_keyword_is_read_and_written_again() {
    let written = json(
        r#"{
            "$schema": "s", "type": "object", "description": "d",
            "properties": { "b": { "type": "string", "format": "uri", "pattern": "p" },
                            "a": { "items": { "type": "number", "minimum": 1.5, "maximum": 2.0 } } },
            "required": ["b"], "additionalProperties": true,
            "$defs": { "x": { "enum": [1, null], "default": 3, "minLength": 1, "maxLength": 2,
                              "minItems": 3, "maxItems": 4, "additionalProperties": false,
                              "required": [], "const": {}, "$ref": "r", "description": "e",
                              "properties": {} } },
            "oneOf": [], "anyOf": [{}], "allOf": [{ "oneOf": [{}], "anyOf": [], "allOf": [] }]
        }"#,
    );
    let schema = JsonSchema::from_json(&written).expect("a schema");
    let again = schema.to_json();
    assert!(same_document(&again, &written), "{again:?}");
    assert_eq!(keys(at(&again, &["properties"])), vec!["a", "b"]);
    let tool = json(&r#"{"name":"t","description":"d","inputSchema":{},"outputSchema":null,
                        "execution":{"taskSupport":"forbidden"}}"#);
    let tool = ToolSchema::from_json(&tool).expect("a tool");
    assert!(tool.output_schema.is_none());
    assert_eq!(tool.to_json().get("inputSchema"), Some(&json("{}")));
}

#[test]
fn what_is_no_schema_is_refused() {
    for text in [
        "1",
        r#"{"type": null}"#,
        r#"{"type": 1}"#,
        r#"{"required": ["a", 1]}"#,
        r#"{"minLength": -1}"#,
        r#"{"minItems": 1.5}"#,
        r#"{"minimum": "1"}"#,
        r#"{"enum": {}}"#,
        r#"{"items": []}"#,
        r#"{"items": {"type": 1}}"#,
        r#"{"properties": {"a": {}, "b": 1}}"#,
        r#"{"anyOf": [{}, {"format": 1}]}"#,
    ] {
        assert!(PropertySchema::from_json(&json(text)).is_none(), "{text}");
    }
    assert!(PropertySchema::from_json(&json(r#"{"unknown": 1}"#)).is_some());
    assert!(PropertySchema::from_json(&json(r#"["string", null, null, null, null]"#)).is_some());
    assert!(JsonSchema::from_json(&json(r#"{"$defs": []}"#)).is_none());
    assert!(ToolSchema::from_json(&json(r#"{"name":"t","description":"d"}"#)).is_none());
}

#[test]
fn the_order_of_insertion_leaves_no_trace() {
    let mut one = SchemaMap::new();
    let mut other = SchemaMap::new();
    for name in ["b", "a", "é", "aa", "Z"] {
        one.insert(name.to_owned(), string_property(name));
    }
    for name in ["Z", "aa", "é", "a", "b"] {
        other.insert(name.to_owned(), string_property(name));
    }
    let written = |map: SchemaMap| {
        JsonSchema { properties: Some(map), ..Default::default() }.to_json()
    };
    let (one, other) = (written(one), written(other));
    assert_eq!(one, other);
    assert_eq!(keys(at(&one, &["properties"])), vec!["Z", "a", "aa", "b", "é"]);
}

#[test]
fn bounds_are_held_as_floating_point_numbers() {
    let property = PropertySchema::from_json(&json(r#"{"minimum":-1,"maximum":2}"#));
    let property = property.expect("a property");
    assert_eq!(property.minimum, Some(Float::Finite("-1.0".to_owned())));
    assert_eq!(property.maximum, Some(Float::Finite("2.0".to_owned())));
    assert_eq!(at(&property.to_json(), &["maximum"]), &json("2.0"));
}
