use dravr_tronc::json::{Json, Number};
use dravr_tronc::mcp::modern::{
    meta_keys, DiscoverResult, ModernMeta, ModernRequestMeta, PROTOCOL_VERSION_2026_07_28,
};
use dravr_tronc::mcp::protocol::PROTOCOL_VERSION;
use dravr_tronc::mcp::schema::{ServerCapabilities, ServerInfo};

fn json(text: &str) -> Json {
    Json::parse(text).expect("json")
}

#[test]
fn no_meta_is_legacy() {
    let params = json(r#"{ "name": "get_activities" }"#);
    assert!(matches!(ModernRequestMeta::from_params(Some(&params)), ModernMeta::Legacy));
    assert!(matches!(ModernRequestMeta::from_params(None), ModernMeta::Legacy));
}

#[test]
fn meta_without_protocol_version_is_legacy() {
    let params = json(r#"{ "_meta": { "traceparent": "00-abc-def-01" } }"#);
    assert!(matches!(ModernRequestMeta::from_params(Some(&params)), ModernMeta::Legacy));
}

#[test]
fn well_formed_modern_request_extracts_meta() {
    let params = json(
        r#"{
            "_meta": {
                "io.modelcontextprotocol/protocolVersion": "2026-07-28",
                "io.modelcontextprotocol/clientInfo": { "name": "ExampleClient", "version": "1.0.0" },
                "io.modelcontextprotocol/clientCapabilities": { "tools": {} },
                "io.modelcontextprotocol/logLevel": "info"
            }
        }"#,
    );
    match ModernRequestMeta::from_params(Some(&params)) {
        ModernMeta::Modern(meta) => {
            assert_eq!(meta.protocol_version, "2026-07-28");
            assert_eq!(meta.client_info.name, "ExampleClient");
            assert_eq!(meta.client_info.version, "1.0.0");
            assert_eq!(meta.log_level.as_deref(), Some("info"));
            assert!(meta.client_capabilities.get("tools").is_some());
        }
        _ => panic!("expected a well-formed modern request"),
    }
}

#[test]
fn modern_request_missing_client_info_is_malformed() {
    let params = json(
        r#"{
            "_meta": {
                "io.modelcontextprotocol/protocolVersion": "2026-07-28",
                "io.modelcontextprotocol/clientCapabilities": {}
            }
        }"#,
    );
    assert!(matches!(ModernRequestMeta::from_params(Some(&params)), ModernMeta::Malformed(_)));
}

#[test]
fn modern_request_missing_capabilities_is_malformed() {
    let params = json(
        r#"{
            "_meta": {
                "io.modelcontextprotocol/protocolVersion": "2026-07-28",
                "io.modelcontextprotocol/clientInfo": { "name": "C", "version": "1" }
            }
        }"#,
    );
    match ModernRequestMeta::from_params(Some(&params)) {
        ModernMeta::Malformed(words) => assert_eq!(
            words,
            "missing required _meta field 'io.modelcontextprotocol/clientCapabilities'"
        ),
        _ => panic!("expected a malformed request"),
    }
}

#[test]
fn a_client_without_a_version_is_malformed() {
    let params = json(
        r#"{
            "_meta": {
                "io.modelcontextprotocol/protocolVersion": "2026-07-28",
                "io.modelcontextprotocol/clientInfo": { "name": "C" },
                "io.modelcontextprotocol/clientCapabilities": {}
            }
        }"#,
    );
    match ModernRequestMeta::from_params(Some(&params)) {
        ModernMeta::Malformed(words) => assert_eq!(
            words,
            "missing or invalid required _meta field 'io.modelcontextprotocol/clientInfo'"
        ),
        _ => panic!("expected a malformed request"),
    }
}

#[test]
fn meta_key_constants_match_spec_strings() {
    assert_eq!(meta_keys::PROTOCOL_VERSION, "io.modelcontextprotocol/protocolVersion");
    assert_eq!(meta_keys::CLIENT_INFO, "io.modelcontextprotocol/clientInfo");
    assert_eq!(meta_keys::CLIENT_CAPABILITIES, "io.modelcontextprotocol/clientCapabilities");
    assert_eq!(meta_keys::LOG_LEVEL, "io.modelcontextprotocol/logLevel");
    assert_eq!(PROTOCOL_VERSION_2026_07_28, "2026-07-28");
}

#[test]
fn discover_result_serializes_complete_with_cache_hints() {
    let result = DiscoverResult::new(
        vec![PROTOCOL_VERSION_2026_07_28.to_owned(), PROTOCOL_VERSION.to_owned()],
        ServerCapabilities::tools_only(),
        ServerInfo::new("test-server", "0.1.0"),
        None,
    );
    let json = result.to_json();
    assert_eq!(json.get("resultType"), Some(&Json::text("complete")));
    assert_eq!(
        json.get("supportedVersions"),
        Some(&Json::Array(vec![Json::text("2026-07-28"), Json::text("2025-11-25")]))
    );
    let capabilities = json.get("capabilities").expect("capabilities");
    assert!(matches!(capabilities.get("tools"), Some(Json::Object(_))));
    let info = json.get("serverInfo").expect("serverInfo");
    assert_eq!(info.get("name"), Some(&Json::text("test-server")));
    assert_eq!(json.get("cacheScope"), Some(&Json::text("public")));
    assert_eq!(json.get("ttlMs"), Some(&Json::Number(Number::Unsigned(3_600_000))));
}
