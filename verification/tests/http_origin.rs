use dravr_tronc::mcp::transport::http::{is_loopback_origin, is_origin_allowed};

#[test]
fn a_configured_allowlist_is_matched_exactly() {
    let allowed = vec!["https://app.example.test".to_owned()];
    assert!(is_origin_allowed(Some("https://app.example.test"), &allowed));
    assert!(!is_origin_allowed(Some("http://localhost:3000"), &allowed));
    assert!(!is_origin_allowed(Some("https://evil.test"), &allowed));
    assert!(is_origin_allowed(None, &allowed));
    assert!(is_origin_allowed(None, &[]));
}

#[test]
fn without_a_list_only_this_machine_is_allowed() {
    for origin in ["http://localhost", "https://localhost:8443", "http://127.0.0.1:3000", "http://[::1]:80"] {
        assert!(is_loopback_origin(origin), "{origin}");
        assert!(is_origin_allowed(Some(origin), &[]), "{origin}");
    }
    for origin in [
        "null",
        "http://localhost.evil.com",
        "http://localhost:99999",
        "http://localhost:",
        "ftp://localhost",
        "http://192.168.1.10",
        "http://[localhost]",
        "http://[127.0.0.1]:80",
        "http://[::1",
        "http://[::1]x",
    ] {
        assert!(!is_origin_allowed(Some(origin), &[]), "{origin}");
    }
    assert!(is_origin_allowed(None, &[]));
}
