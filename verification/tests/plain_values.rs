use dravr_tronc::clock::{current_timestamp, nanos_since, Duration, Timestamp};
use dravr_tronc::digits::{
    pad_with_zeros, read_unsigned, render_decimal, render_hex, render_signed,
};
use dravr_tronc::http_client::{describe_request_error, Cause};
use dravr_tronc::keyed::Keyed;
use dravr_tronc::notifications::config::NotificationConfig;
use dravr_tronc::server::tracing_init::{alert_channels, logs_to_stderr, trace_export};
use dravr_tronc::string_map::StringMap;

#[test]
fn numbers_are_written_and_read() {
    assert_eq!(render_decimal(0), "0");
    assert_eq!(render_decimal(u64::MAX), "18446744073709551615");
    assert_eq!(render_signed(-7), "-7");
    assert_eq!(render_hex(0xbeef), "beef");
    assert_eq!(pad_with_zeros("beef", 6), "00beef");
    assert_eq!(read_unsigned("+042", 42), Some(42));
    assert_eq!(read_unsigned("43", 42), None);
    for text in ["", "+", "-1", "1 ", "0x1"] {
        assert_eq!(read_unsigned(text, u64::MAX), None, "{text:?}");
    }
    assert_eq!(read_unsigned("18446744073709551616", u64::MAX), None);
}

#[test]
fn a_map_keeps_one_value_for_a_key() {
    let map = StringMap::new().with("a", "1").with("b", "2").with("a", "3");
    assert_eq!(map.len(), 2);
    assert_eq!(map.get("a"), Some("3"));
    assert_eq!(map.dup().get("b"), Some("2"));
    let mut keyed: Keyed<u8> = Keyed::new();
    keyed.put("x", 1);
    keyed.put("y", 2);
    keyed.put("x", 3);
    assert_eq!(keyed.len(), 2);
    assert_eq!(keyed.get("x"), Some(&3));
    assert_eq!(keyed.position("y"), 1);
    assert_eq!(keyed.get("z"), None);
}

#[test]
fn spans_of_time_are_kept_in_nanoseconds() {
    let span = Duration::from_millis(1_500);
    assert_eq!(span.as_secs(), 1);
    assert_eq!(span.subsec_nanos(), 500_000_000);
    assert_eq!(span.as_nanos(), 1_500_000_000);
    assert_eq!(span.as_millis(), 1_500);
    assert_eq!(span.less(Duration::from_secs(1)), Duration::from_millis(500));
    assert_eq!(span.less(Duration::from_secs(2)), Duration::from_secs(0));
    assert_eq!(span.at_most(Duration::from_secs(1)), Duration::from_secs(1));
    assert_eq!(span.at_least(Duration::from_secs(2)), Duration::from_secs(2));
    assert!(Duration::from_nanos(1).shorter_than(Duration::from_nanos(2)));
    let start = Timestamp { secs: -1, nanos: 999_999_999 };
    assert_eq!(nanos_since(start, Timestamp { secs: 0, nanos: 1 }), 2);
}

#[test]
fn the_present_is_written_in_utc() {
    let now = current_timestamp();
    assert!(now.ends_with('Z'));
    let parsed = chrono::DateTime::parse_from_rfc3339(&now).expect("RFC 3339");
    let age = chrono::Utc::now().timestamp() - parsed.timestamp();
    assert!((0..60).contains(&age), "{now} is {age} s old");
}

#[test]
fn the_description_drops_the_url_and_keeps_the_cause() {
    let causes = vec![
        Cause {
            text: "error sending request for url (http://127.0.0.1/botSECRET-TOKEN)".to_owned(),
            is_request_error: true,
        },
        Cause { text: "tcp connect error".to_owned(), is_request_error: false },
        Cause { text: "Connection refused".to_owned(), is_request_error: false },
    ];
    let description = describe_request_error("error sending request", &causes);
    assert!(!description.contains("SECRET"), "description was {description:?}");
    assert_eq!(
        description,
        "error sending request: tcp connect error: Connection refused"
    );
}

#[test]
fn logs_keep_out_of_the_protocol() {
    assert!(logs_to_stderr("stdio"));
    assert!(!logs_to_stderr("http"));
}

#[test]
fn traces_are_exported_where_an_endpoint_is_given() {
    assert!(trace_export(None, Some("svc")).is_none());
    let export = trace_export(Some("http://otel:4317"), Some("svc")).expect("exported");
    assert_eq!(export.endpoint, "http://otel:4317");
    assert_eq!(export.service_name, "svc");
}

#[test]
fn alerts_need_a_channel() {
    let none = NotificationConfig::from_env(&StringMap::new());
    assert!(!alert_channels(&none).any());
    let slack = NotificationConfig::from_env(
        &StringMap::new().with("SLACK_BOT_TOKEN", "t").with("SLACK_ERROR_CHANNEL", "#c"),
    );
    assert!(alert_channels(&slack).any());
}
