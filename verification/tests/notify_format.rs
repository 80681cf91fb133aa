use dravr_tronc::clock::Duration;
use dravr_tronc::json::Json;
use dravr_tronc::notify::format::{
    event_blocks, field_priority, format_batch, format_duration_ms, format_line, format_value,
    is_denied, is_id_field, is_lifted, single_line_blocks,
};
use dravr_tronc::notify::state::BatchedLine;
use dravr_tronc::string_map::StringMap;

fn map(pairs: &[(&str, &str)]) -> StringMap {
    let mut fields = StringMap::new();
    for (key, value) in pairs {
        fields = fields.with(key, value);
    }
    fields
}

fn items(json: &Json) -> &Vec<Json> {
    match json {
        Json::Array(items) => items,
        other => panic!("not an array: {other:?}"),
    }
}

fn text<'a>(json: &'a Json, path: &[&str]) -> &'a str {
    let mut here = json;
    for key in path {
        here = here.get(key).expect("member");
    }
    here.as_str().expect("string")
}

#[test]
fn format_line_sorts_event_specific_fields_alphabetically() {
    let fields = map(&[("zeta", "z"), ("alpha", "a")]);
    let line = format_line("evt", &fields);
    assert_eq!(line, "*evt*\nalpha=a, zeta=z");
}

#[test]
fn format_line_with_no_fields_renders_event_only() {
    let line = format_line("evt", &StringMap::new());
    assert_eq!(line, "*evt*");
}

#[test]
fn format_line_lifts_message_to_headline() {
    let fields = map(&[("message", "user authenticated"), ("user_id", "abc")]);
    let line = format_line("user.login", &fields);
    assert_eq!(line, "*user.login* — user authenticated\nuser_id=abc");
}

#[test]
fn format_line_drops_http_plumbing_fields() {
    let fields = map(&[
        ("uri", "/oauth/token"),
        ("method", "POST"),
        ("version", "HTTP/1.1"),
        ("grant_type", "password"),
        ("username", "x@y"),
        ("route", "oauth2_token"),
        ("id", "some-uuid"),
        ("user_id", "u1"),
    ]);
    let line = format_line("user.login", &fields);
    assert_eq!(line, "*user.login*\nuser_id=u1");
}

#[test]
fn format_line_buries_identity_fields_after_event_specific() {
    let fields = map(&[("coach_slug", "marathon"), ("user_id", "u1"), ("tenant_id", "t1")]);
    let line = format_line("coach.selected", &fields);
    assert_eq!(line, "*coach.selected*\ncoach_slug=marathon, tenant_id=t1, user_id=u1");
}

#[test]
fn format_line_humanises_latency_ms() {
    let fields = map(&[("latency_ms", "120011"), ("model", "opus")]);
    let line = format_line("embacle.call_completed", &fields);
    assert_eq!(line, "*embacle.call_completed*\nlatency_ms=2m, model=opus");
}

#[test]
fn format_line_passes_through_unparseable_ms_value() {
    let fields = map(&[("latency_ms", "not-a-number")]);
    let line = format_line("evt", &fields);
    assert_eq!(line, "*evt*\nlatency_ms=not-a-number");
}

#[test]
fn format_line_leads_with_user_email_then_trails_ids() {
    let fields = map(&[
        ("user_id", "u1"),
        ("tenant_id", "t1"),
        ("provider", "strava"),
        ("user_email", "jane@acme.com"),
    ]);
    let line = format_line("provider.fetch_started", &fields);
    assert_eq!(
        line,
        "*provider.fetch_started*\nuser_email=jane@acme.com, provider=strava, tenant_id=t1, user_id=u1"
    );
}

#[test]
fn format_line_prepends_emoji_to_headline() {
    let fields = map(&[("message", "user authenticated"), ("emoji", "🔑"), ("user_id", "u1")]);
    let line = format_line("user.login", &fields);
    assert_eq!(line, "🔑 *user.login* — user authenticated\nuser_id=u1");
}

#[test]
fn event_blocks_splits_signal_section_from_muted_id_context() {
    let fields = map(&[
        ("message", "user asked a question"),
        ("emoji", "💬"),
        ("persona", "casual"),
        ("user_email", "jane@acme.com"),
        ("user_id", "u1"),
        ("tenant_id", "t1"),
        ("conversation_id", "c1"),
    ]);
    let blocks = event_blocks("chat.question_asked", &fields);
    let arr = items(&blocks);
    assert_eq!(arr.len(), 2, "expected a section + a context block");
    assert_eq!(
        text(&arr[0], &["text", "text"]),
        "💬 *chat.question_asked* — user asked a question\nuser_email=jane@acme.com, persona=casual"
    );
    assert_eq!(text(&arr[0], &["type"]), "section");
    assert_eq!(text(&arr[1], &["type"]), "context");
    let elements = items(arr[1].get("elements").expect("elements"));
    assert_eq!(
        text(&elements[0], &["text"]),
        "conversation_id=c1  ·  tenant_id=t1  ·  user_id=u1"
    );
}

#[test]
fn event_blocks_omits_context_when_no_id_fields() {
    let fields = map(&[("message", "circuit opened"), ("provider", "cohere")]);
    let blocks = event_blocks("llm.circuit_opened", &fields);
    let arr = items(&blocks);
    assert_eq!(arr.len(), 1, "no *_id fields → no context block");
    assert_eq!(text(&arr[0], &["type"]), "section");
}

#[test]
fn event_blocks_humanises_latency_in_section() {
    let fields = map(&[("latency_ms", "120011"), ("model", "opus")]);
    let blocks = event_blocks("embacle.call_completed", &fields);
    let arr = items(&blocks);
    assert_eq!(
        text(&arr[0], &["text", "text"]),
        "*embacle.call_completed*\nlatency_ms=2m, model=opus"
    );
}

#[test]
fn format_duration_ms_covers_each_bucket() {
    assert_eq!(format_duration_ms(0), "0ms");
    assert_eq!(format_duration_ms(999), "999ms");
    assert_eq!(format_duration_ms(1_000), "1s");
    assert_eq!(format_duration_ms(1_500), "1.500s");
    assert_eq!(format_duration_ms(60_000), "1m");
    assert_eq!(format_duration_ms(90_000), "1m 30s");
    assert_eq!(format_duration_ms(3_600_000), "1h");
    assert_eq!(format_duration_ms(3_661_000), "1h 1m");
}

#[test]
fn durations_at_the_edges() {
    assert_eq!(format_duration_ms(1_005), "1.005s");
    assert_eq!(format_duration_ms(59_999), "59.999s");
    assert_eq!(format_duration_ms(60_999), "1m");
    assert_eq!(format_duration_ms(u64::MAX), "5124095576030h 25m");
}

#[test]
fn only_millisecond_fields_read_as_durations() {
    assert_eq!(format_value("latency_ms", "1500"), "1.500s");
    assert_eq!(format_value("latency_ms", "+1500"), "1.500s");
    assert_eq!(format_value("latency_ms", "-1"), "-1");
    assert_eq!(format_value("latency", "1500"), "1500");
    assert_eq!(format_value("ms", "1500"), "1500");
}

#[test]
fn fields_are_ranked_and_withheld_by_name() {
    assert!(is_denied("uri") && is_denied("id") && !is_denied("user_id"));
    assert!(is_lifted("message") && is_lifted("emoji") && !is_lifted("event"));
    assert!(is_id_field("user_id") && is_id_field("x_id") && !is_id_field("idx"));
    assert!(field_priority("user_email") < field_priority("model"));
    assert!(field_priority("model") < field_priority("user_id"));
}

#[test]
fn format_batch_summarises_count() {
    let lines = vec![
        BatchedLine { queued_at: Duration::from_secs(1), text: "*evt* — k=1".into() },
        BatchedLine { queued_at: Duration::from_secs(1), text: "*evt* — k=2".into() },
    ];
    let out = format_batch("evt", &lines);
    assert!(out.starts_with("*evt* — batched x2"));
    assert!(out.contains("k=1"));
    assert!(out.contains("k=2"));
}

#[test]
fn a_batch_is_told_exactly() {
    let lines = vec![
        BatchedLine { queued_at: Duration::from_secs(1), text: "a".into() },
        BatchedLine { queued_at: Duration::from_secs(2), text: "b".into() },
    ];
    assert_eq!(format_batch("evt", &lines), "*evt* — batched x2\n• a\n• b");
    let blocks = single_line_blocks("evt", "line");
    let arr = items(&blocks);
    assert_eq!(arr.len(), 1);
    assert_eq!(text(&arr[0], &["text", "text"]), "line");
    assert_eq!(text(&arr[0], &["block_id"]), "notify-evt");
}

#[test]
fn short_durations_differ_and_long_ones_are_rounded_down() {
    let mut texts: Vec<String> = (0..60_000).map(format_duration_ms).collect();
    texts.sort();
    texts.dedup();
    assert_eq!(texts.len(), 60_000);
    assert_eq!(format_duration_ms(61_999), format_duration_ms(61_000));
    assert_eq!(format_duration_ms(3_659_999), format_duration_ms(3_600_000));
}
