use dravr_tronc::clock::Duration;
use dravr_tronc::json::Json;
use dravr_tronc::notifications::posthog::PostHogClient;
use dravr_tronc::notify::layer::{accept_event, Delivery, NotifyLayer, SlackPost};
use dravr_tronc::notify::provider::{
    capture_analytics, AnalyticsCapture, RoutingProvider, StaticRoutingProvider,
};
use dravr_tronc::notify::rule::{BatchRule, DedupRule, RoutingRule, SampleRate};
use dravr_tronc::notify::state::{build_dedup_key, merge_fields, overlay, DedupTable, SpanFields};
use dravr_tronc::notify::visit::{strip_debug_quotes, NotifyVisitor};
use dravr_tronc::string_map::StringMap;
use dravr_tronc::NOTIFY_TARGET;

fn map(pairs: &[(&str, &str)]) -> StringMap {
    let mut fields = StringMap::new();
    for (key, value) in pairs {
        fields = fields.with(key, value);
    }
    fields
}

fn at(secs: u64) -> Duration {
    Duration::from_secs(secs)
}

fn layer(event: &str, rule: RoutingRule, env: &str) -> NotifyLayer<StaticRoutingProvider> {
    NotifyLayer::new(StaticRoutingProvider::new().with_rule(event, rule), env)
}

fn posted(delivery: Delivery) -> SlackPost {
    match delivery {
        Delivery::Posted(post) => post,
        other => panic!("not posted: {other:?}"),
    }
}

// The name events carry

#[test]
fn notify_target_value_is_the_wire_contract() {
    assert_eq!(NOTIFY_TARGET, "notify");
}

#[test]
fn notify_target_is_reachable_from_the_crate_root() {
    let exported: &str = dravr_tronc::NOTIFY_TARGET;
    assert_eq!(exported, "notify");
}

#[test]
fn the_layer_module_re_exports_the_same_constant() {
    assert_eq!(dravr_tronc::notify::layer::NOTIFY_TARGET, dravr_tronc::NOTIFY_TARGET);
}

// Rules

#[test]
fn allows_env_when_unset_means_any() {
    let rule = RoutingRule::to_channel("#anywhere");
    assert!(rule.allows_env("dev"));
    assert!(rule.allows_env("production"));
}

#[test]
fn allows_env_filters_to_listed_values() {
    let mut rule = RoutingRule::to_channel("#dev-only");
    rule.enabled_envs = Some(vec!["dev".into()]);
    assert!(rule.allows_env("dev"));
    assert!(!rule.allows_env("production"));
}

#[test]
fn to_channel_defaults_to_enabled_unsampled() {
    let rule = RoutingRule::to_channel("#x");
    assert!(rule.enabled);
    assert_eq!(rule.sample_rate, SampleRate::Every);
    assert!(rule.dedup.is_none());
    assert!(rule.batch.is_none());
    assert!(rule.enabled_envs.is_none());
    assert_eq!(rule.channel, "#x");
}

#[test]
fn route_for_hits_registered_event() {
    let provider =
        StaticRoutingProvider::new().with_rule("user.login", RoutingRule::to_channel("#pulse"));
    let rule = provider.route_for("user.login").expect("rule registered");
    assert_eq!(rule.channel, "#pulse");
}

#[test]
fn route_for_misses_unknown_event() {
    let provider = StaticRoutingProvider::new();
    assert!(provider.route_for("never.registered").is_none());
    assert!(provider.is_empty());
}

#[test]
fn with_rule_replaces_prior_entry() {
    let provider = StaticRoutingProvider::new()
        .with_rule("user.login", RoutingRule::to_channel("#first"))
        .with_rule("user.login", RoutingRule::to_channel("#second"));
    let rule = provider.route_for("user.login").expect("rule registered");
    assert_eq!(rule.channel, "#second");
    assert_eq!(provider.len(), 1);
}

// Fields

#[test]
fn strip_debug_quotes_removes_wrapping_quotes() {
    assert_eq!(strip_debug_quotes("\"abc\""), "abc");
}

#[test]
fn strip_debug_quotes_leaves_unquoted_untouched() {
    assert_eq!(strip_debug_quotes("123"), "123");
}

#[test]
fn strip_debug_quotes_leaves_single_quote_alone() {
    assert_eq!(strip_debug_quotes("\"unbalanced"), "\"unbalanced");
    assert_eq!(strip_debug_quotes("\""), "\"");
    assert_eq!(strip_debug_quotes("\"\""), "");
}

#[test]
fn every_kind_of_value_is_recorded() {
    let visit = NotifyVisitor::new()
        .record_str("event", "user.login")
        .record_debug("q", "\"é\"")
        .record_plain("d", "\"kept\"")
        .record_i64("i", i64::MIN)
        .record_u64("u", u64::MAX)
        .record_bool("b", false);
    assert_eq!(visit.event_name.as_deref(), Some("user.login"));
    assert_eq!(visit.fields.get("event"), None);
    assert_eq!(visit.fields.get("q"), Some("é"));
    assert_eq!(visit.fields.get("d"), Some("\"kept\""));
    assert_eq!(visit.fields.get("i"), Some("-9223372036854775808"));
    assert_eq!(visit.fields.get("u"), Some("18446744073709551615"));
    assert_eq!(visit.fields.get("b"), Some("false"));
}

#[test]
fn an_event_is_accepted_by_its_target_and_name() {
    let visit = || NotifyVisitor::new().record_str("event", "user.login").record_str("k", "own");
    let outer = SpanFields::new()
        .with_visit(NotifyVisitor::new().record_str("k", "outer").record_str("user_id", "u1"));
    let inner = SpanFields::new()
        .with_visit(NotifyVisitor::new().record_str("k", "inner").record_str("tenant_id", "t1"));
    let spans = vec![outer, inner];
    let event = accept_event("notify", visit(), &spans).expect("accepted");
    assert_eq!(event.name, "user.login");
    assert_eq!(event.fields.get("k"), Some("own"));
    assert_eq!(event.fields.get("user_id"), Some("u1"));
    assert_eq!(event.fields.get("tenant_id"), Some("t1"));
    assert!(accept_event("other", visit(), &spans).is_none());
    assert!(accept_event("notify", NotifyVisitor::new(), &spans).is_none());
}

#[test]
fn the_inner_span_and_the_event_win() {
    let below = map(&[("a", "1"), ("b", "2")]);
    let above = map(&[("b", "3"), ("c", "4")]);
    let merged = overlay(below, &above);
    assert_eq!(merged.len(), 3);
    assert_eq!(merged.get("a"), Some("1"));
    assert_eq!(merged.get("b"), Some("3"));
    assert_eq!(merged.get("c"), Some("4"));
    let spans = vec![SpanFields { fields: map(&[("b", "0")]) }];
    assert_eq!(merge_fields(&spans, &merged).get("b"), Some("3"));
}

#[test]
fn build_dedup_key_concatenates_with_separator() {
    let fields = map(&[("user_id", "u1"), ("tenant_id", "t1")]);
    let key = build_dedup_key(
        "user.login",
        &["user_id".to_owned(), "tenant_id".to_owned()],
        &fields,
    );
    assert_eq!(key.0, "user.login");
    assert_eq!(key.1, "u1\0t1");
}

#[test]
fn build_dedup_key_missing_field_renders_empty() {
    let fields = StringMap::new();
    let key = build_dedup_key("e", &["missing".to_owned()], &fields);
    assert_eq!(key.1, "");
}

#[test]
fn build_dedup_key_distinguishes_boundary_ambiguity() {
    let fields_a = map(&[("a", "ab"), ("b", "c")]);
    let fields_b = map(&[("a", "a"), ("b", "bc")]);
    let key_a = build_dedup_key("e", &["a".to_owned(), "b".to_owned()], &fields_a);
    let key_b = build_dedup_key("e", &["a".to_owned(), "b".to_owned()], &fields_b);
    assert_ne!(key_a, key_b);
}

#[test]
fn dedup_window_drops_repeat_inside_window() {
    let mut rule = RoutingRule::to_channel("#x");
    rule.dedup =
        Some(DedupRule { keys: vec!["user_id".to_owned()], window: Duration::from_secs(60) });
    let mut layer = layer("e", rule, "dev");
    let fields = map(&[("user_id", "u1")]);
    assert!(matches!(layer.dispatch("e", &fields, at(100)), Delivery::Posted(_)));
    assert!(matches!(layer.dispatch("e", &fields, at(159)), Delivery::Dropped));
    assert!(matches!(layer.dispatch("e", &fields, at(160)), Delivery::Posted(_)));
}

#[test]
fn dedup_window_admits_different_key_values() {
    let mut table = DedupTable::new();
    assert!(table.let_through("e", "u1", at(60), at(0)));
    assert!(table.let_through("e", "u2", at(60), at(0)));
    assert!(table.let_through("f", "u1", at(60), at(0)));
    assert!(!table.let_through("e", "u1", at(60), at(0)));
}

// Dispatch

#[test]
fn dispatch_drops_unknown_event_without_default() {
    let mut layer = NotifyLayer::new(StaticRoutingProvider::new(), "dev");
    let delivery = layer.dispatch("unknown.event", &StringMap::new(), at(0));
    assert!(matches!(delivery, Delivery::Dropped));
}

#[test]
fn dispatch_honors_default_rule_for_unknown_event() {
    let mut layer = NotifyLayer::builder(StaticRoutingProvider::new(), "dev")
        .default_rule(RoutingRule::to_channel("#fallback"))
        .build();
    let post = posted(layer.dispatch("never.registered", &StringMap::new(), at(0)));
    assert_eq!(post.channel, "#fallback");
}

#[test]
fn env_filter_blocks_disallowed_env() {
    let rule = || {
        let mut rule = RoutingRule::to_channel("#dev-only");
        rule.enabled_envs = Some(vec!["dev".into()]);
        rule
    };
    let mut blocked = layer("x", rule(), "production");
    assert!(matches!(blocked.dispatch("x", &StringMap::new(), at(0)), Delivery::Dropped));
    let mut allowed = layer("x", rule(), "dev");
    assert!(matches!(allowed.dispatch("x", &StringMap::new(), at(0)), Delivery::Posted(_)));
}

#[test]
fn a_disabled_rule_posts_nothing() {
    let mut rule = RoutingRule::to_channel("#x");
    rule.enabled = false;
    rule.sample_rate = SampleRate::Below(1);
    let mut layer = layer("e", rule, "dev");
    assert!(matches!(layer.dispatch("e", &StringMap::new(), at(0)), Delivery::Dropped));
    assert_eq!(layer.sample_counter(), 0);
}

#[test]
fn sample_zero_drops_every_event() {
    let mut rule = RoutingRule::to_channel("#x");
    rule.sample_rate = SampleRate::Never;
    let mut layer = layer("e", rule, "dev");
    for _ in 0..100 {
        assert!(matches!(layer.dispatch("e", &StringMap::new(), at(0)), Delivery::Dropped));
    }
    assert_eq!(layer.sample_counter(), 0);
}

#[test]
fn sample_one_lets_every_event_through() {
    let mut layer = layer("e", RoutingRule::to_channel("#x"), "dev");
    for _ in 0..10 {
        assert!(matches!(layer.dispatch("e", &StringMap::new(), at(0)), Delivery::Posted(_)));
    }
    assert_eq!(layer.sample_counter(), 0);
}

#[test]
fn sample_half_passes_roughly_half() {
    let mut rule = RoutingRule::to_channel("#x");
    rule.sample_rate = SampleRate::Below(0x8000_0000);
    let mut layer = layer("e", rule, "dev");
    let mut hits = 0u32;
    for _ in 0..2000 {
        if let Delivery::Posted(_) = layer.dispatch("e", &StringMap::new(), at(0)) {
            hits += 1;
        }
    }
    assert!((500..=1500).contains(&hits), "expected ~1000 hits, got {hits}");
    assert_eq!(layer.sample_counter(), 2000);
}

#[test]
fn an_event_goes_out_in_the_shape_of_its_line() {
    let mut layer = layer("user.login", RoutingRule::to_channel("#x"), "dev");
    let fields = map(&[("message", "user authenticated"), ("user_id", "u1")]);
    let post = posted(layer.dispatch("user.login", &fields, at(0)));
    assert_eq!(post.channel, "#x");
    match &post.blocks {
        Json::Array(blocks) => {
            let section = blocks[0].get("text").and_then(|text| text.get("text"));
            assert_eq!(section, Some(&Json::text("*user.login* — user authenticated")));
            assert_eq!(blocks[0].get("block_id"), Some(&Json::text("notify-user.login")));
            assert_eq!(blocks.len(), 2);
        }
        other => panic!("blocks were {other:?}"),
    }
}

#[test]
fn enqueue_batch_accumulates_lines() {
    let mut rule = RoutingRule::to_channel("#x");
    rule.batch = Some(BatchRule { interval: Duration::from_secs(60) });
    let mut layer = layer("e", rule, "dev");
    for _ in 0..3 {
        assert!(matches!(layer.dispatch("e", &StringMap::new(), at(0)), Delivery::Queued));
    }
    assert_eq!(layer.queued_lines("e", "#x"), Some(3));
    let posts = layer.flush_ripe_batches(at(60));
    assert_eq!(posts.len(), 1);
    assert_eq!(posts[0].channel, "#x");
}

#[test]
fn flush_ripe_batches_drains_only_old_buffers() {
    let mut rule = RoutingRule::to_channel("#x");
    rule.batch = Some(BatchRule { interval: Duration::from_millis(10) });
    let mut layer = layer("e", rule, "dev");
    assert_eq!(layer.queued_lines("e", "#x"), None);
    layer.dispatch("e", &StringMap::new(), Duration::from_millis(0));
    assert!(layer.flush_ripe_batches(Duration::from_millis(9)).is_empty());
    assert_eq!(layer.queued_lines("e", "#x"), Some(1));
    let posts = layer.flush_ripe_batches(Duration::from_millis(25));
    assert_eq!(posts.len(), 1);
    match &posts[0].blocks {
        Json::Array(blocks) => assert_eq!(
            blocks[0].get("text").and_then(|text| text.get("text")),
            Some(&Json::text("*e* — batched x1\n• *e*"))
        ),
        other => panic!("blocks were {other:?}"),
    }
    assert_eq!(layer.queued_lines("e", "#x"), Some(0));
    assert!(layer.flush_ripe_batches(Duration::from_millis(25)).is_empty());
}

#[test]
fn a_message_is_made_for_each_event_and_channel() {
    let rule = |channel: &str| {
        let mut rule = RoutingRule::to_channel(channel);
        rule.batch = Some(BatchRule { interval: at(10) });
        Some(rule)
    };
    let mut layer = NotifyLayer::new(StaticRoutingProvider::new(), "dev");
    layer.dispatch_routed(rule("#a"), "e", &map(&[("n", "1")]), at(0));
    layer.dispatch_routed(rule("#b"), "e", &map(&[("n", "2")]), at(0));
    assert_eq!(layer.queued_lines("e", "#a"), Some(1));
    assert_eq!(layer.queued_lines("e", "#b"), Some(1));
    let posts = layer.flush_ripe_batches(at(10));
    let told: Vec<(&str, bool, bool)> = posts
        .iter()
        .map(|post| {
            let text = format!("{:?}", post.blocks);
            (post.channel.as_str(), text.contains("n=1"), text.contains("n=2"))
        })
        .collect();
    assert_eq!(told, vec![("#a", true, false), ("#b", false, true)]);
}

#[test]
fn the_first_rule_decides_how_long_lines_are_gathered() {
    let rule = |interval: u64| {
        let mut rule = RoutingRule::to_channel("#a");
        rule.batch = Some(BatchRule { interval: at(interval) });
        Some(rule)
    };
    let mut layer = NotifyLayer::new(StaticRoutingProvider::new(), "dev");
    layer.dispatch_routed(rule(10), "e", &map(&[]), at(0));
    assert_eq!(layer.flush_ripe_batches(at(10)).len(), 1);
    layer.dispatch_routed(rule(100), "e", &map(&[]), at(20));
    assert!(layer.flush_ripe_batches(at(29)).is_empty());
    assert_eq!(layer.flush_ripe_batches(at(30)).len(), 1);
}

#[test]
fn the_flush_tick_is_five_seconds_unless_set() {
    assert_eq!(NotifyLayer::new(StaticRoutingProvider::new(), "dev").flush_tick(), at(5));
    let layer =
        NotifyLayer::builder(StaticRoutingProvider::new(), "dev").flush_tick(at(1)).build();
    assert_eq!(layer.flush_tick(), at(1));
}

// Analytics

#[test]
fn capture_analytics_is_noop_without_provider() {
    assert!(capture_analytics(None, "user.login", None).is_none());
}

#[test]
fn capture_analytics_invokes_provider_when_configured() {
    let posthog = PostHogClient::with_host("phc_test", "http://127.0.0.1:1");
    let capture = AnalyticsCapture {
        distinct_id: "u_test".to_owned(),
        properties: Json::parse(r#"{ "channel": "web" }"#).expect("json"),
    };
    let post = capture_analytics(Some(&posthog), "user.login", Some(capture)).expect("a post");
    assert_eq!(post.url, "http://127.0.0.1:1/capture/");
    assert_eq!(post.body.get("distinct_id"), Some(&Json::text("u_test")));
    assert_eq!(post.body.get("event"), Some(&Json::text("user.login")));
    assert_eq!(post.body.get("api_key"), Some(&Json::text("phc_test")));
}

#[test]
fn capture_analytics_skips_when_provider_returns_none() {
    let posthog = PostHogClient::with_host("phc_test", "http://127.0.0.1:1");
    assert!(capture_analytics(Some(&posthog), "user.login", None).is_none());
}
