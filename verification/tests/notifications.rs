use dravr_tronc::clock::Duration;
use dravr_tronc::json::Json;
use dravr_tronc::notifications::config::{EmailConfig, NotificationConfig, SlackConfig};
use dravr_tronc::notifications::email::EmailClient;
use dravr_tronc::notifications::error_layer::{
    email_digest, group, slack_digest, truncate_message, Decision, Dispatcher, ErrorEvent,
    EventVisitor, GatherStep, Gathering,
};
use dravr_tronc::notifications::posthog::{PostHogClient, DEFAULT_POSTHOG_HOST};
use dravr_tronc::notifications::resend::{
    parse_retry_delay, plan_retry, ResendBody, ResendClient, ResendEmail, ResendError, SendStep,
    Sending, DEFAULT_RETRY_DELAY_MS, MAX_RETRIES, RESEND_API_URL, RETRY_DELAY_FLOOR_MS,
};
use dravr_tronc::notifications::slack::SlackClient;
use dravr_tronc::string_map::StringMap;

fn map(pairs: &[(&str, &str)]) -> StringMap {
    let mut fields = StringMap::new();
    for (key, value) in pairs {
        fields = fields.with(key, value);
    }
    fields
}

fn secs(secs: u64) -> Duration {
    Duration::from_secs(secs)
}

fn event(target: &str, message: &str) -> ErrorEvent {
    ErrorEvent { target: target.to_owned(), message: message.to_owned(), fields: StringMap::new() }
}

fn config() -> NotificationConfig {
    NotificationConfig::from_env(&map(&[
        ("SERVICE_NAME", "svc"),
        ("ENVIRONMENT", "production"),
        ("SLACK_BOT_TOKEN", "xoxb-test"),
        ("SLACK_ERROR_CHANNEL", "#alerts"),
    ]))
}

// Configuration

#[test]
fn default_batch_window_is_5_seconds() {
    let config = NotificationConfig::from_env(&StringMap::new());
    assert_eq!(config.batch_window, secs(5));
    assert_eq!(config.max_messages_per_minute, 10);
    assert_eq!(config.dedup_window, secs(30));
}

#[test]
fn windows_and_limits_are_read_where_they_are_numbers() {
    let config = NotificationConfig::from_env(&map(&[
        ("NOTIFY_BATCH_WINDOW_SECS", "7"),
        ("NOTIFY_MAX_MESSAGES_PER_MIN", "many"),
        ("NOTIFY_DEDUP_WINDOW_SECS", "+90"),
    ]));
    assert_eq!(config.batch_window, secs(7));
    assert_eq!(config.max_messages_per_minute, 10);
    assert_eq!(config.dedup_window, secs(90));
}

#[test]
fn the_host_is_the_first_that_is_known() {
    let config = NotificationConfig::from_env(&map(&[
        ("HOST", "last"),
        ("HOSTNAME", "third"),
        ("K_REVISION", "second"),
        ("DRAVR_NOTIFY_HOST", ""),
    ]));
    assert_eq!(config.host.as_deref(), Some("second"));
    assert_eq!(NotificationConfig::from_env(&StringMap::new()).host, None);
}

#[test]
fn slack_config_requires_both_token_and_channel() {
    assert!(SlackConfig::from_env(&StringMap::new()).is_none());
    assert!(SlackConfig::from_env(&map(&[("SLACK_BOT_TOKEN", "t")])).is_none());
    assert!(SlackConfig::from_env(&map(&[("SLACK_ERROR_CHANNEL", "#c")])).is_none());
    let config = SlackConfig::from_env(&map(&[
        ("SLACK_BOT_TOKEN", "t"),
        ("SLACK_ERROR_CHANNEL", "#c"),
    ]))
    .expect("both are set");
    assert_eq!(config.bot_token, "t");
    assert_eq!(config.error_channel, "#c");
}

#[test]
fn email_config_requires_all_fields() {
    assert!(EmailConfig::from_env(&StringMap::new()).is_none());
}

// Email

#[test]
fn email_client_rejects_empty_api_key() {
    let config = EmailConfig {
        resend_api_key: String::new(),
        from_address: "alerts@dravr.ai".into(),
        to_addresses: vec!["test@dravr.ai".into()],
    };
    assert!(matches!(EmailClient::new(&config), Err(ResendError::MissingApiKey)));
}

#[test]
fn an_alert_is_plain_text_from_the_sender_to_every_recipient() {
    let config = EmailConfig {
        resend_api_key: "re_test_key".into(),
        from_address: "alerts@dravr.ai".into(),
        to_addresses: vec!["jf@dravr.ai".into(), "phil@dravr.ai".into()],
    };
    let client = EmailClient::new(&config).expect("valid config");
    assert_eq!(
        client.alert("ERROR in svc", "trace"),
        ResendEmail {
            from: "alerts@dravr.ai".into(),
            to: vec!["jf@dravr.ai".into(), "phil@dravr.ai".into()],
            subject: "ERROR in svc".into(),
            body: ResendBody::Text("trace".into()),
        }
    );
    assert_eq!(client.resend().api_key(), "re_test_key");
}

#[test]
fn the_payload_carries_exactly_one_body_kind() {
    let mut email = ResendEmail {
        from: "Alerts <alerts@dravr.ai>".to_owned(),
        to: vec!["a@dravr.ai".to_owned(), "b@dravr.ai".to_owned()],
        subject: "ERROR in svc".to_owned(),
        body: ResendBody::Text("stack".to_owned()),
    };
    let expected = r#"{
        "from": "Alerts <alerts@dravr.ai>",
        "to": ["a@dravr.ai", "b@dravr.ai"],
        "subject": "ERROR in svc",
        "text": "stack"
    }"#;
    let text = email.payload();
    let expected = Json::parse(expected).expect("json");
    for key in ["from", "to", "subject", "text"] {
        assert_eq!(text.get(key), expected.get(key), "{key}");
    }
    match &text {
        Json::Object(members) => assert_eq!(members.len(), 4),
        other => panic!("payload was {other:?}"),
    }

    email.body = ResendBody::Html("<p>code</p>".to_owned());
    let html = email.payload();
    assert_eq!(html.get("html"), Some(&Json::text("<p>code</p>")));
    assert!(html.get("text").is_none());
}

#[test]
fn an_empty_key_is_refused_at_construction() {
    assert!(matches!(ResendClient::new(""), Err(ResendError::MissingApiKey)));
    assert!(ResendClient::new("re_key").is_ok());
}

#[test]
fn retry_after_wins_over_ratelimit_reset() {
    assert_eq!(parse_retry_delay(Some("2"), Some("9")), Some(secs(2)));
    assert_eq!(parse_retry_delay(Some("soon"), Some("3")), Some(secs(3)));
    assert_eq!(parse_retry_delay(Some(""), Some(" ")), None);
}

#[test]
fn the_retry_plan_floors_defaults_and_bounds_the_wait() {
    let floor = Duration::from_millis(RETRY_DELAY_FLOOR_MS);
    assert_eq!(plan_retry(0, Some(secs(0))), Some(floor));
    assert_eq!(plan_retry(0, None), Some(Duration::from_millis(DEFAULT_RETRY_DELAY_MS)));
    assert_eq!(plan_retry(2, Some(secs(5))), Some(secs(5)));
    assert_eq!(plan_retry(0, Some(secs(6))), None);
    assert_eq!(plan_retry(MAX_RETRIES, Some(secs(0))), None);
}

/// Plays the answers in order, and counts the posts made.
fn replay(answers: &[(u16, Option<&str>, Option<&str>, &str)]) -> (Result<(), ResendError>, usize) {
    let mut sending = Sending::start();
    let mut posts = 0;
    loop {
        let (status, retry_after, reset, body) = answers[posts];
        posts += 1;
        match sending.answered(status, retry_after, reset) {
            SendStep::Sent => return (Ok(()), posts),
            SendStep::Retry(delay) => assert!(!delay.shorter_than(Duration::from_millis(200))),
            SendStep::Fail => return (Err(Sending::failed(status, Some(body.to_owned()))), posts),
        }
    }
}

#[test]
fn a_429_is_retried_after_its_reset_and_then_succeeds() {
    let (result, posts) =
        replay(&[(429, Some("0"), None, "slow down"), (200, None, None, r#"{"id":"e-1"}"#)]);
    assert_eq!(result, Ok(()));
    assert_eq!(posts, 2);
}

#[test]
fn a_persistent_429_gives_up_after_three_retries() {
    let limited = (429, None, Some("0"), "still limited");
    let (result, posts) = replay(&[limited, limited, limited, limited]);
    assert_eq!(
        result,
        Err(ResendError::Api { status: 429, body: "still limited".to_owned() })
    );
    assert_eq!(posts, 4, "one post plus MAX_RETRIES retries");
}

#[test]
fn a_daily_cap_is_not_waited_out() {
    let (result, posts) = replay(&[(429, None, Some("3600"), "daily quota")]);
    assert!(matches!(result, Err(ResendError::Api { status: 429, .. })));
    assert_eq!(posts, 1);
}

#[test]
fn any_other_failure_is_not_retried_and_keeps_resends_reason() {
    let reason = r#"{"name":"validation_error"}"#;
    let (result, posts) = replay(&[(422, Some("0"), None, reason)]);
    assert_eq!(result, Err(ResendError::Api { status: 422, body: reason.to_owned() }));
    assert_eq!(posts, 1);
}

#[test]
fn resend_failures_are_told_in_words() {
    assert_eq!(RESEND_API_URL, "https://api.resend.com/emails");
    for error in [
        ResendError::MissingApiKey,
        ResendError::Transport("reset".to_owned()),
        ResendError::Api { status: 500, body: "boom".to_owned() },
    ] {
        let words = error.message();
        match &error {
            ResendError::MissingApiKey => assert!(words.contains("key"), "{words}"),
            ResendError::Transport(why) => assert!(words.contains(why.as_str()), "{words}"),
            ResendError::Api { body, .. } => {
                assert!(words.contains("500") && words.contains(body.as_str()), "{words}");
            }
        }
    }
}

// Analytics

#[test]
fn new_uses_default_us_host() {
    let client = PostHogClient::new("phc_test");
    assert_eq!(client.host(), DEFAULT_POSTHOG_HOST);
    assert_eq!(client.api_key(), "phc_test");
}

#[test]
fn with_host_overrides_host() {
    let client = PostHogClient::with_host("phc_test", "https://eu.i.posthog.com");
    assert_eq!(client.host(), "https://eu.i.posthog.com");
}

// Errors

#[test]
fn error_event_dedup_key_uses_target_and_prefix() {
    let event = ErrorEvent {
        target: "dravr_canot::dispatch".into(),
        message: "connection refused to webhook endpoint https://example.com/hook".into(),
        fields: StringMap::new(),
    };
    let key = event.dedup_key();
    assert!(key.starts_with("dravr_canot::dispatch::"));
    assert!(key.contains("connection refused"));
}

#[test]
fn truncate_message_short_passthrough() {
    assert_eq!(truncate_message("short", 100), "short");
}

#[test]
fn truncate_message_long_truncates() {
    let long = "a".repeat(600);
    let result = truncate_message(&long, 500);
    assert!(result.len() <= 500);
    assert!(result.ends_with("..."));
    assert_eq!(truncate_message("abcdef", 5), "ab...");
    assert_eq!(truncate_message("éééé", 7), "éé...");
    assert_eq!(truncate_message("éééé", 8), "éééé");
    assert_eq!(truncate_message("a€b𝄞c", 10), "a€b...");
    assert_eq!(truncate_message("abcd", 2), "...");
}

#[test]
fn event_visitor_starts_empty() {
    let visitor = EventVisitor::new();
    assert!(visitor.message.is_empty());
    assert!(visitor.fields.is_empty());
}

#[test]
fn the_message_is_told_apart_from_the_fields() {
    let event = EventVisitor::new()
        .record("message", "boom")
        .record("code", "7")
        .into_event("svc::db");
    assert_eq!(event.target, "svc::db");
    assert_eq!(event.message, "boom");
    assert_eq!(event.fields.get("code"), Some("7"));
}

#[test]
fn a_batch_is_alerted_when_its_window_is_over() {
    let mut gathering = Gathering::new(secs(5));
    assert!(matches!(gathering.next(secs(0)), GatherStep::Await));
    gathering.arrived(event("a", "1"), secs(10));
    gathering.arrived(event("a", "2"), secs(12));
    match gathering.next(secs(12)) {
        GatherStep::AwaitFor(rest) => assert_eq!(rest, secs(3)),
        other => panic!("step was {other:?}"),
    }
    match gathering.elapsed() {
        GatherStep::Alert(batch) => assert_eq!(batch.len(), 2),
        other => panic!("step was {other:?}"),
    }
    assert!(matches!(gathering.next(secs(20)), GatherStep::Await));
}

#[test]
fn a_batch_is_alerted_on_shutdown() {
    let mut gathering = Gathering::new(secs(5));
    gathering.arrived(event("a", "1"), secs(10));
    match gathering.closed() {
        GatherStep::AlertAndStop(batch) => assert_eq!(batch.len(), 1),
        other => panic!("step was {other:?}"),
    }
    assert!(matches!(Gathering::new(secs(5)).closed(), GatherStep::Stop));
}

#[test]
fn equal_errors_are_counted_once_each() {
    let entries = group(vec![event("a", "x"), event("b", "x"), event("a", "x")]);
    assert_eq!(entries.len(), 2);
    let total: u64 = entries.iter().map(|entry| entry.count).sum();
    assert_eq!(total, 3);
    let most = entries.iter().find(|entry| entry.event.target == "a").expect("a");
    assert_eq!(most.count, 2);
    assert_eq!(most.key, most.event.dedup_key());
}

/// A dispatcher with a client for each channel that is configured.
fn dispatcher(config: NotificationConfig) -> Dispatcher {
    let slack = config.slack.as_ref().map(SlackClient::new);
    let email = config.email.as_ref().and_then(|email| EmailClient::new(email).ok());
    Dispatcher::new(config, slack, email)
}

#[test]
fn only_the_clients_that_are_given_count() {
    let mut config = config();
    config.max_messages_per_minute = 1;
    assert!(config.slack.is_some());
    let mut silent = Dispatcher::new(config, None, None);
    assert!(silent.slack().is_none() && silent.email().is_none());
    for i in 0..3u64 {
        assert!(matches!(
            silent.dispatch_batch(vec![event("a", &format!("m{i}"))], secs(100)),
            Decision::Alert { slack: false, email: false, .. }
        ));
    }
}

#[test]
fn an_alerted_error_stays_quiet_for_its_window() {
    let mut dispatcher = dispatcher(config());
    assert_eq!(dispatcher.config().service_name, "svc");
    assert!(matches!(
        dispatcher.dispatch_batch(vec![event("a", "x")], secs(100)),
        Decision::Alert { .. }
    ));
    assert!(matches!(
        dispatcher.dispatch_batch(vec![event("a", "x")], secs(129)),
        Decision::Nothing
    ));
    assert!(matches!(
        dispatcher.dispatch_batch(vec![event("a", "x")], secs(130)),
        Decision::Alert { .. }
    ));
}

#[test]
fn alerts_stop_at_the_limit_and_start_again() {
    let mut dispatcher = dispatcher(config());
    for i in 0..10u64 {
        let fresh = vec![event("a", &format!("message {i}"))];
        assert!(matches!(dispatcher.dispatch_batch(fresh, secs(100 + i)), Decision::Alert { .. }));
    }
    let late = || vec![event("a", "one more")];
    assert!(matches!(dispatcher.dispatch_batch(late(), secs(110)), Decision::Limited(1)));
    assert!(matches!(dispatcher.dispatch_batch(late(), secs(160)), Decision::Alert { .. }));
}

#[test]
fn every_channel_counts_against_the_limit() {
    let mut config = config();
    config.max_messages_per_minute = 3;
    config.email = Some(EmailConfig {
        resend_api_key: "re_key".into(),
        from_address: "a@dravr.ai".into(),
        to_addresses: vec!["b@dravr.ai".into()],
    });
    let mut dispatcher = dispatcher(config);
    let mut sent = 0;
    for (i, expected) in [(true, true), (true, false)].into_iter().enumerate() {
        match dispatcher.dispatch_batch(vec![event("a", &format!("m{i}"))], secs(100)) {
            Decision::Alert { entries, slack, email } => {
                assert_eq!(entries.len(), 1);
                assert_eq!((slack, email), expected);
                sent += u32::from(slack) + u32::from(email);
            }
            other => panic!("decision was {other:?}"),
        }
    }
    assert_eq!(sent, 3);
    assert!(matches!(
        dispatcher.dispatch_batch(vec![event("a", "m9")], secs(159)),
        Decision::Limited(1)
    ));
    assert!(matches!(
        dispatcher.dispatch_batch(vec![event("a", "m9")], secs(160)),
        Decision::Alert { slack: true, email: true, .. }
    ));
}

#[test]
fn a_digest_names_what_happened() {
    let mut config = config();
    config.host = Some("h1".to_owned());
    let mut failing = event("svc::db", "boom");
    failing.fields = map(&[("code", "7")]);
    let again = ErrorEvent {
        target: "svc::db".to_owned(),
        message: "boom".to_owned(),
        fields: StringMap::new(),
    };
    let entries = group(vec![failing, again]);
    let slack = slack_digest(&config, &entries);
    assert_eq!(slack.channel, "#alerts");
    match &slack.blocks {
        Json::Array(blocks) => {
            assert_eq!(blocks.len(), 4);
            assert_eq!(
                blocks[3].get("text").and_then(|text| text.get("text")),
                Some(&Json::text("*svc::db* (x2)\n```boom```\n`code`: 7"))
            );
        }
        other => panic!("blocks were {other:?}"),
    }
    let email = email_digest(&config, &entries);
    assert_eq!(email.subject, "[production] 1 error(s) in svc");
    assert_eq!(
        email.body,
        "Error digest for svc (production) on h1\n\n--- svc::db --- (x2)\nboom\n  code: 7\n\n"
    );
}

#[test]
fn a_slack_digest_shows_eight_errors() {
    let batch = (0..10).map(|i| event(&format!("t{i}"), "m")).collect();
    let digest = slack_digest(&config(), &group(batch));
    match &digest.blocks {
        Json::Array(blocks) => {
            assert_eq!(blocks.len(), 3 + 8 + 1);
            match blocks[11].get("elements") {
                Some(Json::Array(elements)) => {
                    assert_eq!(elements[0].get("text"), Some(&Json::text("...and 2 more errors")));
                }
                other => panic!("elements were {other:?}"),
            }
        }
        other => panic!("blocks were {other:?}"),
    }
}
