use dravr_tronc::clock::Duration;
use dravr_tronc::server::request_guard::{
    deadline_passed, elapsed_ms, guard_request, is_usable_request_id, panic_message,
    route_template, HandlerOutcome, LogKind, PanicPayload, RequestId, HANDLER_PANIC,
    MAX_REQUEST_ID_LEN, REQUEST_TIMEOUT,
};

#[test]
fn a_panicking_handler_answers_a_json_500() {
    let flight = guard_request(Some("caller-id-1"), 1, 2, "GET", Some("/api/boom"));
    let payload = PanicPayload::Text("scrape blew up at row 7".to_owned());
    let end = flight.finish(HandlerOutcome::Panicked(payload), Duration::from_millis(3));
    let failure = end.failure.expect("an answer");
    assert_eq!(failure.status, 500);
    assert_eq!(failure.body.error.error_type, HANDLER_PANIC);
    assert!(failure.body.error.message.contains("caller-id-1"));
    assert_eq!(end.request_id, "caller-id-1");
    assert_eq!(end.log.len(), 2);
    match &end.log[0].kind {
        LogKind::Panicked { message } => assert_eq!(message, "scrape blew up at row 7"),
        other => panic!("line was {other:?}"),
    }
    assert!(matches!(end.log[1].kind, LogKind::Completed { status: 500, latency_ms: 3 }));
}

#[test]
fn a_panic_that_says_nothing_is_still_told() {
    assert_eq!(panic_message(&PanicPayload::Text("literal panic payload".to_owned())), "literal panic payload");
    assert!(!panic_message(&PanicPayload::Other).is_empty());
}

#[test]
fn a_handler_past_its_deadline_answers_a_json_504() {
    let id = RequestId::from_header(Some("deadline-1"), 1, 2);
    let (failure, line) =
        deadline_passed(Duration::from_millis(50), Some(&id), "GET", Some("/api/slow"));
    assert_eq!(failure.status, 504);
    assert_eq!(failure.body.error.error_type, REQUEST_TIMEOUT);
    assert_eq!(
        failure.body.error.message,
        "The request did not complete within 50ms."
    );
    assert_eq!(line.request_id, "deadline-1");
    assert!(matches!(line.kind, LogKind::TimedOut { deadline_ms: 50 }));
    let (_, line) = deadline_passed(Duration::from_secs(2), None, "GET", None);
    assert_eq!(line.request_id, "unassigned");
    assert_eq!(line.path, "<unmatched>");
}

#[test]
fn the_callers_request_id_is_echoed_and_logged_with_the_route_template() {
    let template = "/api/athletes/{id}/plan";
    let flight = guard_request(Some("platform-7f3a"), 1, 2, "GET", Some(template));
    assert_eq!(flight.id().as_str(), "platform-7f3a");
    let end = flight.finish(HandlerOutcome::Answered(200), Duration::from_millis(1));
    assert!(end.failure.is_none());
    assert_eq!(end.request_id, "platform-7f3a");
    assert_eq!(end.log.len(), 1);
    let line = &end.log[0];
    assert_eq!(line.request_id, "platform-7f3a");
    assert_eq!(line.method, "GET");
    assert_eq!(line.path, template);
    assert!(matches!(line.kind, LogKind::Completed { status: 200, latency_ms: 1 }));
}

#[test]
fn an_unmatched_request_is_logged_without_its_path() {
    let flight = guard_request(None, 1, 2, "GET", None);
    assert!(!flight.id().as_str().is_empty());
    let end = flight.finish(HandlerOutcome::Answered(404), Duration::from_millis(1));
    assert_eq!(end.log[0].path, "<unmatched>");
    assert_eq!(route_template(Some("/health")), "/health");
}

#[test]
fn an_unusable_request_id_is_replaced_by_a_minted_one() {
    let too_long = "a".repeat(MAX_REQUEST_ID_LEN + 1);
    let mut minted = Vec::new();
    let unusable = ["has spaces in it", "quote\"injection", too_long.as_str(), ""];
    for (sequence, unusable) in unusable.iter().enumerate() {
        let id = RequestId::from_header(Some(unusable), 0xab, sequence as u64);
        let id = id.as_str().to_owned();
        assert_ne!(&id, unusable, "an unusable id is never adopted");
        let (instance, sequence) = id.split_once('-').expect("<instance>-<sequence>");
        assert_eq!(instance, "00000000000000ab");
        assert_eq!(instance.len(), 16, "{id}");
        assert!(instance.bytes().all(|b| b.is_ascii_hexdigit()), "{id}");
        assert!(
            !sequence.is_empty() && sequence.bytes().all(|b| b.is_ascii_hexdigit()),
            "{id}"
        );
        assert!(is_usable_request_id(&id));
        minted.push(id);
    }
    minted.sort();
    minted.dedup();
    assert_eq!(minted.len(), 4, "every minted id is distinct: {minted:?}");

    let at_the_limit = "b".repeat(MAX_REQUEST_ID_LEN);
    let id = RequestId::from_header(Some(&at_the_limit), 1, 2);
    assert_eq!(id.as_str(), at_the_limit, "the limit itself is usable");
    assert_eq!(id.dup().as_str(), at_the_limit);
}

#[test]
fn a_request_dropped_before_its_response_is_logged() {
    let flight = guard_request(Some("abandoned-1"), 1, 2, "GET", Some("/api/slow"));
    let line = flight.abandon(Duration::from_millis(51));
    assert_eq!(line.request_id, "abandoned-1");
    assert_eq!(line.path, "/api/slow");
    assert!(matches!(line.kind, LogKind::Dropped { elapsed_ms: 51 }));
}

#[test]
fn spans_are_told_as_they_are() {
    assert_eq!(elapsed_ms(Duration::from_secs(u64::MAX)), u64::MAX);
    assert_eq!(elapsed_ms(Duration::from_nanos(1_999_999)), 1);
    assert_eq!(Duration::from_millis(1_500).describe(), "1.5s");
    assert_eq!(Duration::from_secs(30).describe(), "30s");
}
