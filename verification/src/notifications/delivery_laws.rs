//! What holds of every delivery: what Slack's answers mean, which requests are Slack's own, how
//! often an email is posted, and how all of it is configured.

use vstd::prelude::*;
use vstd::utf8::encode_utf8;

use crate::digits::{all_digits, decimal, decimal_reads_back, decimal_value, unsigned_reading};
use crate::http_client::RequestFailure;
use crate::json::{group_find_member, parsed_bytes, JsonView};
use crate::notifications::config::{addresses, filled, host_of, number_or, recipients, text_or};
use crate::notifications::posthog::capture_json;
use crate::notifications::resend::{
    after_answer, asked_seconds, header_seconds, resend_error_text, ResendBody, ResendEmail,
    ResendError, SendStepView,
};
use crate::notifications::slack::{
    age_of, delivery_severity, hex_text, hmac_sha256, misconfigured_target, post_json,
    signature_due, signature_error_text, signed_bytes, slack_result, update_json,
    SLACK_MISCONFIGURED_TARGET_ERRORS, SignatureErrorView, SlackReply, SlackResultView,
};
use crate::string_map::{lookup, Pair};
use crate::text::trimmed;
use crate::text_laws::{between, holds, splitting_undoes_joining, white_space_around_is_trimmed};

verus! {

// ---------------------------------------------------------------------------
// Slack's answers
// ---------------------------------------------------------------------------

/// A call was done exactly when the answer's status is a success and its body says so; an
/// answer that says otherwise gives its own reason, or none that is known.
pub proof fn calls_are_done_when_slack_says_so(
    status: u16,
    status_text: String,
    bytes: Vec<u8>,
    json: JsonView,
)
    requires
        parsed_bytes(bytes@) == Ok::<JsonView, Seq<char>>(json),
    ensures
        ({
            let result = slack_result(
                SlackReply::Answered { status, status_text, body: Ok(bytes) },
            );
            let good = 200 <= status <= 299;
            let said = json.member("ok"@) == Some(JsonView::Bool(true));
            &&& result is Delivered <==> good && said
            &&& !good ==> result == SlackResultView::HttpError("HTTP "@ + status_text@)
            &&& good && !said ==> result == SlackResultView::ApiError(
                match json.member("error"@) {
                    Some(JsonView::Text(reason)) => reason,
                    _ => "unknown"@,
                },
            )
        }),
{
}

/// A request that failed, and an answer that cannot be read, are failures of the transport, and
/// never a delivery.
pub proof fn unread_answers_are_no_delivery(
    why: RequestFailure,
    status: u16,
    status_text: String,
    bytes: Vec<u8>,
)
    ensures
        slack_result(SlackReply::Failed(why)) == SlackResultView::HttpError(why.described()),
        slack_result(SlackReply::Answered { status, status_text, body: Err(why) }) is HttpError,
        parsed_bytes(bytes@) is Err ==> slack_result(
            SlackReply::Answered { status, status_text, body: Ok(bytes) },
        ) is HttpError,
{
}

/// Whether an error is one that stays until somebody changes the configuration.
pub open spec fn stays_until_changed(error: Seq<char>) -> bool {
    ||| error == "channel_not_found"@ || error == "is_archived"@ || error == "not_in_channel"@
    ||| error == "invalid_auth"@ || error == "not_authed"@ || error == "account_inactive"@
    ||| error == "token_revoked"@ || error == "missing_scope"@ || error == "restricted_action"@
}

/// A message that was delivered is not worth a word; an error that stays until somebody changes
/// the configuration is an error of the log's, and every other failure a warning.
pub proof fn misconfigured_targets_are_errors(error: Seq<char>, why: Seq<char>)
    ensures
        misconfigured_target(error) <==> stays_until_changed(error),
        delivery_severity(SlackResultView::Delivered) is Silent,
        delivery_severity(SlackResultView::HttpError(why)) is Warn,
        delivery_severity(SlackResultView::ApiError(error)) is Error <==> stays_until_changed(error),
        delivery_severity(SlackResultView::ApiError(error)) is Warn <==> !stays_until_changed(error),
{
    let words = SLACK_MISCONFIGURED_TARGET_ERRORS@;
    assert(words[0]@ == "channel_not_found"@);
    assert(words[1]@ == "is_archived"@);
    assert(words[2]@ == "not_in_channel"@);
    assert(words[3]@ == "invalid_auth"@);
    assert(words[4]@ == "not_authed"@);
    assert(words[5]@ == "account_inactive"@);
    assert(words[6]@ == "token_revoked"@);
    assert(words[7]@ == "missing_scope"@);
    assert(words[8]@ == "restricted_action"@);
}

/// What is posted names its channel and carries its blocks; an update names the message besides.
pub proof fn calls_carry_what_is_posted(channel: Seq<char>, ts: Seq<char>, blocks: JsonView)
    ensures
        post_json(channel, blocks).member("channel"@) == Some(JsonView::Text(channel)),
        post_json(channel, blocks).member("blocks"@) == Some(blocks),
        update_json(channel, ts, blocks).member("channel"@) == Some(JsonView::Text(channel)),
        update_json(channel, ts, blocks).member("ts"@) == Some(JsonView::Text(ts)),
        update_json(channel, ts, blocks).member("blocks"@) == Some(blocks),
{
    broadcast use group_find_member;

    reveal_strlit("channel");
    reveal_strlit("ts");
    reveal_strlit("blocks");
    assert("channel"@.len() == 7 && "ts"@.len() == 2 && "blocks"@.len() == 6);
}

// ---------------------------------------------------------------------------
// Slack's requests
// ---------------------------------------------------------------------------

/// A request of Slack's gets through exactly when its time can be read, is at most five minutes
/// old, and its signature is the one due for that time and that very body.
pub proof fn signed_requests_get_through(
    secret: Seq<char>,
    timestamp: Seq<char>,
    signature: Seq<char>,
    body: Seq<u8>,
    now: i64,
)
    requires
        encode_utf8(secret).len() <= 1_152_921_504_606_846_976,
        signed_bytes(timestamp, body).len() <= 1_152_921_504_606_846_976,
    ensures
        signature_due(Some(secret), timestamp, signature, body, now) is Ok <==> (unsigned_reading(
            timestamp,
            u64::MAX as nat,
        ) matches Some(at) && now - at <= 300) && signature == "v0="@ + hex_text(
            hmac_sha256(encode_utf8(secret), encode_utf8("v0:"@ + timestamp + ":"@) + body),
        ),
        unsigned_reading(timestamp, u64::MAX as nat) is None ==> (signature_due(
            Some(secret),
            timestamp,
            signature,
            body,
            now,
        ) matches Err(error) && error is MissingHeader),
        (unsigned_reading(timestamp, u64::MAX as nat) matches Some(at) && now - at > 300) ==> (
        signature_due(Some(secret), timestamp, signature, body, now) matches Err(error)
            && error is TimestampExpired),
        signature_due(None, timestamp, signature, body, now) == Err::<(), SignatureErrorView>(
            SignatureErrorView::NotConfigured,
        ),
{
}

/// The time of a request in the future has no age.
pub proof fn ages_count_back(timestamp: nat, now: i64)
    ensures
        now > timestamp ==> age_of(timestamp, now) + timestamp == now,
        now <= timestamp ==> age_of(timestamp, now) == 0,
{
}

/// Bytes are written as two digits each, in their order, so that different bytes read
/// differently.
pub proof fn bytes_read_as_two_digits(a: Seq<u8>, b: Seq<u8>)
    ensures
        hex_text(a).len() == 2 * a.len(),
        hex_text(a) == hex_text(b) ==> a == b,
{
    if hex_text(a) == hex_text(b) {
        assert(hex_text(a).len() == a.len() * 2 && hex_text(b).len() == b.len() * 2);
        assert(a.len() == b.len());
        assert forall|i: int| 0 <= i < a.len() implies a[i] == b[i] by {
            assert(hex_text(a)[2 * i] == hex_text(b)[2 * i]);
            assert(hex_text(a)[2 * i + 1] == hex_text(b)[2 * i + 1]);
            assert((2 * i) / 2 == i && (2 * i + 1) / 2 == i);
        }
        assert(a =~= b);
    }
}

/// A refusal of a signature is told in words of its own.
pub proof fn refusals_of_signatures_are_told(header: Seq<char>, age: u64)
    ensures
        header.is_suffix_of(signature_error_text(SignatureErrorView::MissingHeader(header))),
        holds(
            signature_error_text(SignatureErrorView::TimestampExpired(age)),
            decimal(age as nat),
        ),
        signature_error_text(SignatureErrorView::InvalidSignature) != signature_error_text(
            SignatureErrorView::NotConfigured,
        ),
{
    let told = signature_error_text(SignatureErrorView::MissingHeader(header));
    assert(told.skip(told.len() - header.len()) =~= header);
    let old_text = signature_error_text(SignatureErrorView::TimestampExpired(age));
    assert(old_text =~= between("timestamp too old ("@, decimal(age as nat), "s)"@));
    reveal_strlit("invalid HMAC signature");
    reveal_strlit("signing secret not configured");
    assert("invalid HMAC signature"@.len() != "signing secret not configured"@.len());
}

// ---------------------------------------------------------------------------
// Emails
// ---------------------------------------------------------------------------

/// An email is sent when the answer is a success. It is posted again when too many requests
/// were made, as long as retries are left and the wait asked for is not too long; the wait is
/// then the one asked for, and a second where none is. Everything else is a failure.
pub proof fn emails_are_posted_again_when_asked(
    retries: u32,
    status: u16,
    retry_after: Option<Seq<char>>,
    ratelimit_reset: Option<Seq<char>>,
)
    ensures
        ({
            let step = after_answer(retries, status, retry_after, ratelimit_reset);
            let asked = asked_seconds(retry_after, ratelimit_reset);
            &&& step is Sent <==> 200 <= status <= 299
            &&& step is Retry <==> status == 429 && retries < 3 && (asked matches Some(secs)
                ==> secs <= 5)
            &&& step matches SendStepView::Retry(wait) ==> wait == match asked {
                Some(secs) => if secs == 0 {
                    200_000_000
                } else {
                    secs as nat * 1_000_000_000
                },
                None => 1_000_000_000,
            }
        }),
{
}

/// What is asked is what `Retry-After` says, or else what `RateLimit-Reset` says: a number of
/// seconds, with white space around it or not.
pub proof fn waits_are_asked_for_in_seconds(
    before: Seq<char>,
    secs: u64,
    after: Seq<char>,
    other: Option<Seq<char>>,
)
    requires
        forall|i: int| 0 <= i < before.len() ==> crate::text::is_space(#[trigger] before[i]),
        forall|i: int| 0 <= i < after.len() ==> crate::text::is_space(#[trigger] after[i]),
    ensures
        asked_seconds(Some(before + decimal(secs as nat) + after), other) == Some(secs),
        asked_seconds(None, Some(before + decimal(secs as nat) + after)) == Some(secs),
        asked_seconds(None, None) is None,
        header_seconds(other) is None ==> asked_seconds(
            other,
            Some(before + decimal(secs as nat) + after),
        ) == Some(secs),
{
    let digits = decimal(secs as nat);
    decimal_reads_back(secs as nat);
    assert(crate::digits::is_decimal_digit(digits[0]));
    assert(crate::digits::is_decimal_digit(digits[digits.len() - 1]));
    white_space_around_is_trimmed(before, digits, after);
}

/// An email that is posted says whom it is from, whom it is to, and what it says, as a text or
/// as a page and never both.
pub proof fn emails_are_posted_whole(email: ResendEmail, i: int)
    ensures
        ({
            let json = email.wire();
            &&& json.member("from"@) == Some(JsonView::Text(email.from@))
            &&& json.member("subject"@) == Some(JsonView::Text(email.subject@))
            &&& json.member("to"@) matches Some(JsonView::Array(items)) && items.len()
                == email.to@.len() && (0 <= i < items.len() ==> items[i] == JsonView::Text(
                email.to@[i]@,
            ))
            &&& json.member("text"@) == match email.body {
                ResendBody::Text(text) => Some(JsonView::Text(text@)),
                _ => None,
            }
            &&& json.member("html"@) == match email.body {
                ResendBody::Html(html) => Some(JsonView::Text(html@)),
                _ => None,
            }
        }),
{
    broadcast use group_find_member;

    lemma_email_names_differ();
}

/// The names of an email's members are distinct.
proof fn lemma_email_names_differ()
    ensures
        "from"@ != "to"@,
        "from"@ != "subject"@,
        "from"@ != "text"@,
        "from"@ != "html"@,
        "to"@ != "subject"@,
        "to"@ != "text"@,
        "to"@ != "html"@,
        "subject"@ != "text"@,
        "subject"@ != "html"@,
        "text"@ != "html"@,
{
    reveal_strlit("from");
    reveal_strlit("to");
    reveal_strlit("subject");
    reveal_strlit("text");
    reveal_strlit("html");
    assert("from"@.len() == 4);
    assert("to"@.len() == 2);
    assert("subject"@.len() == 7);
    assert("text"@.len() == 4);
    assert("html"@.len() == 4);
    assert("from"@[0] != "text"@[0]);
    assert("from"@[0] != "html"@[0]);
    assert("text"@[0] != "html"@[0]);
}

/// What analytics are told is told whole: whose the project is, which event, of whom, and what
/// of it.
pub proof fn captures_are_told_whole(
    key: Seq<char>,
    event: Seq<char>,
    who: Seq<char>,
    properties: JsonView,
)
    ensures
        ({
            let json = capture_json(key, event, who, properties);
            &&& json.member("api_key"@) == Some(JsonView::Text(key))
            &&& json.member("event"@) == Some(JsonView::Text(event))
            &&& json.member("distinct_id"@) == Some(JsonView::Text(who))
            &&& json.member("properties"@) == Some(properties)
        }),
{
    broadcast use group_find_member;

    lemma_capture_names_differ();
}

/// The names of the members of a capture are distinct.
proof fn lemma_capture_names_differ()
    ensures
        "api_key"@ != "event"@,
        "api_key"@ != "distinct_id"@,
        "api_key"@ != "properties"@,
        "event"@ != "distinct_id"@,
        "event"@ != "properties"@,
        "distinct_id"@ != "properties"@,
{
    reveal_strlit("api_key");
    reveal_strlit("event");
    reveal_strlit("distinct_id");
    reveal_strlit("properties");
    assert("api_key"@.len() == 7);
    assert("event"@.len() == 5);
    assert("distinct_id"@.len() == 11);
    assert("properties"@.len() == 10);
}

/// Failures to send are told apart in words, with their cause.
pub proof fn failures_to_send_are_told(reason: String, status: u16, body: String)
    ensures
        reason@.is_suffix_of(resend_error_text(ResendError::Transport(reason))),
        body@.is_suffix_of(resend_error_text(ResendError::Api { status, body })),
        holds(resend_error_text(ResendError::Api { status, body }), decimal(status as nat)),
{
    let lost = resend_error_text(ResendError::Transport(reason));
    assert(lost.skip(lost.len() - reason@.len()) =~= reason@);
    let told = resend_error_text(ResendError::Api { status, body });
    assert(told.skip(told.len() - body@.len()) =~= body@);
    assert(told =~= between("Resend API error (HTTP "@, decimal(status as nat), "): "@ + body@));
}

// ---------------------------------------------------------------------------
// Configuration
// ---------------------------------------------------------------------------

/// A setting is what the environment says, where it says something that can be read; and its
/// default otherwise.
pub proof fn settings_come_from_the_environment(
    env: Seq<Pair>,
    name: Seq<char>,
    max: nat,
    default: nat,
    text: Seq<char>,
)
    ensures
        lookup(env, name) is None ==> number_or(env, name, max, default) == default && text_or(
            env,
            name,
            text,
        ) == text && filled(env, name) is None,
        lookup(env, name) matches Some(value) ==> {
            &&& text_or(env, name, text) == value
            &&& filled(env, name) == if value.len() == 0 {
                None
            } else {
                Some(value)
            }
            &&& all_digits(value) && decimal_value(value) <= max ==> number_or(
                env,
                name,
                max,
                default,
            ) == decimal_value(value)
            &&& unsigned_reading(value, max) is None ==> number_or(env, name, max, default)
                == default
        },
{
    match lookup(env, name) {
        Some(value) => {
            if all_digits(value) {
                assert(crate::digits::is_decimal_digit(value[0]));
            }
        },
        None => {},
    }
}

/// The host is the first of its names that the environment fills.
pub proof fn the_host_is_the_first_that_is_named(env: Seq<Pair>)
    ensures
        filled(env, "DRAVR_NOTIFY_HOST"@) is Some ==> host_of(env) == filled(
            env,
            "DRAVR_NOTIFY_HOST"@,
        ),
        filled(env, "DRAVR_NOTIFY_HOST"@) is None && filled(env, "K_REVISION"@) is Some ==> host_of(
            env,
        ) == filled(env, "K_REVISION"@),
        filled(env, "DRAVR_NOTIFY_HOST"@) is None && filled(env, "K_REVISION"@) is None && filled(
            env,
            "HOSTNAME"@,
        ) is Some ==> host_of(env) == filled(env, "HOSTNAME"@),
        filled(env, "DRAVR_NOTIFY_HOST"@) is None && filled(env, "K_REVISION"@) is None && filled(
            env,
            "HOSTNAME"@,
        ) is None ==> host_of(env) == filled(env, "HOST"@),
{
}

/// Addresses with commas between them are all recipients, in their order, without the white
/// space around them; where nothing stands between two commas there is none.
pub proof fn every_address_is_a_recipient(parts: Seq<Seq<char>>)
    requires
        parts.len() > 0,
        forall|i: int| 0 <= i < parts.len() ==> !(#[trigger] parts[i]).contains(','),
    ensures
        recipients(crate::text::joined(parts, seq![','])) == parts.map_values(
            |part: Seq<char>| trimmed(part),
        ).filter(|address: Seq<char>| address.len() > 0),
{
    splitting_undoes_joining(parts, ',');
    lemma_addresses(parts);
}

proof fn lemma_addresses(parts: Seq<Seq<char>>)
    ensures
        addresses(parts) == parts.map_values(|part: Seq<char>| trimmed(part)).filter(
            |address: Seq<char>| address.len() > 0,
        ),
    decreases parts.len(),
{
    reveal(Seq::filter);
    let bare = |part: Seq<char>| trimmed(part);
    let some = |address: Seq<char>| address.len() > 0;
    if parts.len() > 0 {
        lemma_addresses(parts.drop_last());
        assert(parts.map_values(bare).drop_last() =~= parts.drop_last().map_values(bare));
        assert(parts.map_values(bare).last() == trimmed(parts.last()));
    }
    assert(addresses(parts) =~= parts.map_values(bare).filter(some));
}

} // verus!
