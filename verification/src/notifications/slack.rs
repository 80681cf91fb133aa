//! Slack: what is posted, what is made of the answer, and whose requests are genuine.

use vstd::prelude::*;
use vstd::utf8::encode_utf8;

use crate::clock::utc_now;
use crate::digits::{decimal, digit_char, read_unsigned, render_decimal, unsigned_reading};
use crate::http_client::{describe_undecodable, undecodable, RequestFailure};
use crate::json::{fields, no_members, parsed_bytes, put, put_text, text_view, Json, JsonView};
use crate::mcp::schema::dup_text;
use crate::notifications::config::SlackConfig;
use crate::server::auth::same_secret;
use crate::text::same;

verus! {

/// Where messages are posted.
pub const SLACK_POST_MESSAGE_URL: &'static str = "https://slack.com/api/chat.postMessage";

/// Where messages are changed.
pub const SLACK_CHAT_UPDATE_URL: &'static str = "https://slack.com/api/chat.update";

/// The age from which a signed request is refused, in seconds.
pub const MAX_TIMESTAMP_AGE_SECS: u64 = 300;

/// The most bytes that are signed, far below what HMAC-SHA-256 can take.
pub const MAX_SIGNED_BYTES: u64 = 1_152_921_504_606_846_976;

// ---------------------------------------------------------------------------
// Posting
// ---------------------------------------------------------------------------

/// What came of a call of Slack.
#[derive(Debug)]
pub enum SlackResult {
    /// It was done.
    Delivered,
    /// Slack declined, and why.
    ApiError(String),
    /// Slack was not reached, or not understood, and why.
    HttpError(String),
}

/// What came of a call of Slack.
pub enum SlackResultView {
    /// It was done.
    Delivered,
    /// Slack declined.
    ApiError(Seq<char>),
    /// Slack was not reached, or not understood.
    HttpError(Seq<char>),
}

impl View for SlackResult {
    type V = SlackResultView;

    open spec fn view(&self) -> SlackResultView {
        match *self {
            SlackResult::Delivered => SlackResultView::Delivered,
            SlackResult::ApiError(why) => SlackResultView::ApiError(why@),
            SlackResult::HttpError(why) => SlackResultView::HttpError(why@),
        }
    }
}

/// Slack's answer to a call.
#[derive(Debug)]
pub enum SlackReply {
    /// None: the request failed.
    Failed(RequestFailure),
    /// An answer.
    Answered {
        /// Its status.
        status: u16,
        /// Its status in words.
        status_text: String,
        /// Its body, or why it could not be read.
        body: Result<Vec<u8>, RequestFailure>,
    },
}

/// Whether a body says that the call was done.
pub open spec fn says_ok(body: JsonView) -> bool {
    body.member("ok"@) == Some(JsonView::Bool(true))
}

/// Why a body says that the call was not done.
pub open spec fn stated_error(body: JsonView) -> Seq<char> {
    match body.member("error"@) {
        Some(JsonView::Text(error)) => error,
        _ => "unknown"@,
    }
}

/// What the body of an answer of Slack's says.
pub open spec fn stated_result(body: JsonView) -> SlackResultView {
    if says_ok(body) {
        SlackResultView::Delivered
    } else {
        SlackResultView::ApiError(stated_error(body))
    }
}

/// What an answer of Slack's says.
pub open spec fn slack_result(reply: SlackReply) -> SlackResultView {
    match reply {
        SlackReply::Failed(why) => SlackResultView::HttpError(why.described()),
        SlackReply::Answered { status, status_text, body } => if !(200 <= status < 300) {
            SlackResultView::HttpError("HTTP "@ + status_text@)
        } else {
            match body {
                Err(why) => SlackResultView::HttpError("response parse: "@ + why.described()),
                Ok(bytes) => match parsed_bytes(bytes@) {
                    Err(words) => SlackResultView::HttpError(
                        "response parse: "@ + undecodable(words),
                    ),
                    Ok(json) => stated_result(json),
                },
            }
        },
    }
}

/// What the body of an answer of Slack's says.
pub fn read_slack_body(json: &Json) -> (result: SlackResult)
    ensures
        result@ == stated_result(json@),
{
    let ok = match json.get("ok") {
        Some(member) => match member {
            Json::Bool(b) => *b,
            _ => false,
        },
        None => false,
    };
    if ok {
        return SlackResult::Delivered;
    }
    let error = match json.get("error") {
        Some(member) => match member {
            Json::Text(error) => error.clone(),
            _ => "unknown".to_owned(),
        },
        None => "unknown".to_owned(),
    };
    SlackResult::ApiError(error)
}

/// What an answer of Slack's says.
pub fn read_slack_reply(reply: SlackReply) -> (result: SlackResult)
    ensures
        result@ == slack_result(reply),
{
    match reply {
        SlackReply::Failed(why) => SlackResult::HttpError(why.describe()),
        SlackReply::Answered { status, status_text, body } => {
            if !(200 <= status && status < 300) {
                return SlackResult::HttpError("HTTP ".to_owned().concat(status_text.as_str()));
            }
            let bytes = match body {
                Ok(bytes) => bytes,
                Err(why) => {
                    return SlackResult::HttpError(
                        "response parse: ".to_owned().concat(why.describe().as_str()),
                    );
                },
            };
            match Json::parse_bytes(bytes.as_slice()) {
                Ok(json) => read_slack_body(&json),
                Err(words) => SlackResult::HttpError(
                    "response parse: ".to_owned().concat(
                        describe_undecodable(words.as_str()).as_str(),
                    ),
                ),
            }
        },
    }
}

/// The errors of Slack's that mean that the target of a message is misconfigured: they
/// stay until somebody changes the configuration.
pub const SLACK_MISCONFIGURED_TARGET_ERRORS: [&'static str; 9] = [
    "channel_not_found",
    "is_archived",
    "not_in_channel",
    "invalid_auth",
    "not_authed",
    "account_inactive",
    "token_revoked",
    "missing_scope",
    "restricted_action",
];

/// Whether an error of Slack's means that the target of a message is misconfigured.
pub open spec fn misconfigured_target(error: Seq<char>) -> bool {
    exists|i: int|
        0 <= i < 9 && (#[trigger] SLACK_MISCONFIGURED_TARGET_ERRORS@[i])@ == error
}

/// Whether an error of Slack's means that the target of a message is misconfigured.
pub fn is_misconfigured_target(api_error: &str) -> (misconfigured: bool)
    ensures
        misconfigured == misconfigured_target(api_error@),
{
    let errors = SLACK_MISCONFIGURED_TARGET_ERRORS;
    let mut i: usize = 0;
    while i < 9
        invariant
            i <= 9,
            errors == SLACK_MISCONFIGURED_TARGET_ERRORS,
            forall|k: int| 0 <= k < i ==> (#[trigger] errors@[k])@ != api_error@,
        decreases 9 - i,
    {
        if same(errors[i], api_error) {
            return true;
        }
        i += 1;
    }
    false
}

/// How loudly a call of Slack's is logged.
#[derive(Debug, Clone, Copy, PartialEq, Eq, Structural)]
pub enum Severity {
    /// Not at all.
    Silent,
    /// As a warning.
    Warn,
    /// As an error, which sends an alert by another way.
    Error,
}

/// How loudly a call of Slack's is logged: a misconfigured target as an error, any other
/// failure as a warning.
pub open spec fn delivery_severity(result: SlackResultView) -> Severity {
    match result {
        SlackResultView::Delivered => Severity::Silent,
        SlackResultView::ApiError(error) => if misconfigured_target(error) {
            Severity::Error
        } else {
            Severity::Warn
        },
        SlackResultView::HttpError(_) => Severity::Warn,
    }
}

/// How loudly a call of Slack's is logged.
pub fn log_delivery_failure(result: &SlackResult) -> (severity: Severity)
    ensures
        severity == delivery_severity(result@),
{
    match result {
        SlackResult::Delivered => Severity::Silent,
        SlackResult::ApiError(error) => if is_misconfigured_target(error.as_str()) {
            Severity::Error
        } else {
            Severity::Warn
        },
        SlackResult::HttpError(_) => Severity::Warn,
    }
}

// ---------------------------------------------------------------------------
// Signatures
// ---------------------------------------------------------------------------

/// Why a request that claims to be Slack's is refused.
#[derive(Debug)]
pub enum SignatureError {
    /// A header is missing, or is not what it should be.
    MissingHeader(&'static str),
    /// The request is too old, by this many seconds.
    TimestampExpired(u64),
    /// The signature is not the one due.
    InvalidSignature,
    /// There is no secret to check with.
    NotConfigured,
}

/// Why a request that claims to be Slack's is refused.
pub enum SignatureErrorView {
    /// A header is missing, or is not what it should be.
    MissingHeader(Seq<char>),
    /// The request is too old.
    TimestampExpired(u64),
    /// The signature is not the one due.
    InvalidSignature,
    /// There is no secret to check with.
    NotConfigured,
}

impl View for SignatureError {
    type V = SignatureErrorView;

    open spec fn view(&self) -> SignatureErrorView {
        match *self {
            SignatureError::MissingHeader(header) => SignatureErrorView::MissingHeader(header@),
            SignatureError::TimestampExpired(age) => SignatureErrorView::TimestampExpired(age),
            SignatureError::InvalidSignature => SignatureErrorView::InvalidSignature,
            SignatureError::NotConfigured => SignatureErrorView::NotConfigured,
        }
    }
}

/// What a refusal says.
pub open spec fn signature_error_text(error: SignatureErrorView) -> Seq<char> {
    match error {
        SignatureErrorView::MissingHeader(header) => "missing header: "@ + header,
        SignatureErrorView::TimestampExpired(age) => "timestamp too old ("@ + decimal(age as nat)
            + "s)"@,
        SignatureErrorView::InvalidSignature => "invalid HMAC signature"@,
        SignatureErrorView::NotConfigured => "signing secret not configured"@,
    }
}

impl SignatureError {
    /// What the refusal says.
    pub fn message(&self) -> (text: String)
        ensures
            text@ == signature_error_text(self@),
    {
        match self {
            SignatureError::MissingHeader(header) => "missing header: ".to_owned().concat(header),
            SignatureError::TimestampExpired(age) => "timestamp too old (".to_owned().concat(
                render_decimal(*age).as_str(),
            ).concat("s)"),
            SignatureError::InvalidSignature => "invalid HMAC signature".to_owned(),
            SignatureError::NotConfigured => "signing secret not configured".to_owned(),
        }
    }
}

/// The HMAC of some data under a key, by SHA-256.
pub uninterp spec fn hmac_sha256(key: Seq<u8>, data: Seq<u8>) -> Seq<u8>;

/// `ring::hmac::sign` with `ring::hmac::HMAC_SHA256`: the tag of some data under a key, of
/// 32 bytes.
#[verifier::external_body]
fn sign(key: &[u8], data: &[u8]) -> (tag: Vec<u8>)
    requires
        key@.len() <= MAX_SIGNED_BYTES,
        data@.len() <= MAX_SIGNED_BYTES,
    ensures
        tag@ == hmac_sha256(key@, data@),
        tag@.len() == 32,
{
    ring::hmac::sign(&ring::hmac::Key::new(ring::hmac::HMAC_SHA256, key), data).as_ref().to_vec()
}

/// Bytes in hexadecimal: two digits a byte, small letters.
pub open spec fn hex_text(bytes: Seq<u8>) -> Seq<char> {
    Seq::new(
        bytes.len() * 2,
        |i: int|
            if i % 2 == 0 {
                digit_char((bytes[i / 2] / 16) as nat)
            } else {
                digit_char((bytes[i / 2] % 16) as nat)
            },
    )
}

/// `hex::encode`: the bytes in hexadecimal, two digits a byte, small letters.
#[verifier::external_body]
fn hex_encode(bytes: &[u8]) -> (text: String)
    requires
        bytes@.len() <= MAX_SIGNED_BYTES,
    ensures
        text@ == hex_text(bytes@),
{
    hex::encode(bytes)
}

/// What Slack signs: the version of the scheme, the timestamp, and the body's own bytes.
pub open spec fn signed_bytes(timestamp: Seq<char>, body: Seq<u8>) -> Seq<u8> {
    encode_utf8("v0:"@ + timestamp + ":"@) + body
}

/// The signature due.
pub open spec fn expected_signature(secret: Seq<char>, timestamp: Seq<char>, body: Seq<u8>) -> Seq<
    char,
> {
    "v0="@ + hex_text(hmac_sha256(encode_utf8(secret), signed_bytes(timestamp, body)))
}

/// Two runs of bytes, one behind the other.
fn joined_bytes(first: &[u8], second: &[u8]) -> (both: Vec<u8>)
    ensures
        both@ == first@ + second@,
{
    let mut both: Vec<u8> = Vec::new();
    let mut i: usize = 0;
    while i < first.len()
        invariant
            i <= first.len(),
            both@ == first@.take(i as int),
        decreases first.len() - i,
    {
        both.push(first[i]);
        i += 1;
        assert(both@ =~= first@.take(i as int));
    }
    let mut j: usize = 0;
    assert(both@ =~= first@ + second@.take(0));
    while j < second.len()
        invariant
            j <= second.len(),
            both@ == first@ + second@.take(j as int),
        decreases second.len() - j,
    {
        both.push(second[j]);
        j += 1;
        assert(both@ =~= first@ + second@.take(j as int));
    }
    assert(both@ =~= first@ + second@);
    both
}

/// The age of a request, in seconds. One from the future is new.
pub open spec fn age_of(timestamp: nat, now: i64) -> nat {
    if now > timestamp {
        (now - timestamp) as nat
    } else {
        0
    }
}

/// What is made of a request: in this order, there must be a secret, the timestamp must be
/// a number, the request must not be too old, and the signature must be the one due.
pub open spec fn signature_due(
    secret: Option<Seq<char>>,
    timestamp: Seq<char>,
    signature: Seq<char>,
    body: Seq<u8>,
    now: i64,
) -> Result<(), SignatureErrorView> {
    match secret {
        None => Err(SignatureErrorView::NotConfigured),
        Some(secret) => match unsigned_reading(timestamp, u64::MAX as nat) {
            None => Err(SignatureErrorView::MissingHeader("x-slack-request-timestamp"@)),
            Some(at) => if age_of(at, now) > MAX_TIMESTAMP_AGE_SECS {
                Err(SignatureErrorView::TimestampExpired(age_of(at, now) as u64))
            } else if encode_utf8(secret).len() > MAX_SIGNED_BYTES || signed_bytes(
                timestamp,
                body,
            ).len() > MAX_SIGNED_BYTES {
                Err(SignatureErrorView::InvalidSignature)
            } else if signature == expected_signature(secret, timestamp, body) {
                Ok(())
            } else {
                Err(SignatureErrorView::InvalidSignature)
            },
        },
    }
}

// ---------------------------------------------------------------------------
// The client
// ---------------------------------------------------------------------------

/// Slack, as a bot's token opens it.
#[derive(Clone)]
pub struct SlackClient {
    bot_token: String,
    signing_secret: Option<String>,
}

/// What is posted to Slack.
#[derive(Debug)]
pub struct SlackCall {
    /// The address.
    pub url: &'static str,
    /// The body.
    pub payload: Json,
}

/// The body of a post.
pub open spec fn post_json(channel: Seq<char>, blocks: JsonView) -> JsonView {
    JsonView::Object(
        fields().push(("channel"@, JsonView::Text(channel))).push(("blocks"@, blocks)),
    )
}

/// The body of a change.
pub open spec fn update_json(channel: Seq<char>, ts: Seq<char>, blocks: JsonView) -> JsonView {
    JsonView::Object(
        fields().push(("channel"@, JsonView::Text(channel))).push(("ts"@, JsonView::Text(ts))).push(
            ("blocks"@, blocks),
        ),
    )
}

impl SlackClient {
    /// The bot's token.
    pub closed spec fn token(&self) -> Seq<char> {
        self.bot_token@
    }

    /// The secret with which Slack signs its requests.
    pub closed spec fn secret(&self) -> Option<Seq<char>> {
        text_view(self.signing_secret)
    }

    /// Slack as it is configured.
    pub fn new(config: &SlackConfig) -> (client: Self)
        ensures
            client.token() == config.bot_token@,
            client.secret() == text_view(config.signing_secret),
    {
        SlackClient {
            bot_token: config.bot_token.clone(),
            signing_secret: dup_text(&config.signing_secret),
        }
    }

    /// The credential that goes with every call.
    pub fn authorization(&self) -> (header: String)
        ensures
            header@ == "Bearer "@ + self.token(),
    {
        "Bearer ".to_owned().concat(self.bot_token.as_str())
    }

    /// The call that posts a message.
    pub fn post_message(&self, channel: &str, blocks: Json) -> (call: SlackCall)
        ensures
            call.url@ == SLACK_POST_MESSAGE_URL@,
            call.payload@ == post_json(channel@, blocks@),
    {
        let mut members = no_members();
        put_text(&mut members, "channel", channel);
        put(&mut members, "blocks", blocks);
        SlackCall { url: SLACK_POST_MESSAGE_URL, payload: Json::object(members) }
    }

    /// The call that changes a message.
    pub fn update_message(&self, channel: &str, message_ts: &str, blocks: Json) -> (call: SlackCall)
        ensures
            call.url@ == SLACK_CHAT_UPDATE_URL@,
            call.payload@ == update_json(channel@, message_ts@, blocks@),
    {
        let mut members = no_members();
        put_text(&mut members, "channel", channel);
        put_text(&mut members, "ts", message_ts);
        put(&mut members, "blocks", blocks);
        SlackCall { url: SLACK_CHAT_UPDATE_URL, payload: Json::object(members) }
    }

    /// Checks that a request is Slack's, at a given time.
    pub fn verify_signature_at(&self, timestamp: &str, signature: &str, body: &[u8], now: i64) -> (genuine:
        Result<(), SignatureError>)
        ensures
            match genuine {
                Ok(()) => signature_due(self.secret(), timestamp@, signature@, body@, now) == Ok::<
                    (),
                    SignatureErrorView,
                >(()),
                Err(error) => signature_due(self.secret(), timestamp@, signature@, body@, now)
                    == Err::<(), SignatureErrorView>(error@),
            },
    {
        let secret = match &self.signing_secret {
            Some(secret) => secret.as_str(),
            None => {
                return Err(SignatureError::NotConfigured);
            },
        };
        let at: u64 = match read_unsigned(timestamp, u64::MAX) {
            Some(at) => at,
            None => {
                return Err(SignatureError::MissingHeader("x-slack-request-timestamp"));
            },
        };
        let clock: u64 = if now < 0 { 0 } else { now as u64 };
        let age: u64 = clock.saturating_sub(at);
        if age > MAX_TIMESTAMP_AGE_SECS {
            return Err(SignatureError::TimestampExpired(age));
        }
        let base = "v0:".to_owned().concat(timestamp).concat(":");
        let key = secret.as_bytes();
        let data = joined_bytes(base.as_str().as_bytes(), body);
        if key.len() as u64 > MAX_SIGNED_BYTES || data.len() as u64 > MAX_SIGNED_BYTES {
            return Err(SignatureError::InvalidSignature);
        }
        let tag = sign(key, data.as_slice());
        let expected = "v0=".to_owned().concat(hex_encode(tag.as_slice()).as_str());
        if same_secret(signature, expected.as_str()) {
            Ok(())
        } else {
            Err(SignatureError::InvalidSignature)
        }
    }

    /// Checks that a request is Slack's.
    pub fn verify_signature(&self, timestamp: &str, signature: &str, body: &[u8]) -> (genuine: Result<
        (),
        SignatureError,
    >)
        ensures
            exists|now: i64|
                match genuine {
                    Ok(()) => #[trigger] signature_due(
                        self.secret(),
                        timestamp@,
                        signature@,
                        body@,
                        now,
                    ) == Ok::<(), SignatureErrorView>(()),
                    Err(error) => signature_due(self.secret(), timestamp@, signature@, body@, now)
                        == Err::<(), SignatureErrorView>(error@),
                },
    {
        let now = utc_now();
        self.verify_signature_at(timestamp, signature, body, now.secs)
    }
}

/// A request that Slack signed in the last five minutes is genuine, and no other signature
/// makes one so.
pub proof fn only_the_signature_due_is_accepted(
    secret: Seq<char>,
    timestamp: Seq<char>,
    signature: Seq<char>,
    body: Seq<u8>,
    now: i64,
)
    ensures
        signature_due(Some(secret), timestamp, signature, body, now) is Ok ==> signature
            == expected_signature(secret, timestamp, body),
        ({
            &&& unsigned_reading(timestamp, u64::MAX as nat) matches Some(at) && age_of(at, now)
                <= MAX_TIMESTAMP_AGE_SECS
            &&& encode_utf8(secret).len() <= MAX_SIGNED_BYTES
            &&& signed_bytes(timestamp, body).len() <= MAX_SIGNED_BYTES
        }) ==> signature_due(
            Some(secret),
            timestamp,
            expected_signature(secret, timestamp, body),
            body,
            now,
        ) is Ok,
        signature_due(None, timestamp, signature, body, now) is Err,
{
}

} // verus!
