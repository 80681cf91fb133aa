//! Email through Resend: what is posted, and what is made of the answer.
//!
//! A refusal for too many requests is retried after the wait that the answer asks for,
//! a few times and for a short while only.

use vstd::prelude::*;

use crate::clock::{millis, seconds, Duration};
use crate::digits::{decimal, read_unsigned, render_decimal, unsigned_reading};
use crate::http_client::RequestFailure;
use crate::json::{fields, no_members, put, put_text, text_list, Json, JsonView};
use crate::server::auth::str_view;
use crate::text::{trim, trimmed, views};

verus! {

/// Where emails are posted.
pub const RESEND_API_URL: &'static str = "https://api.resend.com/emails";

/// The most retries of one email.
pub const MAX_RETRIES: u32 = 3;

/// The longest wait before a retry, in milliseconds.
pub const MAX_RETRY_DELAY_MS: u64 = 5_000;

/// The wait before a retry when the answer asks for none, in milliseconds.
pub const DEFAULT_RETRY_DELAY_MS: u64 = 1_000;

/// The shortest wait before a retry, in milliseconds.
pub const RETRY_DELAY_FLOOR_MS: u64 = 200;

/// The body of an email.
#[derive(Debug, Clone, PartialEq, Eq)]
pub enum ResendBody {
    /// Plain text.
    Text(String),
    /// HTML.
    Html(String),
}

/// An email.
#[derive(Debug, Clone, PartialEq, Eq)]
pub struct ResendEmail {
    /// Sender.
    pub from: String,
    /// Recipients.
    pub to: Vec<String>,
    /// Subject.
    pub subject: String,
    /// Body.
    pub body: ResendBody,
}

impl ResendEmail {
    /// The JSON that is posted: the body under `text` or `html`, never both.
    pub open spec fn wire(self) -> JsonView {
        let base = fields().push(("from"@, JsonView::Text(self.from@))).push(
            ("to"@, text_list(views(self.to@))),
        ).push(("subject"@, JsonView::Text(self.subject@)));
        JsonView::Object(
            match self.body {
                ResendBody::Text(text) => base.push(("text"@, JsonView::Text(text@))),
                ResendBody::Html(html) => base.push(("html"@, JsonView::Text(html@))),
            },
        )
    }

    /// The JSON that is posted.
    pub fn payload(&self) -> (json: Json)
        ensures
            json@ == self.wire(),
    {
        let mut members = no_members();
        put_text(&mut members, "from", self.from.as_str());
        put(&mut members, "to", Json::texts(&self.to));
        put_text(&mut members, "subject", self.subject.as_str());
        match &self.body {
            ResendBody::Text(text) => put_text(&mut members, "text", text.as_str()),
            ResendBody::Html(html) => put_text(&mut members, "html", html.as_str()),
        }
        Json::object(members)
    }
}

/// Why an email was not sent.
#[derive(Debug, Clone, PartialEq, Eq)]
pub enum ResendError {
    /// There is no key.
    MissingApiKey,
    /// Nothing was posted, or no answer came.
    Transport(String),
    /// The answer was a refusal.
    Api {
        /// Its status.
        status: u16,
        /// Its body.
        body: String,
    },
}

/// What an error says.
pub open spec fn resend_error_text(error: ResendError) -> Seq<char> {
    match error {
        ResendError::MissingApiKey => "Resend API key is empty"@,
        ResendError::Transport(reason) => "Resend request failed: "@ + reason@,
        ResendError::Api { status, body } => "Resend API error (HTTP "@ + decimal(status as nat)
            + "): "@ + body@,
    }
}

impl ResendError {
    /// What the error says.
    pub fn message(&self) -> (text: String)
        ensures
            text@ == resend_error_text(*self),
    {
        match self {
            ResendError::MissingApiKey => "Resend API key is empty".to_owned(),
            ResendError::Transport(reason) => "Resend request failed: ".to_owned().concat(
                reason.as_str(),
            ),
            ResendError::Api { status, body } => "Resend API error (HTTP ".to_owned().concat(
                render_decimal(*status as u64).as_str(),
            ).concat("): ").concat(body.as_str()),
        }
    }
}

/// The mail service, as a key opens it.
#[derive(Debug, Clone)]
pub struct ResendClient {
    api_key: String,
}

impl ResendClient {
    /// The key.
    pub closed spec fn key(&self) -> Seq<char> {
        self.api_key@
    }

    /// The mail service, opened with a key.
    pub fn new(api_key: &str) -> (client: Result<Self, ResendError>)
        ensures
            match client {
                Ok(client) => api_key@.len() > 0 && client.key() == api_key@,
                Err(error) => api_key@.len() == 0 && error is MissingApiKey,
            },
    {
        if api_key.is_empty() {
            Err(ResendError::MissingApiKey)
        } else {
            Ok(ResendClient { api_key: api_key.to_owned() })
        }
    }

    /// The key.
    pub fn api_key(&self) -> (key: &str)
        ensures
            key@ == self.key(),
    {
        self.api_key.as_str()
    }
}

// ---------------------------------------------------------------------------
// Retrying
// ---------------------------------------------------------------------------

/// The seconds that a header names.
pub open spec fn header_seconds(header: Option<Seq<char>>) -> Option<u64> {
    match header {
        Some(text) => match unsigned_reading(trimmed(text), u64::MAX as nat) {
            Some(n) => Some(n as u64),
            None => None,
        },
        None => None,
    }
}

/// The seconds that the answer asks to wait for: those of `Retry-After`, or else those of
/// `RateLimit-Reset`.
pub open spec fn asked_seconds(retry_after: Option<Seq<char>>, ratelimit_reset: Option<Seq<char>>) -> Option<
    u64,
> {
    match header_seconds(retry_after) {
        Some(secs) => Some(secs),
        None => header_seconds(ratelimit_reset),
    }
}

fn read_seconds(header: Option<&str>) -> (secs: Option<u64>)
    ensures
        secs == header_seconds(str_view(header)),
{
    match header {
        Some(text) => read_unsigned(trim(text), u64::MAX),
        None => None,
    }
}

/// What a span that may be absent is.
pub open spec fn span_view(span: Option<Duration>) -> Option<nat> {
    match span {
        Some(span) => Some(span@),
        None => None,
    }
}

/// The wait that the answer asks for.
pub fn parse_retry_delay(retry_after: Option<&str>, ratelimit_reset: Option<&str>) -> (delay: Option<
    Duration,
>)
    ensures
        span_view(delay) == match asked_seconds(str_view(retry_after), str_view(ratelimit_reset)) {
            Some(secs) => Some(seconds(secs)),
            None => None,
        },
{
    match read_seconds(retry_after) {
        Some(secs) => Some(Duration::from_secs(secs)),
        None => match read_seconds(ratelimit_reset) {
            Some(secs) => Some(Duration::from_secs(secs)),
            None => None,
        },
    }
}

/// Whether to retry, and after which wait: no more after the last retry, and not when the
/// wait asked for is too long.
pub open spec fn retry_plan(attempt: u32, hint: Option<nat>) -> Option<nat> {
    let delay = match hint {
        Some(hint) => hint,
        None => millis(DEFAULT_RETRY_DELAY_MS),
    };
    if attempt >= MAX_RETRIES || delay > millis(MAX_RETRY_DELAY_MS) {
        None
    } else if delay < millis(RETRY_DELAY_FLOOR_MS) {
        Some(millis(RETRY_DELAY_FLOOR_MS))
    } else {
        Some(delay)
    }
}

/// Whether to retry, and after which wait.
pub fn plan_retry(attempt: u32, hint: Option<Duration>) -> (delay: Option<Duration>)
    ensures
        span_view(delay) == retry_plan(attempt, span_view(hint)),
{
    if attempt >= MAX_RETRIES {
        return None;
    }
    let delay = match hint {
        Some(hint) => hint,
        None => Duration::from_millis(DEFAULT_RETRY_DELAY_MS),
    };
    if Duration::from_millis(MAX_RETRY_DELAY_MS).shorter_than(delay) {
        return None;
    }
    Some(delay.at_least(Duration::from_millis(RETRY_DELAY_FLOOR_MS)))
}

/// What is to be done after an answer.
#[derive(Debug)]
pub enum SendStep {
    /// Nothing: the email was sent.
    Sent,
    /// Wait, then post again.
    Retry(Duration),
    /// Read the body of the answer: it is the failure's.
    Fail,
}

/// What is to be done after an answer.
pub enum SendStepView {
    /// Nothing.
    Sent,
    /// Wait, then post again.
    Retry(nat),
    /// Read the body of the answer.
    Fail,
}

impl View for SendStep {
    type V = SendStepView;

    open spec fn view(&self) -> SendStepView {
        match *self {
            SendStep::Sent => SendStepView::Sent,
            SendStep::Retry(delay) => SendStepView::Retry(delay@),
            SendStep::Fail => SendStepView::Fail,
        }
    }
}

/// What is to be done after an answer: only a refusal for too many requests is retried.
pub open spec fn after_answer(
    retries: u32,
    status: u16,
    retry_after: Option<Seq<char>>,
    ratelimit_reset: Option<Seq<char>>,
) -> SendStepView {
    if 200 <= status < 300 {
        SendStepView::Sent
    } else if status == 429 {
        match retry_plan(
            retries,
            match asked_seconds(retry_after, ratelimit_reset) {
                Some(secs) => Some(seconds(secs)),
                None => None,
            },
        ) {
            Some(delay) => SendStepView::Retry(delay),
            None => SendStepView::Fail,
        }
    } else {
        SendStepView::Fail
    }
}

/// An email on its way.
#[derive(Debug)]
pub struct Sending {
    attempt: u32,
}

impl Sending {
    /// How often it was posted again.
    pub closed spec fn retries(&self) -> u32 {
        self.attempt
    }

    /// An email that is about to be posted.
    pub fn start() -> (sending: Self)
        ensures
            sending.retries() == 0,
    {
        Sending { attempt: 0 }
    }

    /// What is to be done after an answer, from its status and the headers that ask for a
    /// wait.
    pub fn answered(
        &mut self,
        status: u16,
        retry_after: Option<&str>,
        ratelimit_reset: Option<&str>,
    ) -> (step: SendStep)
        ensures
            step@ == after_answer(
                old(self).retries(),
                status,
                str_view(retry_after),
                str_view(ratelimit_reset),
            ),
            final(self).retries() == if step is Retry {
                (old(self).retries() + 1) as u32
            } else {
                old(self).retries()
            },
            step is Retry ==> final(self).retries() <= MAX_RETRIES,
    {
        if 200 <= status && status < 300 {
            return SendStep::Sent;
        }
        if status != 429 {
            return SendStep::Fail;
        }
        match plan_retry(self.attempt, parse_retry_delay(retry_after, ratelimit_reset)) {
            Some(delay) => {
                self.attempt += 1;
                SendStep::Retry(delay)
            },
            None => SendStep::Fail,
        }
    }

    /// The failure of an email whose request failed.
    pub fn unsent(failure: &RequestFailure) -> (error: ResendError)
        ensures
            error matches ResendError::Transport(words) && words@ == failure.described(),
    {
        ResendError::Transport(failure.describe())
    }

    /// The failure of an email, from the answer's status and its body as far as it could
    /// be read.
    pub fn failed(status: u16, body: Option<String>) -> (error: ResendError)
        ensures
            error matches ResendError::Api { status: code, body: words } && code == status
                && words@ == match body {
                Some(body) => body@,
                None => "no body"@,
            },
    {
        match body {
            Some(body) => ResendError::Api { status, body },
            None => ResendError::Api { status, body: "no body".to_owned() },
        }
    }
}

// ---------------------------------------------------------------------------
// Laws
// ---------------------------------------------------------------------------

/// Every wait before a retry is neither so short that it does nothing nor so long that it
/// holds anybody up.
pub proof fn waits_are_bounded(attempt: u32, hint: Option<nat>)
    ensures
        retry_plan(attempt, hint) matches Some(delay) ==> millis(RETRY_DELAY_FLOOR_MS) <= delay
            <= millis(MAX_RETRY_DELAY_MS),
{
}

/// After the last retry nothing is posted again, whatever the answer asks for.
pub proof fn retries_end(
    retries: u32,
    status: u16,
    retry_after: Option<Seq<char>>,
    ratelimit_reset: Option<Seq<char>>,
)
    requires
        retries >= MAX_RETRIES,
    ensures
        !(after_answer(retries, status, retry_after, ratelimit_reset) is Retry),
{
}

/// Nothing but a refusal for too many requests is retried.
pub proof fn only_rate_limits_are_retried(
    retries: u32,
    status: u16,
    retry_after: Option<Seq<char>>,
    ratelimit_reset: Option<Seq<char>>,
)
    requires
        status != 429,
    ensures
        !(after_answer(retries, status, retry_after, ratelimit_reset) is Retry),
{
}

} // verus!
