//! How alerts are configured.

use vstd::prelude::*;

use crate::clock::{seconds, Duration};
use crate::digits::{read_unsigned, unsigned_reading};
use crate::json::text_view;
use crate::string_map::{lookup, Pair, StringMap};
use crate::text::{chars_of, runs, split, split_chars, string_of, trim, trimmed, views};

verus! {

/// Which alerts are sent, and how often.
#[derive(Debug, Clone)]
pub struct NotificationConfig {
    /// Slack; not used when absent.
    pub slack: Option<SlackConfig>,
    /// Email; not used when absent.
    pub email: Option<EmailConfig>,
    /// For how long errors are gathered before an alert.
    pub batch_window: Duration,
    /// The most alerts in a minute.
    pub max_messages_per_minute: u32,
    /// The least time between two alerts of one error.
    pub dedup_window: Duration,
    /// The service, as alerts name it.
    pub service_name: String,
    /// The environment, as alerts name it.
    pub environment: String,
    /// The host, as alerts name it.
    pub host: Option<String>,
}

/// How Slack is reached.
#[derive(Debug, Clone)]
pub struct SlackConfig {
    /// Token of the bot.
    pub bot_token: String,
    /// Channel for alerts.
    pub error_channel: String,
    /// Secret with which Slack signs its requests.
    pub signing_secret: Option<String>,
}

/// How email is sent.
#[derive(Debug, Clone)]
pub struct EmailConfig {
    /// Key of the mail service.
    pub resend_api_key: String,
    /// Sender.
    pub from_address: String,
    /// Recipients.
    pub to_addresses: Vec<String>,
}

/// The value of a variable, unless it is empty.
pub open spec fn filled(env: Seq<Pair>, name: Seq<char>) -> Option<Seq<char>> {
    match lookup(env, name) {
        Some(value) => if value.len() > 0 {
            Some(value)
        } else {
            None
        },
        None => None,
    }
}

/// The number that a variable holds, or the given one when it holds none.
pub open spec fn number_or(env: Seq<Pair>, name: Seq<char>, max: nat, default: nat) -> nat {
    match lookup(env, name) {
        Some(value) => match unsigned_reading(value, max) {
            Some(n) => n,
            None => default,
        },
        None => default,
    }
}

/// The text that a variable holds, or the given one when it is not set.
pub open spec fn text_or(env: Seq<Pair>, name: Seq<char>, default: Seq<char>) -> Seq<char> {
    match lookup(env, name) {
        Some(value) => value,
        None => default,
    }
}

/// The host that alerts name: the first of four variables that is set and not empty.
pub open spec fn host_of(env: Seq<Pair>) -> Option<Seq<char>> {
    match filled(env, "DRAVR_NOTIFY_HOST"@) {
        Some(host) => Some(host),
        None => match filled(env, "K_REVISION"@) {
            Some(host) => Some(host),
            None => match filled(env, "HOSTNAME"@) {
                Some(host) => Some(host),
                None => filled(env, "HOST"@),
            },
        },
    }
}

fn read_filled(env: &StringMap, name: &str) -> (value: Option<String>)
    ensures
        text_view(value) == filled(env@, name@),
{
    match env.get(name) {
        Some(value) => if value.is_empty() {
            None
        } else {
            Some(value.to_owned())
        },
        None => None,
    }
}

fn read_number(env: &StringMap, name: &str, max: u64, default: u64) -> (n: u64)
    requires
        default <= max,
    ensures
        n == number_or(env@, name@, max as nat, default as nat),
        n <= max,
{
    match env.get(name) {
        Some(value) => match read_unsigned(value, max) {
            Some(n) => n,
            None => default,
        },
        None => default,
    }
}

fn read_text(env: &StringMap, name: &str, default: &str) -> (text: String)
    ensures
        text@ == text_or(env@, name@, default@),
{
    match env.get(name) {
        Some(value) => value.to_owned(),
        None => default.to_owned(),
    }
}

impl SlackConfig {
    /// Slack as the environment configures it: not at all without a token and a channel.
    pub fn from_env(env: &StringMap) -> (config: Option<Self>)
        ensures
            match config {
                Some(config) => filled(env@, "SLACK_BOT_TOKEN"@) == Some(config.bot_token@)
                    && filled(env@, "SLACK_ERROR_CHANNEL"@) == Some(config.error_channel@)
                    && text_view(config.signing_secret) == filled(env@, "SLACK_SIGNING_SECRET"@),
                None => filled(env@, "SLACK_BOT_TOKEN"@) is None || filled(
                    env@,
                    "SLACK_ERROR_CHANNEL"@,
                ) is None,
            },
    {
        let bot_token = match read_filled(env, "SLACK_BOT_TOKEN") {
            Some(token) => token,
            None => {
                return None;
            },
        };
        let error_channel = match read_filled(env, "SLACK_ERROR_CHANNEL") {
            Some(channel) => channel,
            None => {
                return None;
            },
        };
        let signing_secret = read_filled(env, "SLACK_SIGNING_SECRET");
        Some(SlackConfig { bot_token, error_channel, signing_secret })
    }
}

/// The addresses in a list of parts: what is left of each without the white space around
/// it, where anything is.
pub open spec fn addresses(parts: Seq<Seq<char>>) -> Seq<Seq<char>>
    decreases parts.len(),
{
    if parts.len() == 0 {
        Seq::empty()
    } else {
        let address = trimmed(parts.last());
        if address.len() == 0 {
            addresses(parts.drop_last())
        } else {
            addresses(parts.drop_last()).push(address)
        }
    }
}

/// The addresses in a text, with commas between.
pub open spec fn recipients(text: Seq<char>) -> Seq<Seq<char>> {
    addresses(split(text, ','))
}

/// The addresses in a text, with commas between.
pub fn read_recipients(text: &str) -> (to: Vec<String>)
    ensures
        views(to@) == recipients(text@),
{
    let parts = split_chars(&chars_of(text), ',');
    let ghost whole = split(text@, ',');
    let mut to: Vec<String> = Vec::new();
    let mut i: usize = 0;
    assert(views(to@) =~= Seq::<Seq<char>>::empty());
    while i < parts.len()
        invariant
            i <= parts.len(),
            runs(parts@) == whole,
            whole.len() == parts.len(),
            views(to@) == addresses(whole.take(i as int)),
        decreases parts.len() - i,
    {
        let ghost before = views(to@);
        proof {
            assert(whole.take(i + 1).drop_last() =~= whole.take(i as int));
            assert(whole.take(i + 1).last() == runs(parts@)[i as int]);
        }
        let part = string_of(parts[i].as_slice());
        let address = trim(part.as_str());
        if !address.is_empty() {
            to.push(address.to_owned());
            assert(views(to@) =~= before.push(address@));
        }
        i += 1;
    }
    assert(whole.take(i as int) =~= whole);
    to
}

impl EmailConfig {
    /// Email as the environment configures it: not at all without a key, a sender and at
    /// least one recipient.
    pub fn from_env(env: &StringMap) -> (config: Option<Self>)
        ensures
            match config {
                Some(config) => filled(env@, "RESEND_API_KEY"@) == Some(config.resend_api_key@)
                    && filled(env@, "NOTIFY_EMAIL_FROM"@) == Some(config.from_address@) && (filled(
                    env@,
                    "NOTIFY_EMAIL_TO"@,
                ) matches Some(to) && views(config.to_addresses@) == recipients(to) && recipients(
                    to,
                ).len() > 0),
                None => filled(env@, "RESEND_API_KEY"@) is None || filled(
                    env@,
                    "NOTIFY_EMAIL_FROM"@,
                ) is None || (filled(env@, "NOTIFY_EMAIL_TO"@) matches Some(to) ==> recipients(
                    to,
                ).len() == 0),
            },
    {
        let resend_api_key = match read_filled(env, "RESEND_API_KEY") {
            Some(key) => key,
            None => {
                return None;
            },
        };
        let from_address = match read_filled(env, "NOTIFY_EMAIL_FROM") {
            Some(from) => from,
            None => {
                return None;
            },
        };
        let to = match read_filled(env, "NOTIFY_EMAIL_TO") {
            Some(to) => to,
            None => {
                return None;
            },
        };
        let to_addresses = read_recipients(to.as_str());
        assert(views(to_addresses@).len() == to_addresses@.len());
        if to_addresses.len() == 0 {
            return None;
        }
        Some(EmailConfig { resend_api_key, from_address, to_addresses })
    }
}

impl NotificationConfig {
    /// Alerts as the environment configures them.
    pub fn from_env(env: &StringMap) -> (config: Self)
        ensures
            config.slack is Some <==> filled(env@, "SLACK_BOT_TOKEN"@) is Some && filled(
                env@,
                "SLACK_ERROR_CHANNEL"@,
            ) is Some,
            config.slack matches Some(slack) ==> filled(env@, "SLACK_BOT_TOKEN"@) == Some(
                slack.bot_token@,
            ) && filled(env@, "SLACK_ERROR_CHANNEL"@) == Some(slack.error_channel@) && text_view(
                slack.signing_secret,
            ) == filled(env@, "SLACK_SIGNING_SECRET"@),
            config.email is Some <==> filled(env@, "RESEND_API_KEY"@) is Some && filled(
                env@,
                "NOTIFY_EMAIL_FROM"@,
            ) is Some && (filled(env@, "NOTIFY_EMAIL_TO"@) matches Some(to) && recipients(
                to,
            ).len() > 0),
            config.email matches Some(email) ==> filled(env@, "RESEND_API_KEY"@) == Some(
                email.resend_api_key@,
            ) && filled(env@, "NOTIFY_EMAIL_FROM"@) == Some(email.from_address@) && views(
                email.to_addresses@,
            ) == recipients(filled(env@, "NOTIFY_EMAIL_TO"@)->0),
            config.batch_window@ == seconds(
                number_or(env@, "NOTIFY_BATCH_WINDOW_SECS"@, u64::MAX as nat, 5) as u64,
            ),
            config.max_messages_per_minute == number_or(
                env@,
                "NOTIFY_MAX_MESSAGES_PER_MIN"@,
                u32::MAX as nat,
                10,
            ),
            config.dedup_window@ == seconds(
                number_or(env@, "NOTIFY_DEDUP_WINDOW_SECS"@, u64::MAX as nat, 30) as u64,
            ),
            config.service_name@ == text_or(env@, "SERVICE_NAME"@, "dravr-service"@),
            config.environment@ == text_or(env@, "ENVIRONMENT"@, "development"@),
            text_view(config.host) == host_of(env@),
    {
        let batch_secs: u64 = read_number(env, "NOTIFY_BATCH_WINDOW_SECS", u64::MAX, 5);
        let most: u64 = read_number(env, "NOTIFY_MAX_MESSAGES_PER_MIN", u32::MAX as u64, 10);
        let dedup_secs: u64 = read_number(env, "NOTIFY_DEDUP_WINDOW_SECS", u64::MAX, 30);
        let host = match read_filled(env, "DRAVR_NOTIFY_HOST") {
            Some(host) => Some(host),
            None => match read_filled(env, "K_REVISION") {
                Some(host) => Some(host),
                None => match read_filled(env, "HOSTNAME") {
                    Some(host) => Some(host),
                    None => read_filled(env, "HOST"),
                },
            },
        };
        NotificationConfig {
            slack: SlackConfig::from_env(env),
            email: EmailConfig::from_env(env),
            batch_window: Duration::from_secs(batch_secs),
            max_messages_per_minute: most as u32,
            dedup_window: Duration::from_secs(dedup_secs),
            service_name: read_text(env, "SERVICE_NAME", "dravr-service"),
            environment: read_text(env, "ENVIRONMENT", "development"),
            host,
        }
    }
}

} // verus!
