//! How a server's log is set up.

use vstd::prelude::*;

use crate::json::text_view;
use crate::notifications::config::NotificationConfig;
use crate::notifications::email::EmailClient;
use crate::notifications::slack::SlackClient;
use crate::server::auth::str_view;
use crate::text::{same, views};

verus! {

/// What is logged when the environment does not say.
pub const DEFAULT_LOG_FILTER: &'static str = "info";

/// The service that traces name when the environment does not say.
pub const DEFAULT_SERVICE_NAME: &'static str = "dravr-service";

/// Whether the log goes to standard error: it does when standard output carries the
/// protocol.
pub fn logs_to_stderr(transport: &str) -> (stderr: bool)
    ensures
        stderr == (transport@ == "stdio"@),
{
    same(transport, "stdio")
}

/// Where traces go, and in whose name.
#[derive(Debug)]
pub struct TraceExport {
    /// The collector.
    pub endpoint: String,
    /// The service.
    pub service_name: String,
}

/// Where traces go, from what the environment says of the collector and the service: nowhere
/// without a collector.
pub fn trace_export(endpoint: Option<&str>, service_name: Option<&str>) -> (export: Option<
    TraceExport,
>)
    ensures
        match export {
            Some(export) => str_view(endpoint) == Some(export.endpoint@)
                && export.service_name@ == match str_view(service_name) {
                Some(name) => name,
                None => DEFAULT_SERVICE_NAME@,
            },
            None => endpoint is None,
        },
{
    match endpoint {
        Some(endpoint) => Some(
            TraceExport {
                endpoint: endpoint.to_owned(),
                service_name: match service_name {
                    Some(name) => name.to_owned(),
                    None => DEFAULT_SERVICE_NAME.to_owned(),
                },
            },
        ),
        None => None,
    }
}

/// The ways by which errors are alerted.
pub struct AlertChannels {
    /// Slack.
    pub slack: Option<SlackClient>,
    /// Email.
    pub email: Option<EmailClient>,
}

/// The ways by which errors are alerted, as they are configured. Email without a key is none.
pub fn alert_channels(config: &NotificationConfig) -> (channels: AlertChannels)
    ensures
        match channels.slack {
            Some(client) => config.slack matches Some(slack) && client.token() == slack.bot_token@
                && client.secret() == text_view(slack.signing_secret),
            None => config.slack is None,
        },
        match channels.email {
            Some(client) => config.email matches Some(email) && email.resend_api_key@.len() > 0
                && client.key() == email.resend_api_key@ && client.sender() == email.from_address@
                && client.recipients() == views(email.to_addresses@),
            None => config.email matches Some(email) ==> email.resend_api_key@.len() == 0,
        },
{
    let slack = match &config.slack {
        Some(slack) => Some(SlackClient::new(slack)),
        None => None,
    };
    let email = match &config.email {
        Some(email) => match EmailClient::new(email) {
            Ok(client) => Some(client),
            Err(_) => None,
        },
        None => None,
    };
    AlertChannels { slack, email }
}

impl AlertChannels {
    /// Whether errors are alerted at all.
    pub fn any(&self) -> (some: bool)
        ensures
            some == (self.slack is Some || self.email is Some),
    {
        self.slack.is_some() || self.email.is_some()
    }
}

} // verus!
