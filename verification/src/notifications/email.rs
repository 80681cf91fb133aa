//! Alerts by email.

use vstd::prelude::*;

use crate::notifications::config::EmailConfig;
use crate::notifications::resend::{ResendBody, ResendClient, ResendEmail, ResendError};
use crate::text::{dup_texts, views};

verus! {

/// Alerts by email, from one sender to the same recipients.
#[derive(Debug, Clone)]
pub struct EmailClient {
    resend: ResendClient,
    from_address: String,
    to_addresses: Vec<String>,
}

impl EmailClient {
    /// The key of the mail service.
    pub closed spec fn key(&self) -> Seq<char> {
        self.resend.key()
    }

    /// The sender.
    pub closed spec fn sender(&self) -> Seq<char> {
        self.from_address@
    }

    /// The recipients.
    pub closed spec fn recipients(&self) -> Seq<Seq<char>> {
        views(self.to_addresses@)
    }

    /// Alerts by email as they are configured.
    pub fn new(config: &EmailConfig) -> (client: Result<Self, ResendError>)
        ensures
            match client {
                Ok(client) => config.resend_api_key@.len() > 0 && client.key()
                    == config.resend_api_key@ && client.sender() == config.from_address@
                    && client.recipients() == views(config.to_addresses@),
                Err(error) => config.resend_api_key@.len() == 0 && error is MissingApiKey,
            },
    {
        match ResendClient::new(config.resend_api_key.as_str()) {
            Ok(resend) => Ok(
                EmailClient {
                    resend,
                    from_address: config.from_address.clone(),
                    to_addresses: dup_texts(&config.to_addresses),
                },
            ),
            Err(error) => Err(error),
        }
    }

    /// The mail service.
    pub fn resend(&self) -> (resend: &ResendClient)
        ensures
            resend.key() == self.key(),
    {
        &self.resend
    }

    /// An alert: plain text, from the sender to every recipient.
    pub fn alert(&self, subject: &str, body: &str) -> (email: ResendEmail)
        ensures
            email.from@ == self.sender(),
            views(email.to@) == self.recipients(),
            email.subject@ == subject@,
            email.body matches ResendBody::Text(text) && text@ == body@,
    {
        ResendEmail {
            from: self.from_address.clone(),
            to: dup_texts(&self.to_addresses),
            subject: subject.to_owned(),
            body: ResendBody::Text(body.to_owned()),
        }
    }
}

} // verus!
