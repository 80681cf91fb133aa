//! Alerts: what is sent to Slack, by email and to analytics, and when.

pub mod config;
pub mod delivery_laws;
pub mod email;
pub mod error_layer;
pub mod laws;
pub mod posthog;
pub mod resend;
pub mod slack;

pub use config::{EmailConfig, NotificationConfig, SlackConfig};
pub use email::EmailClient;
pub use posthog::PostHogClient;
pub use resend::{ResendBody, ResendClient, ResendEmail, ResendError};
pub use slack::{SignatureError, SlackClient, SlackResult};
