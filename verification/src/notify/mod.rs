//! Notifications of events: where each goes, how often, and in which words.

pub mod format;
pub mod laws;
pub mod layer;
pub mod provider;
pub mod rule;
pub mod state;
pub mod visit;

pub use crate::notify_target::NOTIFY_TARGET;
pub use layer::{NotifyLayer, NotifyLayerBuilder};
pub use provider::{AnalyticsCapture, RoutingProvider, StaticRoutingProvider};
pub use rule::{BatchRule, DedupRule, RoutingRule, SampleRate};
