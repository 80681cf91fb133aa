//! How an event is routed.

use vstd::prelude::*;

use crate::clock::Duration;
use crate::text::{dup_texts, is_among, views};

verus! {

/// Which share of the events of a kind goes out.
#[derive(Debug, Clone, Copy, PartialEq, Eq, Structural)]
pub enum SampleRate {
    /// Every one.
    Every,
    /// None.
    Never,
    /// Those whose draw, a number of 32 bits, is below this one.
    Below(u64),
}

/// How the events of a kind are routed.
#[derive(Debug, Clone)]
pub struct RoutingRule {
    /// Slack channel that they are posted to.
    pub channel: String,
    /// Whether they are routed at all.
    pub enabled: bool,
    /// How repeats are dropped.
    pub dedup: Option<DedupRule>,
    /// How they are gathered into one message.
    pub batch: Option<BatchRule>,
    /// Which share of them goes out.
    pub sample_rate: SampleRate,
    /// The environments in which they are routed; all of them when absent.
    pub enabled_envs: Option<Vec<String>>,
}

/// How repeats are dropped.
#[derive(Debug, Clone)]
pub struct DedupRule {
    /// The fields by which an event is the repeat of another.
    pub keys: Vec<String>,
    /// For how long a repeat is dropped.
    pub window: Duration,
}

/// How events are gathered into one message.
#[derive(Debug, Clone, Copy, PartialEq, Eq, Structural)]
pub struct BatchRule {
    /// For how long they are gathered.
    pub interval: Duration,
}

/// How the events of a kind are routed.
pub struct RuleView {
    /// Slack channel.
    pub channel: Seq<char>,
    /// Whether they are routed at all.
    pub enabled: bool,
    /// The fields of a repeat, and for how long it is dropped.
    pub dedup: Option<(Seq<Seq<char>>, nat)>,
    /// For how long they are gathered.
    pub batch: Option<nat>,
    /// Which share of them goes out.
    pub sample_rate: SampleRate,
    /// The environments in which they are routed.
    pub envs: Option<Seq<Seq<char>>>,
}

impl View for RoutingRule {
    type V = RuleView;

    open spec fn view(&self) -> RuleView {
        RuleView {
            channel: self.channel@,
            enabled: self.enabled,
            dedup: match self.dedup {
                Some(dedup) => Some((views(dedup.keys@), dedup.window@)),
                None => None,
            },
            batch: match self.batch {
                Some(batch) => Some(batch.interval@),
                None => None,
            },
            sample_rate: self.sample_rate,
            envs: match self.enabled_envs {
                Some(envs) => Some(views(envs@)),
                None => None,
            },
        }
    }
}

/// The rule that sends everything to a channel.
pub open spec fn plain_rule(channel: Seq<char>) -> RuleView {
    RuleView {
        channel,
        enabled: true,
        dedup: None,
        batch: None,
        sample_rate: SampleRate::Every,
        envs: None,
    }
}

impl RuleView {
    /// Whether events are routed in an environment.
    pub open spec fn allows(self, env: Seq<char>) -> bool {
        match self.envs {
            Some(envs) => envs.contains(env),
            None => true,
        }
    }
}

impl RoutingRule {
    /// The rule that sends everything to a channel.
    pub fn to_channel(channel: &str) -> (rule: Self)
        ensures
            rule@ == plain_rule(channel@),
    {
        RoutingRule {
            channel: channel.to_owned(),
            enabled: true,
            dedup: None,
            batch: None,
            sample_rate: SampleRate::Every,
            enabled_envs: None,
        }
    }

    /// Whether events are routed in an environment.
    pub fn allows_env(&self, env: &str) -> (allowed: bool)
        ensures
            allowed == self@.allows(env@),
    {
        match &self.enabled_envs {
            Some(envs) => is_among(env, envs.as_slice()),
            None => true,
        }
    }

    /// A copy of the rule.
    pub fn dup(&self) -> (copy: Self)
        ensures
            copy@ == self@,
    {
        RoutingRule {
            channel: self.channel.clone(),
            enabled: self.enabled,
            dedup: match &self.dedup {
                Some(dedup) => Some(
                    DedupRule { keys: dup_texts(&dedup.keys), window: dedup.window },
                ),
                None => None,
            },
            batch: self.batch,
            sample_rate: self.sample_rate,
            enabled_envs: match &self.enabled_envs {
                Some(envs) => Some(dup_texts(envs)),
                None => None,
            },
        }
    }
}

} // verus!
