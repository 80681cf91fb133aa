//! Where rules come from.

use vstd::prelude::*;

use crate::json::Json;
use crate::keyed::{value_of, with_value, Keyed};
use crate::notifications::posthog::{capture_json, Capture, PostHogClient};
use crate::notify::rule::{RoutingRule, RuleView};

verus! {

/// What an optional rule is.
pub open spec fn rule_view(rule: Option<RoutingRule>) -> Option<RuleView> {
    match rule {
        Some(rule) => Some(rule@),
        None => None,
    }
}

/// Where rules come from. A host whose rules change while it runs implements this.
pub trait RoutingProvider {
    /// Whether the answer to a question for the rule of an event can be this one. Rules that
    /// change leave more than one answer open.
    spec fn may_route(&self, event: Seq<char>, rule: Option<RuleView>) -> bool;

    /// The rule for the events of a name, as it is now.
    fn route_for(&self, event: &str) -> (rule: Option<RoutingRule>)
        ensures
            self.may_route(event@, rule_view(rule)),
    ;
}

/// Rules that do not change.
#[derive(Debug, Clone)]
pub struct StaticRoutingProvider {
    rules: Keyed<RoutingRule>,
}

impl StaticRoutingProvider {
    /// The rules, by the names of their events.
    pub closed spec fn table(&self) -> Seq<(Seq<char>, RoutingRule)> {
        self.rules@
    }

    /// No rules.
    pub fn new() -> (provider: Self)
        ensures
            provider.table() == Seq::<(Seq<char>, RoutingRule)>::empty(),
    {
        StaticRoutingProvider { rules: Keyed::new() }
    }

    /// The same rules and one more, in place of the one for the events of its name.
    pub fn with_rule(self, event: &str, rule: RoutingRule) -> (provider: Self)
        ensures
            provider.table() == with_value(self.table(), event@, rule),
    {
        let mut rules = self.rules;
        rules.put(event, rule);
        StaticRoutingProvider { rules }
    }

    /// The number of rules.
    pub fn len(&self) -> (n: usize)
        ensures
            n == self.table().len(),
    {
        self.rules.len()
    }

    /// Whether there is no rule.
    pub fn is_empty(&self) -> (empty: bool)
        ensures
            empty == (self.table().len() == 0),
    {
        self.rules.len() == 0
    }
}

impl Default for StaticRoutingProvider {
    fn default() -> (provider: Self)
        ensures
            provider.table() == Seq::<(Seq<char>, RoutingRule)>::empty(),
    {
        StaticRoutingProvider::new()
    }
}

impl RoutingProvider for StaticRoutingProvider {
    open spec fn may_route(&self, event: Seq<char>, rule: Option<RuleView>) -> bool {
        rule == rule_view(value_of(self.table(), event))
    }

    fn route_for(&self, event: &str) -> (rule: Option<RoutingRule>) {
        match self.rules.get(event) {
            Some(rule) => Some(rule.dup()),
            None => None,
        }
    }
}

/// What analytics are told of an event.
#[derive(Debug)]
pub struct AnalyticsCapture {
    /// Whom the event is about.
    pub distinct_id: String,
    /// What is told.
    pub properties: Json,
}

/// The post that tells analytics of an event: none without analytics, and none when the host
/// withholds the event.
pub fn capture_analytics(
    posthog: Option<&PostHogClient>,
    event_name: &str,
    capture: Option<AnalyticsCapture>,
) -> (post: Option<Capture>)
    ensures
        match (posthog, capture) {
            (Some(posthog), Some(capture)) => post matches Some(post) && post.url@
                == posthog.address() + "/capture/"@ && post.body@ == capture_json(
                posthog.key(),
                event_name@,
                capture.distinct_id@,
                capture.properties@,
            ),
            _ => post is None,
        },
{
    match (posthog, capture) {
        (Some(posthog), Some(capture)) => Some(
            posthog.capture(capture.distinct_id.as_str(), event_name, capture.properties),
        ),
        _ => None,
    }
}

} // verus!
