//! Events for analytics.

use vstd::prelude::*;

use crate::json::{fields, no_members, put, put_text, Json, JsonView};

verus! {

/// Where events go by default.
pub const DEFAULT_POSTHOG_HOST: &'static str = "https://us.i.posthog.com";

/// Analytics, as a project's key opens them.
#[derive(Debug, Clone)]
pub struct PostHogClient {
    api_key: String,
    host: String,
}

/// A post to analytics.
#[derive(Debug)]
pub struct Capture {
    /// The address.
    pub url: String,
    /// The body.
    pub body: Json,
}

/// The body of a post to analytics.
pub open spec fn capture_json(
    api_key: Seq<char>,
    event: Seq<char>,
    distinct_id: Seq<char>,
    properties: JsonView,
) -> JsonView {
    JsonView::Object(
        fields().push(("api_key"@, JsonView::Text(api_key))).push(
            ("event"@, JsonView::Text(event)),
        ).push(("distinct_id"@, JsonView::Text(distinct_id))).push(("properties"@, properties)),
    )
}

impl PostHogClient {
    /// The project's key.
    pub closed spec fn key(&self) -> Seq<char> {
        self.api_key@
    }

    /// The host.
    pub closed spec fn address(&self) -> Seq<char> {
        self.host@
    }

    /// Analytics at the default host.
    pub fn new(api_key: &str) -> (client: Self)
        ensures
            client.key() == api_key@,
            client.address() == DEFAULT_POSTHOG_HOST@,
    {
        PostHogClient::with_host(api_key, DEFAULT_POSTHOG_HOST)
    }

    /// Analytics at a given host.
    pub fn with_host(api_key: &str, host: &str) -> (client: Self)
        ensures
            client.key() == api_key@,
            client.address() == host@,
    {
        PostHogClient { api_key: api_key.to_owned(), host: host.to_owned() }
    }

    /// The host.
    pub fn host(&self) -> (host: &str)
        ensures
            host@ == self.address(),
    {
        self.host.as_str()
    }

    /// The project's key.
    pub fn api_key(&self) -> (key: &str)
        ensures
            key@ == self.key(),
    {
        self.api_key.as_str()
    }

    /// The post that captures an event.
    pub fn capture(&self, distinct_id: &str, event: &str, properties: Json) -> (post: Capture)
        ensures
            post.url@ == self.address() + "/capture/"@,
            post.body@ == capture_json(self.key(), event@, distinct_id@, properties@),
    {
        let mut members = no_members();
        put_text(&mut members, "api_key", self.api_key.as_str());
        put_text(&mut members, "event", event);
        put_text(&mut members, "distinct_id", distinct_id);
        put(&mut members, "properties", properties);
        Capture { url: self.host.clone().concat("/capture/"), body: Json::object(members) }
    }
}

} // verus!
