//! What a readiness probe is answered.

use vstd::prelude::*;

use crate::json::{and_some, fields, no_members, put, put_text, Json, JsonView};
use crate::string_map::{inserted, map_json, text_members, Pair, StringMap};
use crate::text::same;

verus! {

/// The body of a health check.
#[derive(Debug)]
pub struct HealthResponse {
    /// `"ok"` or `"degraded"`.
    pub status: String,
    /// Service name.
    pub service: String,
    /// Service version.
    pub version: String,
    /// Further details.
    pub details: StringMap,
}

impl HealthResponse {
    /// The JSON that stands for it; details are left out when there are none.
    pub open spec fn wire(self) -> JsonView {
        let base = fields().push(("status"@, JsonView::Text(self.status@))).push(
            ("service"@, JsonView::Text(self.service@)),
        ).push(("version"@, JsonView::Text(self.version@)));
        JsonView::Object(
            and_some(
                base,
                "details"@,
                if self.details@.len() == 0 {
                    None
                } else {
                    Some(JsonView::Object(text_members(self.details@)))
                },
            ),
        )
    }

    /// A healthy service.
    pub fn ok(service: &str, version: &str) -> (response: Self)
        ensures
            response.status@ == "ok"@,
            response.service@ == service@,
            response.version@ == version@,
            response.details@ == Seq::<Pair>::empty(),
    {
        HealthResponse {
            status: "ok".to_owned(),
            service: service.to_owned(),
            version: version.to_owned(),
            details: StringMap::new(),
        }
    }

    /// A degraded service.
    pub fn degraded(service: &str, version: &str) -> (response: Self)
        ensures
            response.status@ == "degraded"@,
            response.service@ == service@,
            response.version@ == version@,
            response.details@ == Seq::<Pair>::empty(),
    {
        HealthResponse {
            status: "degraded".to_owned(),
            service: service.to_owned(),
            version: version.to_owned(),
            details: StringMap::new(),
        }
    }

    /// The same response with one more detail.
    pub fn with_detail(self, key: &str, value: &str) -> (response: Self)
        ensures
            response.status@ == self.status@,
            response.service@ == self.service@,
            response.version@ == self.version@,
            response.details@ == inserted(self.details@, key@, value@),
    {
        HealthResponse {
            status: self.status,
            service: self.service,
            version: self.version,
            details: self.details.with(key, value),
        }
    }

    /// The status code of the answer: 200 when the service is healthy, 503 otherwise.
    pub fn status_code(&self) -> (code: u16)
        ensures
            code == if self.status@ == "ok"@ {
                200u16
            } else {
                503u16
            },
    {
        if same(self.status.as_str(), "ok") { 200 } else { 503 }
    }

    /// The JSON that stands for it.
    pub fn to_json(&self) -> (json: Json)
        ensures
            json@ == self.wire(),
    {
        let mut members = no_members();
        put_text(&mut members, "status", self.status.as_str());
        put_text(&mut members, "service", self.service.as_str());
        put_text(&mut members, "version", self.version.as_str());
        if !self.details.is_empty() {
            put(&mut members, "details", map_json(&self.details));
        }
        Json::object(members)
    }
}

} // verus!
