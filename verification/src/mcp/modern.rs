//! The stateless protocol revision: every request carries its own metadata.
//!
//! A request that names a protocol version in `params._meta` is modern and must
//! carry the rest of that metadata too; one that names none is legacy.

use vstd::prelude::*;

use crate::decode::{field, field_view, view_of};
use crate::json::{
    and_some, fields, no_members, put, put_some_text, put_some_unsigned, put_text,
    some_text, some_unsigned, text_list, text_view, Json, JsonView,
};
use crate::mcp::capabilities::{is_record, is_text, text_of, ServerCapabilities};
pub mod meta_keys;
use crate::mcp::schema::ServerInfo;
use crate::text::views;

verus! {

/// The stateless protocol revision.
pub const PROTOCOL_VERSION_2026_07_28: &'static str = "2026-07-28";

/// Who the client of a modern request is.
#[derive(Debug, Clone)]
pub struct ModernClientInfo {
    /// Client name, machine-readable.
    pub name: String,
    /// Client version.
    pub version: String,
}

/// The metadata of a modern request.
#[derive(Debug)]
pub struct ModernRequestMeta {
    /// Protocol version of this request.
    pub protocol_version: String,
    /// Who the client is.
    pub client_info: ModernClientInfo,
    /// What the client says it can do, as it says it.
    pub client_capabilities: Json,
    /// Least log level the server should emit for this request.
    pub log_level: Option<String>,
}

/// What a request's parameters say of its era.
#[derive(Debug)]
pub enum ModernMeta {
    /// No protocol version is named: a legacy request.
    Legacy,
    /// A modern request.
    Modern(Box<ModernRequestMeta>),
    /// A modern request without a field it must have.
    Malformed(String),
}

/// The metadata of a modern request.
pub struct MetaView {
    /// Protocol version of this request.
    pub protocol_version: Seq<char>,
    /// Client name.
    pub client_name: Seq<char>,
    /// Client version.
    pub client_version: Seq<char>,
    /// What the client says it can do.
    pub client_capabilities: JsonView,
    /// Least log level.
    pub log_level: Option<Seq<char>>,
}

/// What a request's parameters say of its era.
pub enum EraView {
    /// A legacy request.
    Legacy,
    /// A modern request.
    Modern(MetaView),
    /// A modern request without a field it must have.
    Malformed(Seq<char>),
}

impl View for ModernRequestMeta {
    type V = MetaView;

    open spec fn view(&self) -> MetaView {
        MetaView {
            protocol_version: self.protocol_version@,
            client_name: self.client_info.name@,
            client_version: self.client_info.version@,
            client_capabilities: self.client_capabilities@,
            log_level: text_view(self.log_level),
        }
    }
}

impl View for ModernMeta {
    type V = EraView;

    open spec fn view(&self) -> EraView {
        match *self {
            ModernMeta::Legacy => EraView::Legacy,
            ModernMeta::Modern(meta) => EraView::Modern((*meta)@),
            ModernMeta::Malformed(reason) => EraView::Malformed(reason@),
        }
    }
}

/// A member of an optional document.
pub open spec fn member_of(json: Option<JsonView>, key: Seq<char>) -> Option<JsonView> {
    match json {
        Some(json) => json.member(key),
        None => None,
    }
}

/// Whether a document names a client: a name and a version, both strings.
pub open spec fn names_client(json: JsonView) -> bool {
    is_record(json, 2, 2) && is_text(field_view(json, "name"@, 0)) && is_text(
        field_view(json, "version"@, 1),
    )
}

/// What a request's parameters say of its era. A request that names a protocol version is
/// modern; it must then say who the client is and what the client can do, and is malformed
/// when it says neither or only one: who the client is, is not optional here.
pub open spec fn era_of(params: Option<JsonView>) -> EraView {
    match member_of(params, "_meta"@) {
        None => EraView::Legacy,
        Some(meta) => match meta.member(meta_keys::PROTOCOL_VERSION@) {
            Some(JsonView::Text(protocol_version)) => {
                match meta.member(meta_keys::CLIENT_INFO@) {
                    Some(info) if names_client(info) => {
                        match meta.member(meta_keys::CLIENT_CAPABILITIES@) {
                            Some(client_capabilities) => EraView::Modern(
                                MetaView {
                                    protocol_version,
                                    client_name: text_of(field_view(info, "name"@, 0)),
                                    client_version: text_of(field_view(info, "version"@, 1)),
                                    client_capabilities,
                                    log_level: match meta.member(
                                        meta_keys::LOG_LEVEL@,
                                    ) {
                                        Some(level) => level.text(),
                                        None => None,
                                    },
                                },
                            ),
                            None => EraView::Malformed(
                                "missing required _meta field '"@
                                    + meta_keys::CLIENT_CAPABILITIES@ + "'"@,
                            ),
                        }
                    },
                    _ => EraView::Malformed(
                        "missing or invalid required _meta field '"@
                            + meta_keys::CLIENT_INFO@ + "'"@,
                    ),
                }
            },
            _ => EraView::Legacy,
        },
    }
}

impl ModernClientInfo {
    /// Reads who the client of a modern request is.
    pub fn from_json(json: &Json) -> (info: Option<Self>)
        ensures
            match info {
                Some(info) => names_client(json@) && info.name@ == text_of(
                    field_view(json@, "name"@, 0),
                ) && info.version@ == text_of(field_view(json@, "version"@, 1)),
                None => !names_client(json@),
            },
    {
        let shaped = match json {
            Json::Object(_) => true,
            Json::Array(items) => items.len() == 2,
            _ => false,
        };
        if !shaped {
            return None;
        }
        match (field(json, "name", 0), field(json, "version", 1)) {
            (Some(name), Some(version)) => match (name, version) {
                (Json::Text(name), Json::Text(version)) => Some(
                    ModernClientInfo { name: name.clone(), version: version.clone() },
                ),
                _ => None,
            },
            _ => None,
        }
    }
}

impl ModernRequestMeta {
    /// Tells the era of a request from its parameters, and reads its metadata.
    pub fn from_params(params: Option<&Json>) -> (meta: ModernMeta)
        ensures
            meta@ == era_of(view_of(params)),
    {
        let meta = match params {
            Some(params) => match params.get("_meta") {
                Some(meta) => meta,
                None => {
                    return ModernMeta::Legacy;
                },
            },
            None => {
                return ModernMeta::Legacy;
            },
        };
        let protocol_version = match meta.get(meta_keys::PROTOCOL_VERSION) {
            Some(version) => match version {
                Json::Text(version) => version.clone(),
                _ => {
                    return ModernMeta::Legacy;
                },
            },
            None => {
                return ModernMeta::Legacy;
            },
        };
        let client_info = match meta.get(meta_keys::CLIENT_INFO) {
            Some(info) => ModernClientInfo::from_json(info),
            None => None,
        };
        let client_info = match client_info {
            Some(info) => info,
            None => {
                return ModernMeta::Malformed(
                    "missing or invalid required _meta field '".to_owned().concat(
                        meta_keys::CLIENT_INFO,
                    ).concat("'"),
                );
            },
        };
        let client_capabilities = match meta.get(meta_keys::CLIENT_CAPABILITIES) {
            Some(able) => able.dup(),
            None => {
                return ModernMeta::Malformed(
                    "missing required _meta field '".to_owned().concat(
                        meta_keys::CLIENT_CAPABILITIES,
                    ).concat("'"),
                );
            },
        };
        let log_level = match meta.get(meta_keys::LOG_LEVEL) {
            Some(level) => match level {
                Json::Text(level) => Some(level.clone()),
                _ => None,
            },
            None => None,
        };
        ModernMeta::Modern(
            Box::new(
                ModernRequestMeta { protocol_version, client_info, client_capabilities, log_level },
            ),
        )
    }
}

/// A request is legacy exactly when its parameters name no protocol version.
pub proof fn era_is_told_by_the_protocol_version(params: Option<JsonView>)
    ensures
        era_of(params) is Legacy <==> !(member_of(
            member_of(params, "_meta"@),
            meta_keys::PROTOCOL_VERSION@,
        ) matches Some(JsonView::Text(_))),
{
}

// ---------------------------------------------------------------------------
// Discovery
// ---------------------------------------------------------------------------

/// The answer to `server/discover`.
#[derive(Debug)]
pub struct DiscoverResult {
    /// Always `"complete"`.
    pub result_type: String,
    /// Protocol versions the server speaks, the preferred first.
    pub supported_versions: Vec<String>,
    /// What the server can do.
    pub capabilities: ServerCapabilities,
    /// Who the server is.
    pub server_info: ServerInfo,
    /// Instructions for the client.
    pub instructions: Option<String>,
    /// How long the answer stays fresh, in milliseconds.
    pub ttl_ms: Option<u64>,
    /// Whether shared caches may keep the answer.
    pub cache_scope: Option<String>,
}

/// The JSON of an answer to `server/discover`.
pub open spec fn discover_json(
    result_type: Seq<char>,
    supported_versions: JsonView,
    capabilities: JsonView,
    server_info: JsonView,
    instructions: Option<Seq<char>>,
    ttl_ms: Option<u64>,
    cache_scope: Option<Seq<char>>,
) -> JsonView {
    let base = fields().push(("resultType"@, JsonView::Text(result_type))).push(
        ("supportedVersions"@, supported_versions),
    ).push(("capabilities"@, capabilities)).push(("serverInfo"@, server_info));
    JsonView::Object(
        and_some(
            and_some(
                and_some(base, "instructions"@, some_text(instructions)),
                "ttlMs"@,
                some_unsigned(ttl_ms),
            ),
            "cacheScope"@,
            some_text(cache_scope),
        ),
    )
}

impl DiscoverResult {
    /// The JSON that stands for it.
    pub open spec fn wire(self) -> JsonView {
        discover_json(
            self.result_type@,
            text_list(views(self.supported_versions@)),
            self.capabilities.wire(),
            self.server_info.wire(),
            text_view(self.instructions),
            self.ttl_ms,
            text_view(self.cache_scope),
        )
    }

    /// An answer that may be cached by anyone for an hour.
    pub fn new(
        supported_versions: Vec<String>,
        capabilities: ServerCapabilities,
        server_info: ServerInfo,
        instructions: Option<String>,
    ) -> (result: Self)
        ensures
            result.wire() == discover_json(
                "complete"@,
                text_list(views(supported_versions@)),
                capabilities.wire(),
                server_info.wire(),
                text_view(instructions),
                Some(3_600_000),
                Some("public"@),
            ),
    {
        DiscoverResult {
            result_type: "complete".to_owned(),
            supported_versions,
            capabilities,
            server_info,
            instructions,
            ttl_ms: Some(3_600_000),
            cache_scope: Some("public".to_owned()),
        }
    }

    /// The JSON that stands for it.
    pub fn to_json(&self) -> (json: Json)
        ensures
            json@ == self.wire(),
    {
        let mut members = no_members();
        put_text(&mut members, "resultType", self.result_type.as_str());
        put(&mut members, "supportedVersions", Json::texts(&self.supported_versions));
        put(&mut members, "capabilities", self.capabilities.to_json());
        put(&mut members, "serverInfo", self.server_info.to_json());
        put_some_text(&mut members, "instructions", &self.instructions);
        put_some_unsigned(&mut members, "ttlMs", self.ttl_ms);
        put_some_text(&mut members, "cacheScope", &self.cache_scope);
        Json::object(members)
    }
}

} // verus!
