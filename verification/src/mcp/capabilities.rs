//! What a server and a client can do, and the handshake that says so.

use vstd::prelude::*;

use crate::decode::{field, field_view, view_of};
use crate::json::{
    and_some, dup_members, fields, member_views, no_members, option_view, put, put_some, put_some_bool,
    put_some_object, put_some_text, put_text, some_bool, some_object, some_text, text_view, Json,
    JsonView, Member,
};
use crate::mcp::protocol::optional;
use crate::mcp::schema::ServerInfo;

verus! {

/// A capability that says nothing but that it is there.
pub open spec fn bare() -> JsonView {
    JsonView::Object(fields())
}

/// Tool support.
#[derive(Debug, Clone, Copy)]
pub struct ToolsCapability {
    /// Whether changes of the tool list are announced.
    pub list_changed: Option<bool>,
}

/// Logging support.
#[derive(Debug, Clone, Copy)]
pub struct LoggingCapability {}

/// Prompt support.
#[derive(Debug, Clone, Copy)]
pub struct PromptsCapability {
    /// Whether changes of the prompt list are announced.
    pub list_changed: Option<bool>,
}

/// Resource support.
#[derive(Debug, Clone, Copy)]
pub struct ResourcesCapability {
    /// Whether resources can be subscribed to.
    pub subscribe: Option<bool>,
    /// Whether changes of the resource list are announced.
    pub list_changed: Option<bool>,
}

/// Authentication support.
#[derive(Debug, Clone)]
pub struct AuthCapability {
    /// OAuth 2.0 details.
    pub oauth2: Option<OAuth2Capability>,
}

/// OAuth 2.0 support.
#[derive(Debug, Clone)]
pub struct OAuth2Capability {
    /// Discovery URL.
    pub discovery_url: String,
    /// Authorization endpoint.
    pub authorization_endpoint: String,
    /// Token endpoint.
    pub token_endpoint: String,
    /// Client registration endpoint.
    pub registration_endpoint: String,
}

/// Completion support.
#[derive(Debug, Clone, Copy)]
pub struct CompletionCapability {}

/// Sampling support.
#[derive(Debug, Clone, Copy)]
pub struct SamplingCapability {}

/// Roots support.
#[derive(Debug, Clone, Copy)]
pub struct RootsCapability {
    /// Whether changes of the roots are announced.
    pub list_changed: Option<bool>,
}

/// What a server can do.
#[derive(Debug)]
pub struct ServerCapabilities {
    /// Unspecified capabilities.
    pub experimental: Option<Vec<Member>>,
    /// Logging.
    pub logging: Option<LoggingCapability>,
    /// Prompts.
    pub prompts: Option<PromptsCapability>,
    /// Resources.
    pub resources: Option<ResourcesCapability>,
    /// Tools.
    pub tools: Option<ToolsCapability>,
    /// Authentication.
    pub auth: Option<AuthCapability>,
    /// OAuth 2.0.
    pub oauth2: Option<OAuth2Capability>,
    /// Completion.
    pub completion: Option<CompletionCapability>,
    /// Sampling.
    pub sampling: Option<SamplingCapability>,
    /// Specified extensions, by their reverse-DNS identifier.
    pub extensions: Option<Vec<Member>>,
}

/// A capability whose one member says whether changes are announced.
pub open spec fn list_changed_json(list_changed: Option<bool>) -> JsonView {
    JsonView::Object(and_some(fields(), "listChanged"@, some_bool(list_changed)))
}

fn list_changed_to_json(list_changed: Option<bool>) -> (json: Json)
    ensures
        json@ == list_changed_json(list_changed),
{
    let mut members = no_members();
    put_some_bool(&mut members, "listChanged", list_changed);
    Json::object(members)
}

impl ResourcesCapability {
    /// The JSON that stands for it.
    pub open spec fn wire(self) -> JsonView {
        JsonView::Object(
            and_some(
                and_some(fields(), "subscribe"@, some_bool(self.subscribe)),
                "listChanged"@,
                some_bool(self.list_changed),
            ),
        )
    }

    /// The JSON that stands for it.
    pub fn to_json(&self) -> (json: Json)
        ensures
            json@ == self.wire(),
    {
        let mut members = no_members();
        put_some_bool(&mut members, "subscribe", self.subscribe);
        put_some_bool(&mut members, "listChanged", self.list_changed);
        Json::object(members)
    }
}

impl OAuth2Capability {
    /// The JSON that stands for it.
    pub open spec fn wire(self) -> JsonView {
        JsonView::Object(
            fields().push(("discoveryUrl"@, JsonView::Text(self.discovery_url@))).push(
                ("authorizationEndpoint"@, JsonView::Text(self.authorization_endpoint@)),
            ).push(("tokenEndpoint"@, JsonView::Text(self.token_endpoint@))).push(
                ("registrationEndpoint"@, JsonView::Text(self.registration_endpoint@)),
            ),
        )
    }

    /// The JSON that stands for it.
    pub fn to_json(&self) -> (json: Json)
        ensures
            json@ == self.wire(),
    {
        let mut members = no_members();
        put_text(&mut members, "discoveryUrl", self.discovery_url.as_str());
        put_text(&mut members, "authorizationEndpoint", self.authorization_endpoint.as_str());
        put_text(&mut members, "tokenEndpoint", self.token_endpoint.as_str());
        put_text(&mut members, "registrationEndpoint", self.registration_endpoint.as_str());
        Json::object(members)
    }

    /// A copy that stands for the same JSON.
    pub fn dup(&self) -> (copy: Self)
        ensures
            copy.wire() == self.wire(),
    {
        OAuth2Capability {
            discovery_url: self.discovery_url.clone(),
            authorization_endpoint: self.authorization_endpoint.clone(),
            token_endpoint: self.token_endpoint.clone(),
            registration_endpoint: self.registration_endpoint.clone(),
        }
    }
}

/// OAuth 2.0 details as JSON, where there are some.
pub open spec fn some_oauth2(oauth2: Option<OAuth2Capability>) -> Option<JsonView> {
    match oauth2 {
        Some(oauth2) => Some(oauth2.wire()),
        None => None,
    }
}

fn oauth2_json(oauth2: &Option<OAuth2Capability>) -> (json: Option<Json>)
    ensures
        option_view(json) == some_oauth2(*oauth2),
{
    match oauth2 {
        Some(oauth2) => Some(oauth2.to_json()),
        None => None,
    }
}

fn dup_oauth2(oauth2: &Option<OAuth2Capability>) -> (copy: Option<OAuth2Capability>)
    ensures
        some_oauth2(copy) == some_oauth2(*oauth2),
{
    match oauth2 {
        Some(oauth2) => Some(oauth2.dup()),
        None => None,
    }
}

impl AuthCapability {
    /// The JSON that stands for it.
    pub open spec fn wire(self) -> JsonView {
        JsonView::Object(and_some(fields(), "oauth2"@, some_oauth2(self.oauth2)))
    }

    /// The JSON that stands for it.
    pub fn to_json(&self) -> (json: Json)
        ensures
            json@ == self.wire(),
    {
        let mut members = no_members();
        put_some(&mut members, "oauth2", oauth2_json(&self.oauth2));
        Json::object(members)
    }
}

/// A copy of the members of an optional object.
pub fn dup_object(members: &Option<Vec<Member>>) -> (copy: Option<Vec<Member>>)
    ensures
        some_object(copy) == some_object(*members),
{
    match members {
        Some(members) => Some(dup_members(members)),
        None => None,
    }
}

impl ServerCapabilities {
    /// The JSON that stands for all but the extensions.
    pub open spec fn base_wire(self) -> Seq<(Seq<char>, JsonView)> {
        let a = and_some(fields(), "experimental"@, some_object(self.experimental));
        let b = and_some(a, "logging"@, if self.logging is Some { Some(bare()) } else { None });
        let c = and_some(
            b,
            "prompts"@,
            match self.prompts {
                Some(prompts) => Some(list_changed_json(prompts.list_changed)),
                None => None,
            },
        );
        let d = and_some(
            c,
            "resources"@,
            match self.resources {
                Some(resources) => Some(resources.wire()),
                None => None,
            },
        );
        let e = and_some(
            d,
            "tools"@,
            match self.tools {
                Some(tools) => Some(list_changed_json(tools.list_changed)),
                None => None,
            },
        );
        let f = and_some(
            e,
            "auth"@,
            match self.auth {
                Some(auth) => Some(auth.wire()),
                None => None,
            },
        );
        let g = and_some(f, "oauth2"@, some_oauth2(self.oauth2));
        let h = and_some(g, "completion"@, if self.completion is Some { Some(bare()) } else { None });
        and_some(h, "sampling"@, if self.sampling is Some { Some(bare()) } else { None })
    }

    /// The JSON that stands for it.
    pub open spec fn wire(self) -> JsonView {
        JsonView::Object(and_some(self.base_wire(), "extensions"@, some_object(self.extensions)))
    }

    /// No capability at all.
    pub fn none() -> (capabilities: Self)
        ensures
            capabilities.wire() == bare(),
            capabilities.extensions is None,
            capabilities.base_wire() == fields(),
    {
        ServerCapabilities {
            experimental: None,
            logging: None,
            prompts: None,
            resources: None,
            tools: None,
            auth: None,
            oauth2: None,
            completion: None,
            sampling: None,
            extensions: None,
        }
    }

    /// Tool support only, without announcements.
    pub fn tools_only() -> (capabilities: Self)
        ensures
            capabilities.wire() == JsonView::Object(
                fields().push(("tools"@, list_changed_json(Some(false)))),
            ),
            capabilities.extensions is None,
    {
        ServerCapabilities {
            experimental: None,
            logging: None,
            prompts: None,
            resources: None,
            tools: Some(ToolsCapability { list_changed: Some(false) }),
            auth: None,
            oauth2: None,
            completion: None,
            sampling: None,
            extensions: None,
        }
    }

    /// A copy that stands for the same JSON.
    pub fn dup(&self) -> (copy: Self)
        ensures
            copy.wire() == self.wire(),
            copy.base_wire() == self.base_wire(),
            some_object(copy.extensions) == some_object(self.extensions),
    {
        ServerCapabilities {
            experimental: dup_object(&self.experimental),
            logging: self.logging,
            prompts: self.prompts,
            resources: self.resources,
            tools: self.tools,
            auth: match &self.auth {
                Some(auth) => Some(AuthCapability { oauth2: dup_oauth2(&auth.oauth2) }),
                None => None,
            },
            oauth2: dup_oauth2(&self.oauth2),
            completion: self.completion,
            sampling: self.sampling,
            extensions: dup_object(&self.extensions),
        }
    }

    /// The JSON that stands for it.
    pub fn to_json(&self) -> (json: Json)
        ensures
            json@ == self.wire(),
    {
        let mut members = no_members();
        put_some_object(&mut members, "experimental", &self.experimental);
        if self.logging.is_some() {
            put(&mut members, "logging", Json::object(no_members()));
        }
        match &self.prompts {
            Some(prompts) => put(&mut members, "prompts", list_changed_to_json(prompts.list_changed)),
            None => {},
        }
        match &self.resources {
            Some(resources) => put(&mut members, "resources", resources.to_json()),
            None => {},
        }
        match &self.tools {
            Some(tools) => put(&mut members, "tools", list_changed_to_json(tools.list_changed)),
            None => {},
        }
        match &self.auth {
            Some(auth) => put(&mut members, "auth", auth.to_json()),
            None => {},
        }
        put_some(&mut members, "oauth2", oauth2_json(&self.oauth2));
        if self.completion.is_some() {
            put(&mut members, "completion", Json::object(no_members()));
        }
        if self.sampling.is_some() {
            put(&mut members, "sampling", Json::object(no_members()));
        }
        put_some_object(&mut members, "extensions", &self.extensions);
        Json::object(members)
    }
}

impl Default for ServerCapabilities {
    fn default() -> (capabilities: Self)
        ensures
            capabilities.wire() == bare(),
    {
        ServerCapabilities::none()
    }
}

// ---------------------------------------------------------------------------
// The handshake
// ---------------------------------------------------------------------------

/// Who a client is.
#[derive(Debug, Clone)]
pub struct ClientInfo {
    /// Client name, machine-readable.
    pub name: String,
    /// Client version.
    pub version: String,
    /// Display title.
    pub title: Option<String>,
    /// Description.
    pub description: Option<String>,
    /// Website.
    pub website_url: Option<String>,
}

/// What a client can do.
#[derive(Debug)]
pub struct ClientCapabilities {
    /// Unspecified capabilities.
    pub experimental: Option<Vec<Member>>,
    /// Sampling.
    pub sampling: Option<SamplingCapability>,
    /// Roots.
    pub roots: Option<RootsCapability>,
}

/// A client's `initialize` request.
#[derive(Debug)]
pub struct InitializeRequest {
    /// The protocol version asked for.
    pub protocol_version: String,
    /// Who the client is.
    pub client_info: ClientInfo,
    /// What the client can do.
    pub capabilities: ClientCapabilities,
    /// OAuth application credentials of the client's own.
    pub oauth_credentials: Option<Vec<Member>>,
}

/// Whether a document has the shape of a record of `size` fields, of which an array
/// may not leave out the first `needed`.
pub open spec fn is_record(json: JsonView, needed: nat, size: nat) -> bool {
    match json {
        JsonView::Object(_) => true,
        JsonView::Array(items) => needed <= items.len() <= size,
        _ => false,
    }
}

pub(crate) fn check_record(json: &Json, needed: usize, size: usize) -> (ok: bool)
    ensures
        ok == is_record(json@, needed as nat, size as nat),
{
    match json {
        Json::Object(_) => true,
        Json::Array(items) => needed <= items.len() && items.len() <= size,
        _ => false,
    }
}

/// Whether an optional field is absent, `null`, or a string.
pub open spec fn is_optional_text(member: Option<JsonView>) -> bool {
    match member {
        None => true,
        Some(JsonView::Null) => true,
        Some(JsonView::Text(_)) => true,
        _ => false,
    }
}

/// Whether an optional field is absent, `null`, or an object.
pub open spec fn is_optional_map(member: Option<JsonView>) -> bool {
    match member {
        None => true,
        Some(JsonView::Null) => true,
        Some(JsonView::Object(_)) => true,
        _ => false,
    }
}

/// The optional text of a field that is one.
pub open spec fn optional_text(member: Option<JsonView>) -> Option<Seq<char>> {
    match member {
        Some(JsonView::Text(s)) => Some(s),
        _ => None,
    }
}

/// Whether a field is there and a string.
pub open spec fn is_text(member: Option<JsonView>) -> bool {
    member matches Some(JsonView::Text(_))
}

/// Whether a document says who a client is.
pub open spec fn is_client_info(json: JsonView) -> bool {
    &&& is_record(json, 2, 5)
    &&& is_text(field_view(json, "name"@, 0))
    &&& is_text(field_view(json, "version"@, 1))
    &&& is_optional_text(field_view(json, "title"@, 2))
    &&& is_optional_text(field_view(json, "description"@, 3))
    &&& is_optional_text(field_view(json, "websiteUrl"@, 4))
}

/// Whether an optional field is absent, `null`, or a truth value.
pub open spec fn is_optional_bool(member: Option<JsonView>) -> bool {
    match member {
        None => true,
        Some(JsonView::Null) => true,
        Some(JsonView::Bool(_)) => true,
        _ => false,
    }
}

/// The optional truth value of a field that is one.
pub open spec fn optional_bool(member: Option<JsonView>) -> Option<bool> {
    match member {
        Some(JsonView::Bool(b)) => Some(b),
        _ => None,
    }
}

/// Whether an optional field is absent, `null`, or a capability without members.
pub open spec fn is_optional_bare(member: Option<JsonView>) -> bool {
    match member {
        None => true,
        Some(JsonView::Null) => true,
        Some(json) => is_record(json, 0, 0),
    }
}

/// Whether an optional field is absent, `null`, or a roots capability.
pub open spec fn is_optional_roots(member: Option<JsonView>) -> bool {
    match member {
        None => true,
        Some(JsonView::Null) => true,
        Some(json) => is_record(json, 1, 1) && is_optional_bool(field_view(json, "listChanged"@, 0)),
    }
}

/// Whether a document says what a client can do.
pub open spec fn is_client_capabilities(json: JsonView) -> bool {
    &&& is_record(json, 3, 3)
    &&& is_optional_map(field_view(json, "experimental"@, 0))
    &&& is_optional_bare(field_view(json, "sampling"@, 1))
    &&& is_optional_roots(field_view(json, "roots"@, 2))
}

/// Whether a document is an `initialize` request.
pub open spec fn is_initialize_request(json: JsonView) -> bool {
    &&& is_record(json, 3, 4)
    &&& is_text(field_view(json, "protocolVersion"@, 0))
    &&& field_view(json, "clientInfo"@, 1) matches Some(info) && is_client_info(info)
    &&& field_view(json, "capabilities"@, 2) matches Some(able) && is_client_capabilities(able)
    &&& is_optional_map(field_view(json, "oauthCredentials"@, 3))
}

/// The text of a field that is a string.
pub open spec fn text_of(member: Option<JsonView>) -> Seq<char> {
    match member {
        Some(JsonView::Text(s)) => s,
        _ => Seq::empty(),
    }
}

pub(crate) fn read_text(member: Option<&Json>) -> (text: Option<String>)
    ensures
        match text {
            Some(text) => is_text(view_of(member)) && text@ == text_of(
                view_of(member),
            ),
            None => !is_text(view_of(member)),
        },
{
    match member {
        Some(json) => match json {
            Json::Text(s) => Some(s.clone()),
            _ => None,
        },
        None => None,
    }
}

pub(crate) fn read_optional_text(member: Option<&Json>) -> (text: Option<Option<String>>)
    ensures
        match text {
            Some(text) => is_optional_text(view_of(member)) && text_view(text)
                == optional_text(view_of(member)),
            None => !is_optional_text(view_of(member)),
        },
{
    match member {
        None => Some(None),
        Some(json) => match json {
            Json::Null => Some(None),
            Json::Text(s) => Some(Some(s.clone())),
            _ => None,
        },
    }
}

/// The optional object of a field that is one.
pub open spec fn optional_map(member: Option<JsonView>) -> Option<JsonView> {
    match member {
        Some(JsonView::Object(members)) => Some(JsonView::Object(members)),
        _ => None,
    }
}

pub(crate) fn read_optional_map(member: Option<&Json>) -> (map: Option<Option<Vec<Member>>>)
    ensures
        match map {
            Some(map) => is_optional_map(view_of(member)) && some_object(map)
                == optional_map(view_of(member)),
            None => !is_optional_map(view_of(member)),
        },
{
    match member {
        None => Some(None),
        Some(json) => match json {
            Json::Null => Some(None),
            Json::Object(members) => {
                assert(json@->Object_0 =~= member_views(members@));
                Some(Some(dup_members(members)))
            },
            _ => None,
        },
    }
}

impl ClientInfo {
    /// Whether it is what a document says.
    pub open spec fn as_said(self, json: JsonView) -> bool {
        &&& self.name@ == text_of(field_view(json, "name"@, 0))
        &&& self.version@ == text_of(field_view(json, "version"@, 1))
        &&& text_view(self.title) == optional_text(field_view(json, "title"@, 2))
        &&& text_view(self.description) == optional_text(field_view(json, "description"@, 3))
        &&& text_view(self.website_url) == optional_text(field_view(json, "websiteUrl"@, 4))
    }

    /// Reads who a client is.
    pub fn from_json(json: &Json) -> (info: Option<Self>)
        ensures
            match info {
                Some(info) => is_client_info(json@) && info.as_said(json@),
                None => !is_client_info(json@),
            },
    {
        if !check_record(json, 2, 5) {
            return None;
        }
        match (
            read_text(field(json, "name", 0)),
            read_text(field(json, "version", 1)),
            read_optional_text(field(json, "title", 2)),
            read_optional_text(field(json, "description", 3)),
            read_optional_text(field(json, "websiteUrl", 4)),
        ) {
            (Some(name), Some(version), Some(title), Some(description), Some(website_url)) => Some(
                ClientInfo { name, version, title, description, website_url },
            ),
            _ => None,
        }
    }
}

impl ClientCapabilities {
    /// Whether they are what a document says.
    pub open spec fn as_said(self, json: JsonView) -> bool {
        &&& some_object(self.experimental) == optional_map(field_view(json, "experimental"@, 0))
        &&& self.sampling is Some <==> optional(field_view(json, "sampling"@, 1)) is Some
        &&& match self.roots {
            Some(roots) => optional(field_view(json, "roots"@, 2)) matches Some(member)
                && roots.list_changed == optional_bool(field_view(member, "listChanged"@, 0)),
            None => optional(field_view(json, "roots"@, 2)) is None,
        }
    }

    /// Reads what a client can do.
    pub fn from_json(json: &Json) -> (capabilities: Option<Self>)
        ensures
            match capabilities {
                Some(capabilities) => is_client_capabilities(json@) && capabilities.as_said(json@),
                None => !is_client_capabilities(json@),
            },
    {
        if !check_record(json, 3, 3) {
            return None;
        }
        let experimental = match read_optional_map(field(json, "experimental", 0)) {
            Some(experimental) => experimental,
            None => {
                return None;
            },
        };
        let sampling = match field(json, "sampling", 1) {
            None => None,
            Some(member) => match member {
                Json::Null => None,
                other => if check_record(other, 0, 0) {
                    Some(SamplingCapability {  })
                } else {
                    return None;
                },
            },
        };
        let roots = match field(json, "roots", 2) {
            None => None,
            Some(member) => match member {
                Json::Null => None,
                other => {
                    if !check_record(other, 1, 1) {
                        return None;
                    }
                    match field(other, "listChanged", 0) {
                        None => Some(RootsCapability { list_changed: None }),
                        Some(flag) => match flag {
                            Json::Null => Some(RootsCapability { list_changed: None }),
                            Json::Bool(b) => Some(RootsCapability { list_changed: Some(*b) }),
                            _ => {
                                return None;
                            },
                        },
                    }
                },
            },
        };
        Some(ClientCapabilities { experimental, sampling, roots })
    }
}

impl InitializeRequest {
    /// Whether it is what a document says.
    pub open spec fn as_said(self, json: JsonView) -> bool {
        &&& self.protocol_version@ == text_of(field_view(json, "protocolVersion"@, 0))
        &&& self.client_info.as_said(field_view(json, "clientInfo"@, 1)->0)
        &&& self.capabilities.as_said(field_view(json, "capabilities"@, 2)->0)
        &&& some_object(self.oauth_credentials) == optional_map(
            field_view(json, "oauthCredentials"@, 3),
        )
    }

    /// Reads an `initialize` request.
    pub fn from_json(json: &Json) -> (request: Option<Self>)
        ensures
            match request {
                Some(request) => is_initialize_request(json@) && request.as_said(json@),
                None => !is_initialize_request(json@),
            },
    {
        if !check_record(json, 3, 4) {
            return None;
        }
        let protocol_version = match read_text(field(json, "protocolVersion", 0)) {
            Some(version) => version,
            None => {
                return None;
            },
        };
        let client_info = match field(json, "clientInfo", 1) {
            Some(info) => match ClientInfo::from_json(info) {
                Some(info) => info,
                None => {
                    return None;
                },
            },
            None => {
                return None;
            },
        };
        let capabilities = match field(json, "capabilities", 2) {
            Some(able) => match ClientCapabilities::from_json(able) {
                Some(able) => able,
                None => {
                    return None;
                },
            },
            None => {
                return None;
            },
        };
        let oauth_credentials = match read_optional_map(field(json, "oauthCredentials", 3)) {
            Some(credentials) => credentials,
            None => {
                return None;
            },
        };
        Some(InitializeRequest { protocol_version, client_info, capabilities, oauth_credentials })
    }
}

/// A server's answer to `initialize`.
#[derive(Debug)]
pub struct InitializeResponse {
    /// The protocol version agreed on.
    pub protocol_version: String,
    /// Who the server is.
    pub server_info: ServerInfo,
    /// What the server can do.
    pub capabilities: ServerCapabilities,
    /// Instructions for the client.
    pub instructions: Option<String>,
}

/// The JSON of an answer to `initialize`.
pub open spec fn initialize_json(
    protocol_version: Seq<char>,
    server_info: JsonView,
    capabilities: JsonView,
    instructions: Option<Seq<char>>,
) -> JsonView {
    JsonView::Object(
        and_some(
            fields().push(("protocolVersion"@, JsonView::Text(protocol_version))).push(
                ("serverInfo"@, server_info),
            ).push(("capabilities"@, capabilities)),
            "instructions"@,
            some_text(instructions),
        ),
    )
}

impl InitializeResponse {
    /// The JSON that stands for it.
    pub open spec fn wire(self) -> JsonView {
        initialize_json(
            self.protocol_version@,
            self.server_info.wire(),
            self.capabilities.wire(),
            text_view(self.instructions),
        )
    }

    /// An answer made of its parts.
    pub fn new(
        protocol_version: String,
        server_info: ServerInfo,
        capabilities: ServerCapabilities,
        instructions: Option<String>,
    ) -> (response: Self)
        ensures
            response == (InitializeResponse {
                protocol_version,
                server_info,
                capabilities,
                instructions,
            }),
    {
        InitializeResponse { protocol_version, server_info, capabilities, instructions }
    }

    /// The JSON that stands for it.
    pub fn to_json(&self) -> (json: Json)
        ensures
            json@ == self.wire(),
    {
        let mut members = no_members();
        put_text(&mut members, "protocolVersion", self.protocol_version.as_str());
        put(&mut members, "serverInfo", self.server_info.to_json());
        put(&mut members, "capabilities", self.capabilities.to_json());
        put_some_text(&mut members, "instructions", &self.instructions);
        Json::object(members)
    }
}

} // verus!
