//! What a client sends, written: a handshake, a call of a tool. What is written reads back.

use vstd::prelude::*;

use crate::decode::field_view;
use crate::json::{
    and_some, fields, group_find_member, no_members, put, put_some, put_some_bool,
    put_some_object, put_some_text, put_text, some_bool, some_object, some_text, text_view, Json,
    JsonView,
};
use crate::mcp::capabilities::{
    bare, is_client_capabilities, is_client_info, is_initialize_request, list_changed_json,
    text_of, ClientCapabilities, ClientInfo, InitializeRequest,
};
use crate::mcp::messages::{two_texts, two_texts_json};
use crate::mcp::modern::{names_client, ModernClientInfo};
use crate::mcp::schema::{identity_json, tool_call_of, ToolCall, ToolCallView};

verus! {

/// The names of the members that say who a client is are distinct.
proof fn lemma_client_names_differ()
    ensures
        "name"@ != "version"@,
        "name"@ != "title"@,
        "name"@ != "description"@,
        "name"@ != "websiteUrl"@,
        "version"@ != "title"@,
        "version"@ != "description"@,
        "version"@ != "websiteUrl"@,
        "title"@ != "description"@,
        "title"@ != "websiteUrl"@,
        "description"@ != "websiteUrl"@,
{
    reveal_strlit("name");
    reveal_strlit("version");
    reveal_strlit("title");
    reveal_strlit("description");
    reveal_strlit("websiteUrl");
    assert("name"@.len() == 4);
    assert("version"@.len() == 7);
    assert("title"@.len() == 5);
    assert("description"@.len() == 11);
    assert("websiteUrl"@.len() == 10);
}

/// The names of a client's capabilities are distinct.
proof fn lemma_ability_names_differ()
    ensures
        "experimental"@ != "sampling"@,
        "experimental"@ != "roots"@,
        "sampling"@ != "roots"@,
{
    reveal_strlit("experimental");
    reveal_strlit("sampling");
    reveal_strlit("roots");
    assert("experimental"@.len() == 12);
    assert("sampling"@.len() == 8);
    assert("roots"@.len() == 5);
}

/// The names of the members of a handshake are distinct.
proof fn lemma_handshake_names_differ()
    ensures
        "protocolVersion"@ != "clientInfo"@,
        "protocolVersion"@ != "capabilities"@,
        "protocolVersion"@ != "oauthCredentials"@,
        "clientInfo"@ != "capabilities"@,
        "clientInfo"@ != "oauthCredentials"@,
        "capabilities"@ != "oauthCredentials"@,
{
    reveal_strlit("protocolVersion");
    reveal_strlit("clientInfo");
    reveal_strlit("capabilities");
    reveal_strlit("oauthCredentials");
    assert("protocolVersion"@.len() == 15);
    assert("clientInfo"@.len() == 10);
    assert("capabilities"@.len() == 12);
    assert("oauthCredentials"@.len() == 16);
}

impl ClientInfo {
    /// The JSON that stands for it.
    pub open spec fn wire(self) -> JsonView {
        identity_json(
            self.name@,
            self.version@,
            text_view(self.title),
            text_view(self.description),
            text_view(self.website_url),
        )
    }

    /// The JSON that stands for it.
    pub fn to_json(&self) -> (json: Json)
        ensures
            json@ == self.wire(),
    {
        let mut members = no_members();
        put_text(&mut members, "name", self.name.as_str());
        put_text(&mut members, "version", self.version.as_str());
        put_some_text(&mut members, "title", &self.title);
        put_some_text(&mut members, "description", &self.description);
        put_some_text(&mut members, "websiteUrl", &self.website_url);
        Json::object(members)
    }
}

/// Reading what was written tells who a client is.
pub proof fn written_client_info_reads_back(info: ClientInfo)
    ensures
        is_client_info(info.wire()),
        info.as_said(info.wire()),
{
    broadcast use group_find_member;

    lemma_client_names_differ();
    let json = info.wire();
    assert(json.member("name"@) == Some(JsonView::Text(info.name@)));
    assert(json.member("version"@) == Some(JsonView::Text(info.version@)));
    assert(json.member("title"@) == some_text(text_view(info.title)));
    assert(json.member("description"@) == some_text(text_view(info.description)));
    assert(json.member("websiteUrl"@) == some_text(text_view(info.website_url)));
}

impl ClientCapabilities {
    /// The JSON that stands for them.
    pub open spec fn wire(self) -> JsonView {
        JsonView::Object(
            and_some(
                and_some(
                    and_some(fields(), "experimental"@, some_object(self.experimental)),
                    "sampling"@,
                    if self.sampling is Some { Some(bare()) } else { None },
                ),
                "roots"@,
                match self.roots {
                    Some(roots) => Some(list_changed_json(roots.list_changed)),
                    None => None,
                },
            ),
        )
    }

    /// The JSON that stands for them.
    pub fn to_json(&self) -> (json: Json)
        ensures
            json@ == self.wire(),
    {
        let mut members = no_members();
        put_some_object(&mut members, "experimental", &self.experimental);
        let sampling = match &self.sampling {
            Some(_) => Some(Json::object(no_members())),
            None => None,
        };
        put_some(&mut members, "sampling", sampling);
        let roots = match &self.roots {
            Some(roots) => {
                let mut inner = no_members();
                put_some_bool(&mut inner, "listChanged", roots.list_changed);
                Some(Json::object(inner))
            },
            None => None,
        };
        put_some(&mut members, "roots", roots);
        Json::object(members)
    }
}

/// Reading what was written tells what a client can do.
pub proof fn written_client_capabilities_read_back(able: ClientCapabilities)
    ensures
        is_client_capabilities(able.wire()),
        able.as_said(able.wire()),
{
    broadcast use group_find_member;

    lemma_ability_names_differ();
    let json = able.wire();
    assert(json.member("experimental"@) == some_object(able.experimental));
    assert(json.member("sampling"@) == (if able.sampling is Some { Some(bare()) } else { None }));
    match able.roots {
        Some(roots) => {
            let inner = list_changed_json(roots.list_changed);
            assert(json.member("roots"@) == Some(inner));
            assert(inner.member("listChanged"@) == some_bool(roots.list_changed));
        },
        None => {
            assert(json.member("roots"@) is None);
        },
    }
}

impl InitializeRequest {
    /// The JSON that stands for it.
    pub open spec fn wire(self) -> JsonView {
        JsonView::Object(
            and_some(
                fields().push(("protocolVersion"@, JsonView::Text(self.protocol_version@))).push(
                    ("clientInfo"@, self.client_info.wire()),
                ).push(("capabilities"@, self.capabilities.wire())),
                "oauthCredentials"@,
                some_object(self.oauth_credentials),
            ),
        )
    }

    /// The JSON that stands for it.
    pub fn to_json(&self) -> (json: Json)
        ensures
            json@ == self.wire(),
    {
        let mut members = no_members();
        put_text(&mut members, "protocolVersion", self.protocol_version.as_str());
        put(&mut members, "clientInfo", self.client_info.to_json());
        put(&mut members, "capabilities", self.capabilities.to_json());
        put_some_object(&mut members, "oauthCredentials", &self.oauth_credentials);
        Json::object(members)
    }
}

/// Reading what was written gives a handshake back that says the same.
pub proof fn written_initialize_request_reads_back(request: InitializeRequest)
    ensures
        is_initialize_request(request.wire()),
        request.as_said(request.wire()),
{
    broadcast use group_find_member;

    lemma_handshake_names_differ();
    written_client_info_reads_back(request.client_info);
    written_client_capabilities_read_back(request.capabilities);
    let json = request.wire();
    assert(json.member("protocolVersion"@) == Some(JsonView::Text(request.protocol_version@)));
    assert(json.member("clientInfo"@) == Some(request.client_info.wire()));
    assert(json.member("capabilities"@) == Some(request.capabilities.wire()));
    assert(json.member("oauthCredentials"@) == some_object(request.oauth_credentials));
}

/// The JSON of a call: arguments that are not given are `null`.
pub open spec fn call_json(call: ToolCallView) -> JsonView {
    JsonView::Object(
        fields().push(("name"@, JsonView::Text(call.name))).push(
            (
                "arguments"@,
                match call.arguments {
                    Some(arguments) => arguments,
                    None => JsonView::Null,
                },
            ),
        ),
    )
}

impl ToolCall {
    /// The JSON that stands for it.
    pub fn to_json(&self) -> (json: Json)
        ensures
            json@ == call_json(self@),
    {
        let mut members = no_members();
        put_text(&mut members, "name", self.name.as_str());
        let arguments = match &self.arguments {
            Some(arguments) => arguments.dup(),
            None => Json::Null,
        };
        put(&mut members, "arguments", arguments);
        Json::object(members)
    }
}

/// Reading what was written gives the same call back. Arguments that are `null` read as
/// absent.
pub proof fn written_call_reads_back(call: ToolCallView)
    requires
        call.arguments != Some(JsonView::Null),
    ensures
        tool_call_of(call_json(call)) == Ok::<ToolCallView, Seq<char>>(call),
{
    broadcast use group_find_member;

    reveal_strlit("name");
    reveal_strlit("arguments");
    assert("name"@.len() != "arguments"@.len());
    let json = call_json(call);
    assert(json.member("name"@) == Some(JsonView::Text(call.name)));
    assert(json.member("arguments"@) == Some(
        match call.arguments {
            Some(arguments) => arguments,
            None => JsonView::Null,
        },
    ));
}

impl ModernClientInfo {
    /// The JSON that stands for it.
    pub open spec fn wire(self) -> JsonView {
        two_texts("name"@, self.name@, "version"@, self.version@)
    }

    /// The JSON that stands for it.
    pub fn to_json(&self) -> (json: Json)
        ensures
            json@ == self.wire(),
    {
        two_texts_json("name", self.name.as_str(), "version", self.version.as_str())
    }
}

/// Reading what was written tells who the client of a modern request is.
pub proof fn written_modern_client_reads_back(info: ModernClientInfo)
    ensures
        names_client(info.wire()),
        text_of(field_view(info.wire(), "name"@, 0)) == info.name@,
        text_of(field_view(info.wire(), "version"@, 1)) == info.version@,
{
    broadcast use group_find_member;

    lemma_client_names_differ();
    let json = info.wire();
    assert(json.member("name"@) == Some(JsonView::Text(info.name@)));
    assert(json.member("version"@) == Some(JsonView::Text(info.version@)));
}

} // verus!
