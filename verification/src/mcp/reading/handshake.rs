//! Reading responses, and the answer to a handshake.

use vstd::prelude::*;

use crate::decode::{field, field_view, view_of};
use crate::json::{
    group_find_member, signed_view, some_text, text_view,
    Json, JsonView, Number, NumberView,
};
use crate::mcp::capabilities::{
    check_record, initialize_json, is_optional_text, is_record, is_text, optional_text,
    read_optional_text, read_text, text_of, InitializeResponse, ServerCapabilities,
};
use crate::mcp::protocol::{
    error_json, optional, response_json, ErrorView, JsonRpcError, JsonRpcResponse, ResponseView,
};
use crate::mcp::reading::{
    is_server_capabilities, present, read_optional, server_capabilities_read,
    written_server_capabilities_read_back,
};
use crate::mcp::schema::{identity_json, ProtocolInfo, ServerInfo};

verus! {

// ---------------------------------------------------------------------------
// Integers
// ---------------------------------------------------------------------------

/// The 32-bit integer that a field is.
pub open spec fn small_integer(member: Option<JsonView>) -> Option<i32> {
    match member {
        Some(JsonView::Number(NumberView::Unsigned(n))) => if n <= i32::MAX {
            Some(n as i32)
        } else {
            None
        },
        Some(JsonView::Number(NumberView::Negative(n))) => if i32::MIN <= n <= i32::MAX {
            Some(n as i32)
        } else {
            None
        },
        _ => None,
    }
}

pub(crate) fn read_small_integer(member: Option<&Json>) -> (n: Option<i32>)
    ensures
        n == small_integer(view_of(member)),
{
    match member {
        Some(json) => match json {
            Json::Number(Number::Unsigned(n)) => if *n <= i32::MAX as u64 {
                Some(*n as i32)
            } else {
                None
            },
            Json::Number(Number::Negative(n)) => if i32::MIN as i64 <= *n && *n <= i32::MAX as i64 {
                Some(*n as i32)
            } else {
                None
            },
            _ => None,
        },
        None => None,
    }
}

/// An integer of 32 bits is read as it was written.
pub(crate) proof fn lemma_small_integer(n: i32)
    ensures
        small_integer(Some(signed_view(n as int))) == Some(n),
{
}

// ---------------------------------------------------------------------------
// Responses
// ---------------------------------------------------------------------------

/// The error that a document stands for.
pub open spec fn error_of(json: JsonView) -> Option<ErrorView> {
    if !is_record(json, 3, 3) || !is_text(field_view(json, "message"@, 1)) {
        None
    } else {
        match small_integer(field_view(json, "code"@, 0)) {
            Some(code) => Some(
                ErrorView {
                    code,
                    message: text_of(field_view(json, "message"@, 1)),
                    data: optional(field_view(json, "data"@, 2)),
                },
            ),
            None => None,
        }
    }
}

/// The response that a document stands for.
pub open spec fn response_of(json: JsonView) -> Option<ResponseView> {
    if !is_record(json, 4, 4) || !is_text(field_view(json, "jsonrpc"@, 0)) {
        None
    } else {
        let jsonrpc = text_of(field_view(json, "jsonrpc"@, 0));
        let result = optional(field_view(json, "result"@, 1));
        let id = optional(field_view(json, "id"@, 3));
        match optional(field_view(json, "error"@, 2)) {
            None => Some(ResponseView { jsonrpc, result, error: None, id }),
            Some(error) => match error_of(error) {
                Some(error) => Some(ResponseView { jsonrpc, result, error: Some(error), id }),
                None => None,
            },
        }
    }
}

impl JsonRpcError {
    /// Reads an error.
    pub fn from_json(json: &Json) -> (error: Option<Self>)
        ensures
            match error {
                Some(error) => error_of(json@) == Some(error@),
                None => error_of(json@) is None,
            },
    {
        if !check_record(json, 3, 3) {
            return None;
        }
        match (read_small_integer(field(json, "code", 0)), read_text(field(json, "message", 1))) {
            (Some(code), Some(message)) => Some(
                JsonRpcError { code, message, data: read_optional(field(json, "data", 2)) },
            ),
            _ => None,
        }
    }
}

impl JsonRpcResponse {
    /// Reads a response.
    pub fn from_json(json: &Json) -> (response: Option<Self>)
        ensures
            match response {
                Some(response) => response_of(json@) == Some(response@),
                None => response_of(json@) is None,
            },
    {
        if !check_record(json, 4, 4) {
            return None;
        }
        let jsonrpc = match read_text(field(json, "jsonrpc", 0)) {
            Some(jsonrpc) => jsonrpc,
            None => {
                return None;
            },
        };
        let error = match present(field(json, "error", 2)) {
            Some(error) => match JsonRpcError::from_json(error) {
                Some(error) => Some(error),
                None => {
                    return None;
                },
            },
            None => None,
        };
        let result = read_optional(field(json, "result", 1));
        let id = read_optional(field(json, "id", 3));
        Some(JsonRpcResponse { jsonrpc, result, error, id })
    }
}

/// The names of a response's members are distinct.
proof fn lemma_response_names_differ()
    ensures
        "jsonrpc"@ != "result"@,
        "jsonrpc"@ != "error"@,
        "jsonrpc"@ != "id"@,
        "result"@ != "error"@,
        "result"@ != "id"@,
        "error"@ != "id"@,
{
    reveal_strlit("jsonrpc");
    reveal_strlit("result");
    reveal_strlit("error");
    reveal_strlit("id");
    assert("jsonrpc"@.len() == 7);
    assert("result"@.len() == 6);
    assert("error"@.len() == 5);
    assert("id"@.len() == 2);
}

/// The names of an error's members are distinct.
proof fn lemma_error_names_differ()
    ensures
        "code"@ != "message"@,
        "code"@ != "data"@,
        "message"@ != "data"@,
{
    reveal_strlit("code");
    reveal_strlit("message");
    reveal_strlit("data");
    assert("code"@.len() == 4);
    assert("message"@.len() == 7);
    assert("data"@.len() == 4);
    assert("code"@[0] != "data"@[0]);
}

/// Reading what was written gives the same error back.
pub proof fn written_error_reads_back(error: ErrorView)
    requires
        error.data != Some(JsonView::Null),
    ensures
        error_of(error_json(error)) == Some(error),
{
    broadcast use group_find_member;

    lemma_error_names_differ();
    lemma_small_integer(error.code);
    let json = error_json(error);
    assert(json.member("code"@) == Some(signed_view(error.code as int)));
    assert(json.member("message"@) == Some(JsonView::Text(error.message)));
    assert(json.member("data"@) == error.data);
}

/// Reading what was written gives the same response back. What is `null` reads as absent.
pub proof fn written_response_reads_back(response: ResponseView)
    requires
        response.result != Some(JsonView::Null),
        response.id != Some(JsonView::Null),
        response.error matches Some(error) ==> error.data != Some(JsonView::Null),
    ensures
        response_of(response_json(response)) == Some(response),
{
    broadcast use group_find_member;

    lemma_response_names_differ();
    let json = response_json(response);
    assert(json.member("jsonrpc"@) == Some(JsonView::Text(response.jsonrpc)));
    assert(json.member("result"@) == response.result);
    assert(json.member("id"@) == Some(
        match response.id {
            Some(id) => id,
            None => JsonView::Null,
        },
    ));
    match response.error {
        Some(error) => {
            written_error_reads_back(error);
            assert(json.member("error"@) == Some(error_json(error)));
        },
        None => {
            assert(json.member("error"@) is None);
        },
    }
}

// ---------------------------------------------------------------------------
// Handshake
// ---------------------------------------------------------------------------

/// Whether a document says which version of the protocol is spoken.
pub open spec fn is_protocol_info(json: JsonView) -> bool {
    is_record(json, 1, 1) && is_text(field_view(json, "protocolVersion"@, 0))
}

impl ProtocolInfo {
    /// Reads which version of the protocol is spoken.
    pub fn from_json(json: &Json) -> (info: Option<Self>)
        ensures
            match info {
                Some(info) => is_protocol_info(json@) && info.protocol_version@ == text_of(
                    field_view(json@, "protocolVersion"@, 0),
                ),
                None => !is_protocol_info(json@),
            },
    {
        if !check_record(json, 1, 1) {
            return None;
        }
        match read_text(field(json, "protocolVersion", 0)) {
            Some(protocol_version) => Some(ProtocolInfo { protocol_version }),
            None => None,
        }
    }
}

/// Reading what was written gives the same version back.
pub proof fn written_protocol_info_reads_back(info: ProtocolInfo)
    ensures
        is_protocol_info(info.wire()),
        text_of(field_view(info.wire(), "protocolVersion"@, 0)) == info.protocol_version@,
{
    broadcast use group_find_member;

    assert(info.wire().member("protocolVersion"@) == Some(JsonView::Text(info.protocol_version@)));
}

/// Whether a document says who a server is.
pub open spec fn is_server_info(json: JsonView) -> bool {
    &&& is_record(json, 5, 5)
    &&& is_text(field_view(json, "name"@, 0))
    &&& is_text(field_view(json, "version"@, 1))
    &&& is_optional_text(field_view(json, "title"@, 2))
    &&& is_optional_text(field_view(json, "description"@, 3))
    &&& is_optional_text(field_view(json, "websiteUrl"@, 4))
}

/// What a document shows of who a server is, and nothing besides.
pub open spec fn server_info_read(json: JsonView) -> JsonView {
    identity_json(
        text_of(field_view(json, "name"@, 0)),
        text_of(field_view(json, "version"@, 1)),
        optional_text(field_view(json, "title"@, 2)),
        optional_text(field_view(json, "description"@, 3)),
        optional_text(field_view(json, "websiteUrl"@, 4)),
    )
}

impl ServerInfo {
    /// Reads who a server is.
    pub fn from_json(json: &Json) -> (info: Option<Self>)
        ensures
            match info {
                Some(info) => is_server_info(json@) && info.wire() == server_info_read(json@),
                None => !is_server_info(json@),
            },
    {
        if !check_record(json, 5, 5) {
            return None;
        }
        match (
            read_text(field(json, "name", 0)),
            read_text(field(json, "version", 1)),
            read_optional_text(field(json, "title", 2)),
            read_optional_text(field(json, "description", 3)),
            read_optional_text(field(json, "websiteUrl", 4)),
        ) {
            (Some(name), Some(version), Some(title), Some(description), Some(website_url)) => Some(
                ServerInfo { name, version, title, description, website_url },
            ),
            _ => None,
        }
    }
}

/// The names of the members that say who a server is are distinct.
proof fn lemma_identity_names_differ()
    ensures
        "name"@ != "version"@,
        "name"@ != "title"@,
        "name"@ != "description"@,
        "name"@ != "websiteUrl"@,
        "version"@ != "title"@,
        "version"@ != "description"@,
        "version"@ != "websiteUrl"@,
        "title"@ != "description"@,
        "title"@ != "websiteUrl"@,
        "description"@ != "websiteUrl"@,
{
    reveal_strlit("name");
    reveal_strlit("version");
    reveal_strlit("title");
    reveal_strlit("description");
    reveal_strlit("websiteUrl");
    assert("name"@.len() == 4);
    assert("version"@.len() == 7);
    assert("title"@.len() == 5);
    assert("description"@.len() == 11);
    assert("websiteUrl"@.len() == 10);
}

/// The names of the members of the answer to a handshake are distinct.
proof fn lemma_handshake_names_differ()
    ensures
        "protocolVersion"@ != "serverInfo"@,
        "protocolVersion"@ != "capabilities"@,
        "protocolVersion"@ != "instructions"@,
        "serverInfo"@ != "capabilities"@,
        "serverInfo"@ != "instructions"@,
        "capabilities"@ != "instructions"@,
{
    reveal_strlit("protocolVersion");
    reveal_strlit("serverInfo");
    reveal_strlit("capabilities");
    reveal_strlit("instructions");
    assert("protocolVersion"@.len() == 15);
    assert("serverInfo"@.len() == 10);
    assert("capabilities"@.len() == 12);
    assert("instructions"@.len() == 12);
    assert("capabilities"@[0] != "instructions"@[0]);
}

/// Reading what was written tells who a server is.
pub proof fn written_server_info_reads_back(info: ServerInfo)
    ensures
        is_server_info(info.wire()),
        server_info_read(info.wire()) == info.wire(),
{
    broadcast use group_find_member;

    lemma_identity_names_differ();
    let json = info.wire();
    assert(json.member("name"@) == Some(JsonView::Text(info.name@)));
    assert(json.member("version"@) == Some(JsonView::Text(info.version@)));
    assert(json.member("title"@) == some_text(text_view(info.title)));
    assert(json.member("description"@) == some_text(text_view(info.description)));
    assert(json.member("websiteUrl"@) == some_text(text_view(info.website_url)));
}

/// Whether a document is the answer to a handshake.
pub open spec fn is_initialize_response(json: JsonView) -> bool {
    &&& is_record(json, 4, 4)
    &&& is_text(field_view(json, "protocolVersion"@, 0))
    &&& field_view(json, "serverInfo"@, 1) matches Some(info) && is_server_info(info)
    &&& field_view(json, "capabilities"@, 2) matches Some(able) && is_server_capabilities(able)
    &&& is_optional_text(field_view(json, "instructions"@, 3))
}

/// What a document shows of the answer to a handshake, and nothing besides.
pub open spec fn initialize_response_read(json: JsonView) -> JsonView {
    initialize_json(
        text_of(field_view(json, "protocolVersion"@, 0)),
        server_info_read(field_view(json, "serverInfo"@, 1)->0),
        server_capabilities_read(field_view(json, "capabilities"@, 2)->0),
        optional_text(field_view(json, "instructions"@, 3)),
    )
}

impl InitializeResponse {
    /// Reads the answer to a handshake.
    pub fn from_json(json: &Json) -> (response: Option<Self>)
        ensures
            match response {
                Some(response) => is_initialize_response(json@) && response.wire()
                    == initialize_response_read(json@),
                None => !is_initialize_response(json@),
            },
    {
        if !check_record(json, 4, 4) {
            return None;
        }
        let server_info = match field(json, "serverInfo", 1) {
            Some(info) => ServerInfo::from_json(info),
            None => None,
        };
        let capabilities = match field(json, "capabilities", 2) {
            Some(able) => ServerCapabilities::from_json(able),
            None => None,
        };
        match (
            read_text(field(json, "protocolVersion", 0)),
            server_info,
            capabilities,
            read_optional_text(field(json, "instructions", 3)),
        ) {
            (Some(protocol_version), Some(server_info), Some(capabilities), Some(instructions)) => Some(
                InitializeResponse { protocol_version, server_info, capabilities, instructions },
            ),
            _ => None,
        }
    }
}

/// Reading what was written gives the answer to a handshake back that says the same.
pub proof fn written_initialize_response_reads_back(response: InitializeResponse)
    ensures
        is_initialize_response(response.wire()),
        initialize_response_read(response.wire()) == response.wire(),
{
    broadcast use group_find_member;

    lemma_handshake_names_differ();
    written_server_info_reads_back(response.server_info);
    written_server_capabilities_read_back(response.capabilities);
    let json = response.wire();
    assert(json.member("protocolVersion"@) == Some(JsonView::Text(response.protocol_version@)));
    assert(json.member("serverInfo"@) == Some(response.server_info.wire()));
    assert(json.member("capabilities"@) == Some(response.capabilities.wire()));
    assert(json.member("instructions"@) == some_text(text_view(response.instructions)));
}

} // verus!
