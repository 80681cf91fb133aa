//! Reading wire types back from the JSON that stands for them.
//!
//! A record is read from an object by its members' names, or from an array by its
//! items' positions. Members that a record does not have are passed over. For each type
//! there is a spec function that says which documents stand for a value and one that
//! says what such a document shows; a law says that what was written is read back.

pub mod handshake;
pub mod laws;
pub mod requests;
pub mod sampling;

use vstd::prelude::*;

use crate::decode::{field, field_view, view_of};
use crate::json::{
    and_some, fields, float_text, group_find_apart, group_find_member, item_views, option_view, some_bool,
    some_object, some_text, text_view, Float, Json, JsonView, NumberView,
};
use crate::mcp::capabilities::{
    bare, check_record, is_optional_bare, is_optional_bool, is_optional_map, is_optional_text,
    is_record, is_text, list_changed_json, optional_bool, optional_map, optional_text,
    read_optional_map, read_optional_text, read_text, some_oauth2, text_of, AuthCapability,
    CompletionCapability, LoggingCapability, OAuth2Capability, PromptsCapability,
    ResourcesCapability, SamplingCapability, ServerCapabilities, ToolsCapability,
};
use crate::mcp::json_schema::reading::{is_optional_number, read_optional_float};
use crate::mcp::messages::{
    notification_json, two_texts, ArgumentValue, CompleteRequest, CompletionReference,
    CreateMessageResult, MessageContent, OAuthCompletedNotification, OAuthCompletedParams,
    ProgressNotification, ProgressParams, PromptMessage,
};
use crate::mcp::protocol::optional;
use crate::mcp::schema::{
    content_list, float_or_null, read_flag, tool_response_json, Content, ToolResponse,
};
use crate::text::same;

verus! {

// ---------------------------------------------------------------------------
// Numbers
// ---------------------------------------------------------------------------

/// The number of a field, or `null` where there is none.
pub open spec fn float_said(member: Option<JsonView>) -> JsonView {
    match member {
        Some(JsonView::Number(number)) => JsonView::Number(NumberView::Float(float_text(number))),
        _ => JsonView::Null,
    }
}

pub(crate) fn read_float(member: Option<&Json>) -> (float: Option<Float>)
    ensures
        match float {
            Some(float) => view_of(member) matches Some(JsonView::Number(_)) && float.wire()
                == float_said(view_of(member)),
            None => !(view_of(member) matches Some(JsonView::Number(_))),
        },
{
    match member {
        Some(json) => Float::from_json(json),
        None => None,
    }
}

// ---------------------------------------------------------------------------
// Content
// ---------------------------------------------------------------------------

/// Whether a document is an item: its kind under `type`, or first in an array, and the
/// fields of that kind.
pub open spec fn is_content(json: JsonView) -> bool {
    let kind = text_of(field_view(json, "type"@, 0));
    &&& is_text(field_view(json, "type"@, 0))
    &&& if kind == "text"@ {
        &&& is_record(json, 2, 2)
        &&& is_text(field_view(json, "text"@, 1))
    } else if kind == "image"@ {
        &&& is_record(json, 3, 3)
        &&& is_text(field_view(json, "data"@, 1))
        &&& is_text(field_view(json, "mimeType"@, 2))
    } else if kind == "resource"@ {
        &&& is_record(json, 4, 4)
        &&& is_text(field_view(json, "uri"@, 1))
        &&& is_optional_text(field_view(json, "text"@, 2))
        &&& is_optional_text(field_view(json, "mimeType"@, 3))
    } else {
        &&& kind == "progress"@
        &&& is_record(json, 4, 4)
        &&& is_text(field_view(json, "progressToken"@, 1))
        &&& field_view(json, "progress"@, 2) matches Some(JsonView::Number(_))
        &&& is_optional_number(field_view(json, "total"@, 3))
    }
}

/// What a document shows of an item, and nothing besides.
pub open spec fn content_read(json: JsonView) -> JsonView {
    let kind = text_of(field_view(json, "type"@, 0));
    let tagged = fields().push(("type"@, JsonView::Text(kind)));
    JsonView::Object(
        if kind == "text"@ {
            tagged.push(("text"@, JsonView::Text(text_of(field_view(json, "text"@, 1)))))
        } else if kind == "image"@ {
            tagged.push(("data"@, JsonView::Text(text_of(field_view(json, "data"@, 1))))).push(
                ("mimeType"@, JsonView::Text(text_of(field_view(json, "mimeType"@, 2)))),
            )
        } else if kind == "resource"@ {
            and_some(
                and_some(
                    tagged.push(("uri"@, JsonView::Text(text_of(field_view(json, "uri"@, 1))))),
                    "text"@,
                    some_text(optional_text(field_view(json, "text"@, 2))),
                ),
                "mimeType"@,
                some_text(optional_text(field_view(json, "mimeType"@, 3))),
            )
        } else {
            tagged.push(
                ("progressToken"@, JsonView::Text(text_of(field_view(json, "progressToken"@, 1)))),
            ).push(("progress"@, float_said(field_view(json, "progress"@, 2)))).push(
                ("total"@, float_said(field_view(json, "total"@, 3))),
            )
        },
    )
}

impl Content {
    fn read_text_item(json: &Json) -> (content: Option<Self>)
        requires
            text_of(field_view(json@, "type"@, 0)) == "text"@,
            is_text(field_view(json@, "type"@, 0)),
        ensures
            match content {
                Some(content) => is_content(json@) && content.wire() == content_read(json@),
                None => !is_content(json@),
            },
    {
        if !check_record(json, 2, 2) {
            return None;
        }
        match read_text(field(json, "text", 1)) {
            Some(text) => Some(Content::Text { text }),
            None => None,
        }
    }

    fn read_image(json: &Json) -> (content: Option<Self>)
        requires
            text_of(field_view(json@, "type"@, 0)) == "image"@,
            is_text(field_view(json@, "type"@, 0)),
        ensures
            match content {
                Some(content) => is_content(json@) && content.wire() == content_read(json@),
                None => !is_content(json@),
            },
    {
        proof {
            lemma_content_names_differ();
        }
        if !check_record(json, 3, 3) {
            return None;
        }
        match (read_text(field(json, "data", 1)), read_text(field(json, "mimeType", 2))) {
            (Some(data), Some(mime_type)) => Some(Content::Image { data, mime_type }),
            _ => None,
        }
    }

    fn read_resource(json: &Json) -> (content: Option<Self>)
        requires
            text_of(field_view(json@, "type"@, 0)) == "resource"@,
            is_text(field_view(json@, "type"@, 0)),
        ensures
            match content {
                Some(content) => is_content(json@) && content.wire() == content_read(json@),
                None => !is_content(json@),
            },
    {
        proof {
            lemma_content_names_differ();
        }
        if !check_record(json, 4, 4) {
            return None;
        }
        match (
            read_text(field(json, "uri", 1)),
            read_optional_text(field(json, "text", 2)),
            read_optional_text(field(json, "mimeType", 3)),
        ) {
            (Some(uri), Some(text), Some(mime_type)) => Some(
                Content::Resource { uri, text, mime_type },
            ),
            _ => None,
        }
    }

    fn read_progress(json: &Json) -> (content: Option<Self>)
        requires
            text_of(field_view(json@, "type"@, 0)) == "progress"@,
            is_text(field_view(json@, "type"@, 0)),
        ensures
            match content {
                Some(content) => is_content(json@) && content.wire() == content_read(json@),
                None => !is_content(json@),
            },
    {
        proof {
            lemma_content_names_differ();
        }
        if !check_record(json, 4, 4) {
            return None;
        }
        match (
            read_text(field(json, "progressToken", 1)),
            read_float(field(json, "progress", 2)),
            read_optional_float(field(json, "total", 3)),
        ) {
            (Some(progress_token), Some(progress), Some(total)) => Some(
                Content::Progress { progress_token, progress, total },
            ),
            _ => None,
        }
    }

    /// Reads an item.
    pub fn from_json(json: &Json) -> (content: Option<Self>)
        ensures
            match content {
                Some(content) => is_content(json@) && content.wire() == content_read(json@),
                None => !is_content(json@),
            },
    {
        let kind = match read_text(field(json, "type", 0)) {
            Some(kind) => kind,
            None => {
                return None;
            },
        };
        if same(kind.as_str(), "text") {
            Content::read_text_item(json)
        } else if same(kind.as_str(), "image") {
            Content::read_image(json)
        } else if same(kind.as_str(), "resource") {
            Content::read_resource(json)
        } else if same(kind.as_str(), "progress") {
            Content::read_progress(json)
        } else {
            None
        }
    }
}

/// The names of an item's members and kinds are distinct.
proof fn lemma_content_names_differ()
    ensures
        "type"@ != "text"@,
        "type"@ != "data"@,
        "type"@ != "mimeType"@,
        "type"@ != "uri"@,
        "type"@ != "progressToken"@,
        "type"@ != "progress"@,
        "type"@ != "total"@,
        "type"@ != "image"@,
        "type"@ != "resource"@,
        "text"@ != "data"@,
        "text"@ != "mimeType"@,
        "text"@ != "uri"@,
        "text"@ != "progressToken"@,
        "text"@ != "progress"@,
        "text"@ != "total"@,
        "text"@ != "image"@,
        "text"@ != "resource"@,
        "data"@ != "mimeType"@,
        "data"@ != "uri"@,
        "data"@ != "progressToken"@,
        "data"@ != "progress"@,
        "data"@ != "total"@,
        "data"@ != "image"@,
        "data"@ != "resource"@,
        "mimeType"@ != "uri"@,
        "mimeType"@ != "progressToken"@,
        "mimeType"@ != "progress"@,
        "mimeType"@ != "total"@,
        "mimeType"@ != "image"@,
        "mimeType"@ != "resource"@,
        "uri"@ != "progressToken"@,
        "uri"@ != "progress"@,
        "uri"@ != "total"@,
        "uri"@ != "image"@,
        "uri"@ != "resource"@,
        "progressToken"@ != "progress"@,
        "progressToken"@ != "total"@,
        "progressToken"@ != "image"@,
        "progressToken"@ != "resource"@,
        "progress"@ != "total"@,
        "progress"@ != "image"@,
        "progress"@ != "resource"@,
        "total"@ != "image"@,
        "total"@ != "resource"@,
        "image"@ != "resource"@,
{
    reveal_strlit("type");
    reveal_strlit("text");
    reveal_strlit("data");
    reveal_strlit("mimeType");
    reveal_strlit("uri");
    reveal_strlit("progressToken");
    reveal_strlit("progress");
    reveal_strlit("total");
    reveal_strlit("image");
    reveal_strlit("resource");
    assert("type"@.len() == 4);
    assert("text"@.len() == 4);
    assert("data"@.len() == 4);
    assert("mimeType"@.len() == 8);
    assert("uri"@.len() == 3);
    assert("progressToken"@.len() == 13);
    assert("progress"@.len() == 8);
    assert("total"@.len() == 5);
    assert("image"@.len() == 5);
    assert("resource"@.len() == 8);
    assert("type"@[1] != "text"@[1]);
    assert("type"@[0] != "data"@[0]);
    assert("text"@[0] != "data"@[0]);
    assert("mimeType"@[0] != "progress"@[0]);
    assert("mimeType"@[0] != "resource"@[0]);
    assert("progress"@[0] != "resource"@[0]);
    assert("total"@[0] != "image"@[0]);
}

impl Content {
    /// Whether JSON can hold all of it: there is no number for how far an endless
    /// operation got.
    pub open spec fn is_finite(self) -> bool {
        self matches Content::Progress { progress, .. } ==> progress is Finite
    }
}

/// Reading what was written gives an item back that shows the same.
pub proof fn written_content_reads_back(content: Content)
    requires
        content.is_finite(),
    ensures
        is_content(content.wire()),
        content_read(content.wire()) == content.wire(),
{
    broadcast use group_find_member;

    lemma_content_names_differ();
    let json = content.wire();
    match content {
        Content::Text { text } => {
            assert(json.member("type"@) == Some(JsonView::Text("text"@)));
            assert(json.member("text"@) == Some(JsonView::Text(text@)));
        },
        Content::Image { data, mime_type } => {
            assert(json.member("type"@) == Some(JsonView::Text("image"@)));
            assert(json.member("data"@) == Some(JsonView::Text(data@)));
            assert(json.member("mimeType"@) == Some(JsonView::Text(mime_type@)));
        },
        Content::Resource { uri, text, mime_type } => {
            assert(json.member("type"@) == Some(JsonView::Text("resource"@)));
            assert(json.member("uri"@) == Some(JsonView::Text(uri@)));
            assert(json.member("text"@) == some_text(text_view(text)));
            assert(json.member("mimeType"@) == some_text(text_view(mime_type)));
        },
        Content::Progress { progress_token, progress, total } => {
            assert(json.member("type"@) == Some(JsonView::Text("progress"@)));
            assert(json.member("progressToken"@) == Some(JsonView::Text(progress_token@)));
            assert(json.member("progress"@) == Some(progress.wire()));
            assert(json.member("total"@) == Some(float_or_null(total)));
        },
    }
}

// ---------------------------------------------------------------------------
// Answers of tools
// ---------------------------------------------------------------------------

/// Whether a field is a list of items.
pub open spec fn is_content_list(member: Option<JsonView>) -> bool {
    member matches Some(JsonView::Array(items)) && forall|i: int|
        0 <= i < items.len() ==> is_content(#[trigger] items[i])
}

/// What a list of items shows.
pub open spec fn content_list_read(member: Option<JsonView>) -> JsonView {
    match member {
        Some(JsonView::Array(items)) => JsonView::Array(
            Seq::new(items.len(), |i: int| content_read(items[i])),
        ),
        _ => JsonView::Array(Seq::empty()),
    }
}

/// Whether a document is an answer of a tool.
pub open spec fn is_tool_response(json: JsonView) -> bool {
    &&& is_record(json, 3, 3)
    &&& is_content_list(field_view(json, "content"@, 0))
    &&& field_view(json, "isError"@, 1) matches Some(JsonView::Bool(_))
}

/// What a document shows of an answer, and nothing besides.
pub open spec fn tool_response_read(json: JsonView) -> JsonView {
    tool_response_json(
        content_list_read(field_view(json, "content"@, 0)),
        field_view(json, "isError"@, 1) == Some(JsonView::Bool(true)),
        optional(field_view(json, "structuredContent"@, 2)),
    )
}

fn read_content_list(member: Option<&Json>) -> (content: Option<Vec<Content>>)
    ensures
        match content {
            Some(content) => is_content_list(view_of(member)) && content_list(content@)
                == content_list_read(view_of(member)),
            None => !is_content_list(view_of(member)),
        },
{
    let items = match member {
        Some(json) => match json {
            Json::Array(items) => {
                assert(json@->Array_0 =~= item_views(items@));
                items
            },
            _ => {
                return None;
            },
        },
        None => {
            return None;
        },
    };
    let ghost views = view_of(member)->0->Array_0;
    let mut content: Vec<Content> = Vec::new();
    let mut i: usize = 0;
    while i < items.len()
        invariant
            i <= items.len(),
            content.len() == i,
            view_of(member) == Some(JsonView::Array(views)),
            views == item_views(items@),
            forall|k: int| 0 <= k < i ==> is_content(#[trigger] views[k]),
            forall|k: int|
                0 <= k < i ==> (#[trigger] content@[k]).wire() == content_read(views[k]),
        decreases items.len() - i,
    {
        assert(views[i as int] == items@[i as int]@);
        match Content::from_json(&items[i]) {
            Some(item) => {
                content.push(item);
            },
            None => {
                return None;
            },
        }
        i += 1;
    }
    assert(content_list(content@)->Array_0 =~= content_list_read(view_of(member))->Array_0);
    Some(content)
}

/// The value of an optional field, whatever it is.
pub(crate) fn read_optional(member: Option<&Json>) -> (json: Option<Json>)
    ensures
        option_view(json) == optional(view_of(member)),
{
    match present(member) {
        Some(json) => Some(json.dup()),
        None => None,
    }
}

pub(crate) fn read_bool(member: Option<&Json>) -> (value: Option<bool>)
    ensures
        match value {
            Some(value) => view_of(member) == Some(JsonView::Bool(value)),
            None => !(view_of(member) matches Some(JsonView::Bool(_))),
        },
{
    match member {
        Some(json) => match json {
            Json::Bool(value) => Some(*value),
            _ => None,
        },
        None => None,
    }
}

impl ToolResponse {
    /// Reads an answer.
    pub fn from_json(json: &Json) -> (response: Option<Self>)
        ensures
            match response {
                Some(response) => is_tool_response(json@) && response.wire() == tool_response_read(
                    json@,
                ),
                None => !is_tool_response(json@),
            },
    {
        if !check_record(json, 3, 3) {
            return None;
        }
        match (read_content_list(field(json, "content", 0)), read_bool(field(json, "isError", 1))) {
            (Some(content), Some(is_error)) => Some(
                ToolResponse {
                    content,
                    is_error,
                    structured_content: read_optional(field(json, "structuredContent", 2)),
                },
            ),
            _ => None,
        }
    }
}

/// The names of an answer's members are distinct.
proof fn lemma_response_names_differ()
    ensures
        "content"@ != "isError"@,
        "content"@ != "structuredContent"@,
        "isError"@ != "structuredContent"@,
{
    reveal_strlit("content");
    reveal_strlit("isError");
    reveal_strlit("structuredContent");
    assert("content"@.len() == 7);
    assert("isError"@.len() == 7);
    assert("structuredContent"@.len() == 17);
    assert("content"@[0] != "isError"@[0]);
}

/// Reading what was written gives an answer back that shows the same.
pub proof fn written_tool_response_reads_back(response: ToolResponse)
    requires
        forall|i: int| 0 <= i < response.content@.len() ==> (#[trigger] response.content@[i]).is_finite(),
        option_view(response.structured_content) != Some(JsonView::Null),
    ensures
        is_tool_response(response.wire()),
        tool_response_read(response.wire()) == response.wire(),
{
    broadcast use group_find_member;

    lemma_response_names_differ();
    let json = response.wire();
    let list = content_list(response.content@);
    assert(json.member("content"@) == Some(list));
    assert(json.member("isError"@) == Some(JsonView::Bool(response.is_error)));
    assert(json.member("structuredContent"@) == option_view(response.structured_content));
    let items = list->Array_0;
    assert forall|i: int| 0 <= i < items.len() implies is_content(#[trigger] items[i])
        && content_read(items[i]) == items[i] by {
        written_content_reads_back(response.content@[i]);
    }
    assert(content_list_read(Some(list))->Array_0 =~= items);
}

// ---------------------------------------------------------------------------
// Notifications
// ---------------------------------------------------------------------------

/// Whether a document is a notification, leaving open what its parameters are.
pub open spec fn is_notification(json: JsonView) -> bool {
    &&& is_record(json, 3, 3)
    &&& is_text(field_view(json, "jsonrpc"@, 0))
    &&& is_text(field_view(json, "method"@, 1))
    &&& field_view(json, "params"@, 2) is Some
}

/// What a document shows of a notification, given what it shows of its parameters.
pub open spec fn notification_read(json: JsonView, params: JsonView) -> JsonView {
    notification_json(
        text_of(field_view(json, "jsonrpc"@, 0)),
        text_of(field_view(json, "method"@, 1)),
        params,
    )
}

/// Whether a document says how far an operation got.
pub open spec fn is_progress_params(json: JsonView) -> bool {
    &&& is_record(json, 4, 4)
    &&& is_text(field_view(json, "progressToken"@, 0))
    &&& field_view(json, "progress"@, 1) matches Some(JsonView::Number(_))
    &&& is_optional_number(field_view(json, "total"@, 2))
    &&& is_optional_text(field_view(json, "message"@, 3))
}

/// What a document shows of how far an operation got, and nothing besides.
pub open spec fn progress_params_read(json: JsonView) -> JsonView {
    JsonView::Object(
        and_some(
            fields().push(
                ("progressToken"@, JsonView::Text(text_of(field_view(json, "progressToken"@, 0)))),
            ).push(("progress"@, float_said(field_view(json, "progress"@, 1)))).push(
                ("total"@, float_said(field_view(json, "total"@, 2))),
            ),
            "message"@,
            some_text(optional_text(field_view(json, "message"@, 3))),
        ),
    )
}

/// Whether a document is a progress notification.
pub open spec fn is_progress_notification(json: JsonView) -> bool {
    is_notification(json) && is_progress_params(field_view(json, "params"@, 2)->0)
}

/// What a document shows of a progress notification, and nothing besides.
pub open spec fn progress_notification_read(json: JsonView) -> JsonView {
    notification_read(json, progress_params_read(field_view(json, "params"@, 2)->0))
}

/// Whether a document says how an OAuth flow ended.
pub open spec fn is_oauth_params(json: JsonView) -> bool {
    &&& is_record(json, 4, 4)
    &&& is_text(field_view(json, "provider"@, 0))
    &&& field_view(json, "success"@, 1) matches Some(JsonView::Bool(_))
    &&& is_text(field_view(json, "message"@, 2))
    &&& is_optional_text(field_view(json, "user_id"@, 3))
}

/// What a document shows of how an OAuth flow ended, and nothing besides.
pub open spec fn oauth_params_read(json: JsonView) -> JsonView {
    JsonView::Object(
        and_some(
            fields().push(("provider"@, JsonView::Text(text_of(field_view(json, "provider"@, 0))))).push(
                ("success"@, field_view(json, "success"@, 1)->0),
            ).push(("message"@, JsonView::Text(text_of(field_view(json, "message"@, 2))))),
            "user_id"@,
            some_text(optional_text(field_view(json, "user_id"@, 3))),
        ),
    )
}

/// Whether a document is a notification that an OAuth flow ended.
pub open spec fn is_oauth_notification(json: JsonView) -> bool {
    is_notification(json) && is_oauth_params(field_view(json, "params"@, 2)->0)
}

/// What a document shows of such a notification, and nothing besides.
pub open spec fn oauth_notification_read(json: JsonView) -> JsonView {
    notification_read(json, oauth_params_read(field_view(json, "params"@, 2)->0))
}

fn read_notification(json: &Json) -> (parts: Option<(String, String, &Json)>)
    ensures
        match parts {
            Some(parts) => is_notification(json@) && parts.0@ == text_of(
                field_view(json@, "jsonrpc"@, 0),
            ) && parts.1@ == text_of(field_view(json@, "method"@, 1)) && field_view(
                json@,
                "params"@,
                2,
            ) == Some(parts.2@),
            None => !is_notification(json@),
        },
{
    if !check_record(json, 3, 3) {
        return None;
    }
    match (
        read_text(field(json, "jsonrpc", 0)),
        read_text(field(json, "method", 1)),
        field(json, "params", 2),
    ) {
        (Some(jsonrpc), Some(method), Some(params)) => Some((jsonrpc, method, params)),
        _ => None,
    }
}

impl ProgressParams {
    /// Reads how far an operation got.
    pub fn from_json(json: &Json) -> (params: Option<Self>)
        ensures
            match params {
                Some(params) => is_progress_params(json@) && params.wire() == progress_params_read(
                    json@,
                ),
                None => !is_progress_params(json@),
            },
    {
        if !check_record(json, 4, 4) {
            return None;
        }
        match (
            read_text(field(json, "progressToken", 0)),
            read_float(field(json, "progress", 1)),
            read_optional_float(field(json, "total", 2)),
            read_optional_text(field(json, "message", 3)),
        ) {
            (Some(progress_token), Some(progress), Some(total), Some(message)) => Some(
                ProgressParams { progress_token, progress, total, message },
            ),
            _ => None,
        }
    }
}

impl ProgressNotification {
    /// Reads a progress notification.
    pub fn from_json(json: &Json) -> (notification: Option<Self>)
        ensures
            match notification {
                Some(notification) => is_progress_notification(json@) && notification.wire()
                    == progress_notification_read(json@),
                None => !is_progress_notification(json@),
            },
    {
        match read_notification(json) {
            Some((jsonrpc, method, params)) => match ProgressParams::from_json(params) {
                Some(params) => Some(ProgressNotification { jsonrpc, method, params }),
                None => None,
            },
            None => None,
        }
    }
}

impl OAuthCompletedParams {
    /// Reads how an OAuth flow ended.
    pub fn from_json(json: &Json) -> (params: Option<Self>)
        ensures
            match params {
                Some(params) => is_oauth_params(json@) && params.wire() == oauth_params_read(json@),
                None => !is_oauth_params(json@),
            },
    {
        if !check_record(json, 4, 4) {
            return None;
        }
        match (
            read_text(field(json, "provider", 0)),
            read_bool(field(json, "success", 1)),
            read_text(field(json, "message", 2)),
            read_optional_text(field(json, "user_id", 3)),
        ) {
            (Some(provider), Some(success), Some(message), Some(user_id)) => Some(
                OAuthCompletedParams { provider, success, message, user_id },
            ),
            _ => None,
        }
    }
}

impl OAuthCompletedNotification {
    /// Reads a notification that an OAuth flow ended.
    pub fn from_json(json: &Json) -> (notification: Option<Self>)
        ensures
            match notification {
                Some(notification) => is_oauth_notification(json@) && notification.wire()
                    == oauth_notification_read(json@),
                None => !is_oauth_notification(json@),
            },
    {
        match read_notification(json) {
            Some((jsonrpc, method, params)) => match OAuthCompletedParams::from_json(params) {
                Some(params) => Some(OAuthCompletedNotification { jsonrpc, method, params }),
                None => None,
            },
            None => None,
        }
    }
}

/// The names of a notification's members are distinct.
proof fn lemma_notification_names_differ()
    ensures
        "jsonrpc"@ != "method"@,
        "jsonrpc"@ != "params"@,
        "method"@ != "params"@,
{
    reveal_strlit("jsonrpc");
    reveal_strlit("method");
    reveal_strlit("params");
    assert("jsonrpc"@.len() == 7);
    assert("method"@.len() == 6);
    assert("params"@.len() == 6);
    assert("method"@[0] != "params"@[0]);
}

/// The names of the members that say how far an operation got are distinct.
proof fn lemma_progress_names_differ()
    ensures
        "progressToken"@ != "progress"@,
        "progressToken"@ != "total"@,
        "progressToken"@ != "message"@,
        "progress"@ != "total"@,
        "progress"@ != "message"@,
        "total"@ != "message"@,
{
    reveal_strlit("progressToken");
    reveal_strlit("progress");
    reveal_strlit("total");
    reveal_strlit("message");
    assert("progressToken"@.len() == 13);
    assert("progress"@.len() == 8);
    assert("total"@.len() == 5);
    assert("message"@.len() == 7);
}

/// The names of the members that say how an OAuth flow ended are distinct.
proof fn lemma_oauth_names_differ()
    ensures
        "provider"@ != "success"@,
        "provider"@ != "message"@,
        "provider"@ != "user_id"@,
        "success"@ != "message"@,
        "success"@ != "user_id"@,
        "message"@ != "user_id"@,
{
    reveal_strlit("provider");
    reveal_strlit("success");
    reveal_strlit("message");
    reveal_strlit("user_id");
    assert("provider"@.len() == 8);
    assert("success"@.len() == 7);
    assert("message"@.len() == 7);
    assert("user_id"@.len() == 7);
    assert("success"@[0] != "message"@[0]);
    assert("success"@[0] != "user_id"@[0]);
    assert("message"@[0] != "user_id"@[0]);
}

/// The parts of a notification are found where they were written.
proof fn lemma_notification_parts(jsonrpc: Seq<char>, method: Seq<char>, params: JsonView)
    ensures
        is_notification(notification_json(jsonrpc, method, params)),
        field_view(notification_json(jsonrpc, method, params), "params"@, 2) == Some(params),
        notification_read(notification_json(jsonrpc, method, params), params) == notification_json(
            jsonrpc,
            method,
            params,
        ),
{
    broadcast use group_find_member;

    lemma_notification_names_differ();
    let json = notification_json(jsonrpc, method, params);
    assert(json.member("jsonrpc"@) == Some(JsonView::Text(jsonrpc)));
    assert(json.member("method"@) == Some(JsonView::Text(method)));
    assert(json.member("params"@) == Some(params));
}

/// Reading what was written gives a progress notification back that shows the same.
pub proof fn written_progress_reads_back(notification: ProgressNotification)
    requires
        notification.params.progress is Finite,
    ensures
        is_progress_notification(notification.wire()),
        progress_notification_read(notification.wire()) == notification.wire(),
{
    broadcast use group_find_member;

    lemma_progress_names_differ();
    let params = notification.params;
    let json = params.wire();
    lemma_notification_parts(notification.jsonrpc@, notification.method@, json);
    assert(json.member("progressToken"@) == Some(JsonView::Text(params.progress_token@)));
    assert(json.member("progress"@) == Some(params.progress.wire()));
    assert(json.member("total"@) == Some(float_or_null(params.total)));
    assert(json.member("message"@) == some_text(text_view(params.message)));
}

/// Reading what was written gives a notification back that says the same of an OAuth
/// flow.
pub proof fn written_oauth_reads_back(notification: OAuthCompletedNotification)
    ensures
        is_oauth_notification(notification.wire()),
        oauth_notification_read(notification.wire()) == notification.wire(),
{
    broadcast use group_find_member;

    lemma_oauth_names_differ();
    let params = notification.params;
    let json = params.wire();
    lemma_notification_parts(notification.jsonrpc@, notification.method@, json);
    assert(json.member("provider"@) == Some(JsonView::Text(params.provider@)));
    assert(json.member("success"@) == Some(JsonView::Bool(params.success)));
    assert(json.member("message"@) == Some(JsonView::Text(params.message@)));
    assert(json.member("user_id"@) == some_text(text_view(params.user_id)));
}

// ---------------------------------------------------------------------------
// Sampling
// ---------------------------------------------------------------------------

/// Whether a document is two texts by their names.
pub open spec fn is_two_texts(json: JsonView, first: Seq<char>, second: Seq<char>) -> bool {
    &&& is_record(json, 2, 2)
    &&& is_text(field_view(json, first, 0))
    &&& is_text(field_view(json, second, 1))
}

/// What a document shows of two texts, and nothing besides.
pub open spec fn two_texts_read(json: JsonView, first: Seq<char>, second: Seq<char>) -> JsonView {
    two_texts(
        first,
        text_of(field_view(json, first, 0)),
        second,
        text_of(field_view(json, second, 1)),
    )
}

pub(crate) fn read_two_texts(member: Option<&Json>, first: &str, second: &str) -> (texts: Option<
    (String, String),
>)
    ensures
        match texts {
            Some(texts) => view_of(member) matches Some(json) && is_two_texts(json, first@, second@)
                && texts.0@ == text_of(field_view(json, first@, 0)) && texts.1@ == text_of(
                field_view(json, second@, 1),
            ),
            None => !(view_of(member) matches Some(json) && is_two_texts(json, first@, second@)),
        },
{
    let json = match member {
        Some(json) => json,
        None => {
            return None;
        },
    };
    if !check_record(json, 2, 2) {
        return None;
    }
    match (read_text(field(json, first, 0)), read_text(field(json, second, 1))) {
        (Some(a), Some(b)) => Some((a, b)),
        _ => None,
    }
}

/// Two texts are found where they were written.
pub(crate) proof fn lemma_two_texts(first: Seq<char>, a: Seq<char>, second: Seq<char>, b: Seq<char>)
    requires
        first != second,
    ensures
        is_two_texts(two_texts(first, a, second, b), first, second),
        two_texts_read(two_texts(first, a, second, b), first, second) == two_texts(
            first,
            a,
            second,
            b,
        ),
{
    broadcast use group_find_member;

    let json = two_texts(first, a, second, b);
    assert(json.member(first) == Some(JsonView::Text(a)));
    assert(json.member(second) == Some(JsonView::Text(b)));
}

/// Whether a document is what a model said.
pub open spec fn is_message_result(json: JsonView) -> bool {
    &&& is_record(json, 4, 4)
    &&& is_text(field_view(json, "role"@, 0))
    &&& field_view(json, "content"@, 1) matches Some(content) && is_two_texts(
        content,
        "type"@,
        "text"@,
    )
    &&& is_text(field_view(json, "model"@, 2))
    &&& is_optional_text(field_view(json, "stopReason"@, 3))
}

/// What a document shows of what a model said, and nothing besides.
pub open spec fn message_result_read(json: JsonView) -> JsonView {
    JsonView::Object(
        and_some(
            fields().push(("role"@, JsonView::Text(text_of(field_view(json, "role"@, 0))))).push(
                ("content"@, two_texts_read(field_view(json, "content"@, 1)->0, "type"@, "text"@)),
            ).push(("model"@, JsonView::Text(text_of(field_view(json, "model"@, 2))))),
            "stopReason"@,
            some_text(optional_text(field_view(json, "stopReason"@, 3))),
        ),
    )
}

impl CreateMessageResult {
    /// Reads what a model said.
    pub fn from_json(json: &Json) -> (result: Option<Self>)
        ensures
            match result {
                Some(result) => is_message_result(json@) && result.wire() == message_result_read(
                    json@,
                ),
                None => !is_message_result(json@),
            },
    {
        if !check_record(json, 4, 4) {
            return None;
        }
        match (
            read_text(field(json, "role", 0)),
            read_two_texts(field(json, "content", 1), "type", "text"),
            read_text(field(json, "model", 2)),
            read_optional_text(field(json, "stopReason", 3)),
        ) {
            (Some(role), Some((content_type, text)), Some(model), Some(stop_reason)) => Some(
                CreateMessageResult {
                    role,
                    content: MessageContent { content_type, text },
                    model,
                    stop_reason,
                },
            ),
            _ => None,
        }
    }
}

/// The names of the members of what a model said are distinct.
proof fn lemma_result_names_differ()
    ensures
        "role"@ != "content"@,
        "role"@ != "model"@,
        "role"@ != "stopReason"@,
        "role"@ != "type"@,
        "role"@ != "text"@,
        "content"@ != "model"@,
        "content"@ != "stopReason"@,
        "content"@ != "type"@,
        "content"@ != "text"@,
        "model"@ != "stopReason"@,
        "model"@ != "type"@,
        "model"@ != "text"@,
        "stopReason"@ != "type"@,
        "stopReason"@ != "text"@,
        "type"@ != "text"@,
{
    reveal_strlit("role");
    reveal_strlit("content");
    reveal_strlit("model");
    reveal_strlit("stopReason");
    reveal_strlit("type");
    reveal_strlit("text");
    assert("role"@.len() == 4);
    assert("content"@.len() == 7);
    assert("model"@.len() == 5);
    assert("stopReason"@.len() == 10);
    assert("type"@.len() == 4);
    assert("text"@.len() == 4);
    assert("role"@[0] != "type"@[0]);
    assert("role"@[0] != "text"@[0]);
    assert("type"@[1] != "text"@[1]);
}

/// Reading what was written gives back what a model said.
pub proof fn written_message_result_reads_back(result: CreateMessageResult)
    ensures
        is_message_result(result.wire()),
        message_result_read(result.wire()) == result.wire(),
{
    broadcast use group_find_member;

    lemma_result_names_differ();
    let json = result.wire();
    let content = two_texts("type"@, result.content.content_type@, "text"@, result.content.text@);
    lemma_two_texts("type"@, result.content.content_type@, "text"@, result.content.text@);
    assert(json.member("role"@) == Some(JsonView::Text(result.role@)));
    assert(json.member("content"@) == Some(content));
    assert(json.member("model"@) == Some(JsonView::Text(result.model@)));
    assert(json.member("stopReason"@) == some_text(text_view(result.stop_reason)));
}

/// Whether a document is a message of a prompt.
pub open spec fn is_prompt_message(json: JsonView) -> bool {
    &&& is_record(json, 2, 2)
    &&& is_text(field_view(json, "role"@, 0))
    &&& field_view(json, "content"@, 1) matches Some(content) && is_content(content)
}

/// What a document shows of a message of a prompt, and nothing besides.
pub open spec fn prompt_message_read(json: JsonView) -> JsonView {
    JsonView::Object(
        fields().push(("role"@, JsonView::Text(text_of(field_view(json, "role"@, 0))))).push(
            ("content"@, content_read(field_view(json, "content"@, 1)->0)),
        ),
    )
}

impl PromptMessage {
    /// Reads a message of a prompt.
    pub fn from_json(json: &Json) -> (message: Option<Self>)
        ensures
            match message {
                Some(message) => is_prompt_message(json@) && message.wire() == prompt_message_read(
                    json@,
                ),
                None => !is_prompt_message(json@),
            },
    {
        if !check_record(json, 2, 2) {
            return None;
        }
        match (read_text(field(json, "role", 0)), field(json, "content", 1)) {
            (Some(role), Some(content)) => match Content::from_json(content) {
                Some(content) => Some(PromptMessage { role, content }),
                None => None,
            },
            _ => None,
        }
    }
}

/// Reading what was written gives a message of a prompt back that shows the same.
pub proof fn written_prompt_message_reads_back(message: PromptMessage)
    requires
        message.content.is_finite(),
    ensures
        is_prompt_message(message.wire()),
        prompt_message_read(message.wire()) == message.wire(),
{
    broadcast use group_find_member;

    lemma_result_names_differ();
    written_content_reads_back(message.content);
    let json = message.wire();
    assert(json.member("role"@) == Some(JsonView::Text(message.role@)));
    assert(json.member("content"@) == Some(message.content.wire()));
}

// ---------------------------------------------------------------------------
// Completion
// ---------------------------------------------------------------------------

/// Whether a document is a request for suggestions.
pub open spec fn is_complete_request(json: JsonView) -> bool {
    &&& is_record(json, 2, 2)
    &&& field_view(json, "ref"@, 0) matches Some(reference) && is_two_texts(
        reference,
        "type"@,
        "name"@,
    )
    &&& field_view(json, "argument"@, 1) matches Some(argument) && is_two_texts(
        argument,
        "name"@,
        "value"@,
    )
}

/// What a document shows of a request for suggestions, and nothing besides.
pub open spec fn complete_request_read(json: JsonView) -> JsonView {
    JsonView::Object(
        fields().push(
            ("ref"@, two_texts_read(field_view(json, "ref"@, 0)->0, "type"@, "name"@)),
        ).push(
            ("argument"@, two_texts_read(field_view(json, "argument"@, 1)->0, "name"@, "value"@)),
        ),
    )
}

impl CompleteRequest {
    /// Reads a request for suggestions.
    pub fn from_json(json: &Json) -> (request: Option<Self>)
        ensures
            match request {
                Some(request) => is_complete_request(json@) && request.wire()
                    == complete_request_read(json@),
                None => !is_complete_request(json@),
            },
    {
        if !check_record(json, 2, 2) {
            return None;
        }
        match (
            read_two_texts(field(json, "ref", 0), "type", "name"),
            read_two_texts(field(json, "argument", 1), "name", "value"),
        ) {
            (Some((type_, ref_name)), Some((name, value))) => Some(
                CompleteRequest {
                    ref_: CompletionReference { type_, name: ref_name },
                    argument: ArgumentValue { name, value },
                },
            ),
            _ => None,
        }
    }
}

/// The names of the members of a request for suggestions are distinct.
proof fn lemma_completion_names_differ()
    ensures
        "ref"@ != "argument"@,
        "ref"@ != "type"@,
        "ref"@ != "name"@,
        "ref"@ != "value"@,
        "argument"@ != "type"@,
        "argument"@ != "name"@,
        "argument"@ != "value"@,
        "type"@ != "name"@,
        "type"@ != "value"@,
        "name"@ != "value"@,
{
    reveal_strlit("ref");
    reveal_strlit("argument");
    reveal_strlit("type");
    reveal_strlit("name");
    reveal_strlit("value");
    assert("ref"@.len() == 3);
    assert("argument"@.len() == 8);
    assert("type"@.len() == 4);
    assert("name"@.len() == 4);
    assert("value"@.len() == 5);
    assert("type"@[0] != "name"@[0]);
}

/// Reading what was written gives a request for suggestions back that asks the same.
pub proof fn written_complete_request_reads_back(request: CompleteRequest)
    ensures
        is_complete_request(request.wire()),
        complete_request_read(request.wire()) == request.wire(),
{
    broadcast use group_find_member;

    lemma_completion_names_differ();
    let json = request.wire();
    let reference = two_texts("type"@, request.ref_.type_@, "name"@, request.ref_.name@);
    let argument = two_texts("name"@, request.argument.name@, "value"@, request.argument.value@);
    lemma_two_texts("type"@, request.ref_.type_@, "name"@, request.ref_.name@);
    lemma_two_texts("name"@, request.argument.name@, "value"@, request.argument.value@);
    assert(json.member("ref"@) == Some(reference));
    assert(json.member("argument"@) == Some(argument));
}

// ---------------------------------------------------------------------------
// Capabilities
// ---------------------------------------------------------------------------

/// A capability that says nothing but that it is there, where it is.
pub open spec fn bare_said(member: Option<JsonView>) -> Option<JsonView> {
    match optional(member) {
        Some(_) => Some(bare()),
        None => None,
    }
}

/// Whether an optional field is absent, `null`, or a capability whose one member says
/// whether changes are announced.
pub open spec fn is_optional_announcing(member: Option<JsonView>) -> bool {
    match optional(member) {
        None => true,
        Some(json) => is_record(json, 1, 1) && is_optional_bool(field_view(json, "listChanged"@, 0)),
    }
}

/// What an optional field shows of such a capability.
pub open spec fn announcing_said(member: Option<JsonView>) -> Option<JsonView> {
    match optional(member) {
        Some(json) => Some(list_changed_json(optional_bool(field_view(json, "listChanged"@, 0)))),
        None => None,
    }
}

/// Whether a document says how resources are supported.
pub open spec fn is_resources(json: JsonView) -> bool {
    &&& is_record(json, 2, 2)
    &&& is_optional_bool(field_view(json, "subscribe"@, 0))
    &&& is_optional_bool(field_view(json, "listChanged"@, 1))
}

/// What a document shows of how resources are supported, and nothing besides.
pub open spec fn resources_read(json: JsonView) -> JsonView {
    JsonView::Object(
        and_some(
            and_some(
                fields(),
                "subscribe"@,
                some_bool(optional_bool(field_view(json, "subscribe"@, 0))),
            ),
            "listChanged"@,
            some_bool(optional_bool(field_view(json, "listChanged"@, 1))),
        ),
    )
}

/// Whether a document holds OAuth 2.0 details.
pub open spec fn is_oauth2(json: JsonView) -> bool {
    &&& is_record(json, 4, 4)
    &&& is_text(field_view(json, "discoveryUrl"@, 0))
    &&& is_text(field_view(json, "authorizationEndpoint"@, 1))
    &&& is_text(field_view(json, "tokenEndpoint"@, 2))
    &&& is_text(field_view(json, "registrationEndpoint"@, 3))
}

/// What a document shows of OAuth 2.0 details, and nothing besides.
pub open spec fn oauth2_read(json: JsonView) -> JsonView {
    JsonView::Object(
        fields().push(
            ("discoveryUrl"@, JsonView::Text(text_of(field_view(json, "discoveryUrl"@, 0)))),
        ).push(
            (
                "authorizationEndpoint"@,
                JsonView::Text(text_of(field_view(json, "authorizationEndpoint"@, 1))),
            ),
        ).push(("tokenEndpoint"@, JsonView::Text(text_of(field_view(json, "tokenEndpoint"@, 2))))).push(
            (
                "registrationEndpoint"@,
                JsonView::Text(text_of(field_view(json, "registrationEndpoint"@, 3))),
            ),
        ),
    )
}

/// Whether an optional field is absent, `null`, or OAuth 2.0 details.
pub open spec fn is_optional_oauth2(member: Option<JsonView>) -> bool {
    optional(member) matches Some(json) ==> is_oauth2(json)
}

/// What an optional field shows of OAuth 2.0 details.
pub open spec fn oauth2_said(member: Option<JsonView>) -> Option<JsonView> {
    match optional(member) {
        Some(json) => Some(oauth2_read(json)),
        None => None,
    }
}

/// Whether a document says how authentication is supported.
pub open spec fn is_auth(json: JsonView) -> bool {
    is_record(json, 1, 1) && is_optional_oauth2(field_view(json, "oauth2"@, 0))
}

/// What a document shows of how authentication is supported, and nothing besides.
pub open spec fn auth_read(json: JsonView) -> JsonView {
    JsonView::Object(and_some(fields(), "oauth2"@, oauth2_said(field_view(json, "oauth2"@, 0))))
}

/// Whether a document says what a server can do.
pub open spec fn is_server_capabilities(json: JsonView) -> bool {
    &&& is_record(json, 10, 10)
    &&& is_optional_map(field_view(json, "experimental"@, 0))
    &&& is_optional_bare(field_view(json, "logging"@, 1))
    &&& is_optional_announcing(field_view(json, "prompts"@, 2))
    &&& optional(field_view(json, "resources"@, 3)) matches Some(member) ==> is_resources(member)
    &&& is_optional_announcing(field_view(json, "tools"@, 4))
    &&& optional(field_view(json, "auth"@, 5)) matches Some(member) ==> is_auth(member)
    &&& is_optional_oauth2(field_view(json, "oauth2"@, 6))
    &&& is_optional_bare(field_view(json, "completion"@, 7))
    &&& is_optional_bare(field_view(json, "sampling"@, 8))
    &&& is_optional_map(field_view(json, "extensions"@, 9))
}

/// What a document shows of what a server can do, and nothing besides.
pub open spec fn server_capabilities_read(json: JsonView) -> JsonView {
    let a = and_some(fields(), "experimental"@, optional_map(field_view(json, "experimental"@, 0)));
    let b = and_some(a, "logging"@, bare_said(field_view(json, "logging"@, 1)));
    let c = and_some(b, "prompts"@, announcing_said(field_view(json, "prompts"@, 2)));
    let d = and_some(
        c,
        "resources"@,
        match optional(field_view(json, "resources"@, 3)) {
            Some(member) => Some(resources_read(member)),
            None => None,
        },
    );
    let e = and_some(d, "tools"@, announcing_said(field_view(json, "tools"@, 4)));
    let f = and_some(
        e,
        "auth"@,
        match optional(field_view(json, "auth"@, 5)) {
            Some(member) => Some(auth_read(member)),
            None => None,
        },
    );
    let g = and_some(f, "oauth2"@, oauth2_said(field_view(json, "oauth2"@, 6)));
    let h = and_some(g, "completion"@, bare_said(field_view(json, "completion"@, 7)));
    let i = and_some(h, "sampling"@, bare_said(field_view(json, "sampling"@, 8)));
    JsonView::Object(
        and_some(i, "extensions"@, optional_map(field_view(json, "extensions"@, 9))),
    )
}

/// The field, unless it is `null`.
pub(crate) fn present<'a>(member: Option<&'a Json>) -> (json: Option<&'a Json>)
    ensures
        view_of(json) == optional(view_of(member)),
{
    match member {
        None => None,
        Some(json) => match json {
            Json::Null => None,
            other => Some(other),
        },
    }
}

fn read_bare(member: Option<&Json>) -> (there: Option<bool>)
    ensures
        match there {
            Some(there) => is_optional_bare(view_of(member)) && bare_said(view_of(member)) == (
            if there {
                Some(bare())
            } else {
                None
            }),
            None => !is_optional_bare(view_of(member)),
        },
{
    match present(member) {
        None => Some(false),
        Some(json) => if check_record(json, 0, 0) {
            Some(true)
        } else {
            None
        },
    }
}

fn read_announcing(member: Option<&Json>) -> (flag: Option<Option<Option<bool>>>)
    ensures
        match flag {
            Some(flag) => is_optional_announcing(view_of(member)) && announcing_said(
                view_of(member),
            ) == match flag {
                Some(list_changed) => Some(list_changed_json(list_changed)),
                None => None,
            },
            None => !is_optional_announcing(view_of(member)),
        },
{
    match present(member) {
        None => Some(None),
        Some(json) => {
            if !check_record(json, 1, 1) {
                return None;
            }
            match read_flag(field(json, "listChanged", 0)) {
                Some(list_changed) => Some(Some(list_changed)),
                None => None,
            }
        },
    }
}

impl ResourcesCapability {
    /// Reads how resources are supported.
    pub fn from_json(json: &Json) -> (resources: Option<Self>)
        ensures
            match resources {
                Some(resources) => is_resources(json@) && resources.wire() == resources_read(json@),
                None => !is_resources(json@),
            },
    {
        if !check_record(json, 2, 2) {
            return None;
        }
        match (read_flag(field(json, "subscribe", 0)), read_flag(field(json, "listChanged", 1))) {
            (Some(subscribe), Some(list_changed)) => Some(
                ResourcesCapability { subscribe, list_changed },
            ),
            _ => None,
        }
    }
}

impl OAuth2Capability {
    /// Reads OAuth 2.0 details.
    pub fn from_json(json: &Json) -> (oauth2: Option<Self>)
        ensures
            match oauth2 {
                Some(oauth2) => is_oauth2(json@) && oauth2.wire() == oauth2_read(json@),
                None => !is_oauth2(json@),
            },
    {
        if !check_record(json, 4, 4) {
            return None;
        }
        match (
            read_text(field(json, "discoveryUrl", 0)),
            read_text(field(json, "authorizationEndpoint", 1)),
            read_text(field(json, "tokenEndpoint", 2)),
            read_text(field(json, "registrationEndpoint", 3)),
        ) {
            (
                Some(discovery_url),
                Some(authorization_endpoint),
                Some(token_endpoint),
                Some(registration_endpoint),
            ) => Some(
                OAuth2Capability {
                    discovery_url,
                    authorization_endpoint,
                    token_endpoint,
                    registration_endpoint,
                },
            ),
            _ => None,
        }
    }
}

fn read_oauth2(member: Option<&Json>) -> (oauth2: Option<Option<OAuth2Capability>>)
    ensures
        match oauth2 {
            Some(oauth2) => is_optional_oauth2(view_of(member)) && some_oauth2(oauth2)
                == oauth2_said(view_of(member)),
            None => !is_optional_oauth2(view_of(member)),
        },
{
    match present(member) {
        None => Some(None),
        Some(json) => match OAuth2Capability::from_json(json) {
            Some(oauth2) => Some(Some(oauth2)),
            None => None,
        },
    }
}

impl AuthCapability {
    /// Reads how authentication is supported.
    pub fn from_json(json: &Json) -> (auth: Option<Self>)
        ensures
            match auth {
                Some(auth) => is_auth(json@) && auth.wire() == auth_read(json@),
                None => !is_auth(json@),
            },
    {
        if !check_record(json, 1, 1) {
            return None;
        }
        match read_oauth2(field(json, "oauth2", 0)) {
            Some(oauth2) => Some(AuthCapability { oauth2 }),
            None => None,
        }
    }
}

impl ServerCapabilities {
    /// Reads what a server can do.
    pub fn from_json(json: &Json) -> (capabilities: Option<Self>)
        ensures
            match capabilities {
                Some(capabilities) => is_server_capabilities(json@) && capabilities.wire()
                    == server_capabilities_read(json@),
                None => !is_server_capabilities(json@),
            },
    {
        if !check_record(json, 10, 10) {
            return None;
        }
        let resources = match present(field(json, "resources", 3)) {
            None => None,
            Some(member) => match ResourcesCapability::from_json(member) {
                Some(resources) => Some(resources),
                None => {
                    return None;
                },
            },
        };
        let auth = match present(field(json, "auth", 5)) {
            None => None,
            Some(member) => match AuthCapability::from_json(member) {
                Some(auth) => Some(auth),
                None => {
                    return None;
                },
            },
        };
        let maps = (
            read_optional_map(field(json, "experimental", 0)),
            read_optional_map(field(json, "extensions", 9)),
        );
        let bares = (
            read_bare(field(json, "logging", 1)),
            read_bare(field(json, "completion", 7)),
            read_bare(field(json, "sampling", 8)),
        );
        match (
            maps,
            bares,
            read_announcing(field(json, "prompts", 2)),
            read_announcing(field(json, "tools", 4)),
            read_oauth2(field(json, "oauth2", 6)),
        ) {
            (
                (Some(experimental), Some(extensions)),
                (Some(logging), Some(completion), Some(sampling)),
                Some(prompts),
                Some(tools),
                Some(oauth2),
            ) => Some(
                ServerCapabilities {
                    experimental,
                    logging: if logging {
                        Some(LoggingCapability {  })
                    } else {
                        None
                    },
                    prompts: match prompts {
                        Some(list_changed) => Some(PromptsCapability { list_changed }),
                        None => None,
                    },
                    resources,
                    tools: match tools {
                        Some(list_changed) => Some(ToolsCapability { list_changed }),
                        None => None,
                    },
                    auth,
                    oauth2,
                    completion: if completion {
                        Some(CompletionCapability {  })
                    } else {
                        None
                    },
                    sampling: if sampling {
                        Some(SamplingCapability {  })
                    } else {
                        None
                    },
                    extensions,
                },
            ),
            _ => None,
        }
    }
}

/// The names of a server's capabilities are distinct.
proof fn lemma_capability_names_differ()
    ensures
        "experimental"@ != "logging"@,
        "experimental"@ != "prompts"@,
        "experimental"@ != "resources"@,
        "experimental"@ != "tools"@,
        "experimental"@ != "auth"@,
        "experimental"@ != "oauth2"@,
        "experimental"@ != "completion"@,
        "experimental"@ != "sampling"@,
        "experimental"@ != "extensions"@,
        "logging"@ != "prompts"@,
        "logging"@ != "resources"@,
        "logging"@ != "tools"@,
        "logging"@ != "auth"@,
        "logging"@ != "oauth2"@,
        "logging"@ != "completion"@,
        "logging"@ != "sampling"@,
        "logging"@ != "extensions"@,
        "prompts"@ != "resources"@,
        "prompts"@ != "tools"@,
        "prompts"@ != "auth"@,
        "prompts"@ != "oauth2"@,
        "prompts"@ != "completion"@,
        "prompts"@ != "sampling"@,
        "prompts"@ != "extensions"@,
        "resources"@ != "tools"@,
        "resources"@ != "auth"@,
        "resources"@ != "oauth2"@,
        "resources"@ != "completion"@,
        "resources"@ != "sampling"@,
        "resources"@ != "extensions"@,
        "tools"@ != "auth"@,
        "tools"@ != "oauth2"@,
        "tools"@ != "completion"@,
        "tools"@ != "sampling"@,
        "tools"@ != "extensions"@,
        "auth"@ != "oauth2"@,
        "auth"@ != "completion"@,
        "auth"@ != "sampling"@,
        "auth"@ != "extensions"@,
        "oauth2"@ != "completion"@,
        "oauth2"@ != "sampling"@,
        "oauth2"@ != "extensions"@,
        "completion"@ != "sampling"@,
        "completion"@ != "extensions"@,
        "sampling"@ != "extensions"@,
{
    reveal_strlit("experimental");
    reveal_strlit("logging");
    reveal_strlit("prompts");
    reveal_strlit("resources");
    reveal_strlit("tools");
    reveal_strlit("auth");
    reveal_strlit("oauth2");
    reveal_strlit("completion");
    reveal_strlit("sampling");
    reveal_strlit("extensions");
    assert("experimental"@.len() == 12);
    assert("logging"@.len() == 7);
    assert("prompts"@.len() == 7);
    assert("resources"@.len() == 9);
    assert("tools"@.len() == 5);
    assert("auth"@.len() == 4);
    assert("oauth2"@.len() == 6);
    assert("completion"@.len() == 10);
    assert("sampling"@.len() == 8);
    assert("extensions"@.len() == 10);
    assert("logging"@[0] != "prompts"@[0]);
    assert("completion"@[0] != "extensions"@[0]);
}

/// The names of the members of OAuth 2.0 details are distinct.
proof fn lemma_oauth2_names_differ()
    ensures
        "discoveryUrl"@ != "authorizationEndpoint"@,
        "discoveryUrl"@ != "tokenEndpoint"@,
        "discoveryUrl"@ != "registrationEndpoint"@,
        "authorizationEndpoint"@ != "tokenEndpoint"@,
        "authorizationEndpoint"@ != "registrationEndpoint"@,
        "tokenEndpoint"@ != "registrationEndpoint"@,
{
    reveal_strlit("discoveryUrl");
    reveal_strlit("authorizationEndpoint");
    reveal_strlit("tokenEndpoint");
    reveal_strlit("registrationEndpoint");
    assert("discoveryUrl"@.len() == 12);
    assert("authorizationEndpoint"@.len() == 21);
    assert("tokenEndpoint"@.len() == 13);
    assert("registrationEndpoint"@.len() == 20);
}

/// Reading what was written gives OAuth 2.0 details back that say the same.
pub proof fn written_oauth2_reads_back(oauth2: OAuth2Capability)
    ensures
        is_oauth2(oauth2.wire()),
        oauth2_read(oauth2.wire()) == oauth2.wire(),
{
    broadcast use group_find_member;

    lemma_oauth2_names_differ();
    let json = oauth2.wire();
    assert(json.member("discoveryUrl"@) == Some(JsonView::Text(oauth2.discovery_url@)));
    assert(json.member("authorizationEndpoint"@) == Some(
        JsonView::Text(oauth2.authorization_endpoint@),
    ));
    assert(json.member("tokenEndpoint"@) == Some(JsonView::Text(oauth2.token_endpoint@)));
    assert(json.member("registrationEndpoint"@) == Some(
        JsonView::Text(oauth2.registration_endpoint@),
    ));
}

/// A capability that says whether changes are announced is read back.
proof fn lemma_announcing_reads_back(list_changed: Option<bool>)
    ensures
        is_optional_announcing(Some(list_changed_json(list_changed))),
        announcing_said(Some(list_changed_json(list_changed))) == Some(
            list_changed_json(list_changed),
        ),
{
    broadcast use group_find_member;

    let json = list_changed_json(list_changed);
    assert(json.member("listChanged"@) == some_bool(list_changed));
}

/// How resources are supported is read back.
proof fn lemma_resources_read_back(resources: ResourcesCapability)
    ensures
        is_resources(resources.wire()),
        resources_read(resources.wire()) == resources.wire(),
{
    broadcast use group_find_member;

    reveal_strlit("subscribe");
    reveal_strlit("listChanged");
    assert("subscribe"@.len() != "listChanged"@.len());
    let json = resources.wire();
    assert(json.member("subscribe"@) == some_bool(resources.subscribe));
    assert(json.member("listChanged"@) == some_bool(resources.list_changed));
}

/// How authentication is supported is read back.
proof fn lemma_auth_reads_back(auth: AuthCapability)
    ensures
        is_auth(auth.wire()),
        auth_read(auth.wire()) == auth.wire(),
{
    broadcast use group_find_member;

    let json = auth.wire();
    assert(json.member("oauth2"@) == some_oauth2(auth.oauth2));
    match auth.oauth2 {
        Some(oauth2) => {
            written_oauth2_reads_back(oauth2);
        },
        None => {},
    }
}

/// The capabilities whose members are not fixed are found where they were written.
pub(crate) proof fn lemma_plain_capabilities_found(able: ServerCapabilities)
    ensures
        able.wire().member("experimental"@) == some_object(able.experimental),
        able.wire().member("logging"@) == (if able.logging is Some { Some(bare()) } else { None }),
        able.wire().member("completion"@) == (if able.completion is Some { Some(bare()) } else { None }),
        able.wire().member("sampling"@) == (if able.sampling is Some { Some(bare()) } else { None }),
        able.wire().member("extensions"@) == some_object(able.extensions),
{
    broadcast use group_find_apart;

    lemma_capability_names_differ();
}

/// The others are found where they were written.
pub(crate) proof fn lemma_detailed_capabilities_found(able: ServerCapabilities)
    ensures
        able.wire().member("prompts"@) == match able.prompts {
            Some(prompts) => Some(list_changed_json(prompts.list_changed)),
            None => None,
        },
        able.wire().member("resources"@) == match able.resources {
            Some(resources) => Some(resources.wire()),
            None => None,
        },
        able.wire().member("tools"@) == match able.tools {
            Some(tools) => Some(list_changed_json(tools.list_changed)),
            None => None,
        },
        able.wire().member("auth"@) == match able.auth {
            Some(auth) => Some(auth.wire()),
            None => None,
        },
        able.wire().member("oauth2"@) == some_oauth2(able.oauth2),
{
    broadcast use group_find_apart;

    lemma_capability_names_differ();
}

/// Reading what was written gives capabilities back that say the same.
pub proof fn written_server_capabilities_read_back(able: ServerCapabilities)
    ensures
        is_server_capabilities(able.wire()),
        server_capabilities_read(able.wire()) == able.wire(),
{
    lemma_plain_capabilities_found(able);
    lemma_detailed_capabilities_found(able);
    match able.prompts {
        Some(prompts) => {
            lemma_announcing_reads_back(prompts.list_changed);
        },
        None => {},
    }
    match able.resources {
        Some(resources) => {
            lemma_resources_read_back(resources);
        },
        None => {},
    }
    match able.tools {
        Some(tools) => {
            lemma_announcing_reads_back(tools.list_changed);
        },
        None => {},
    }
    match able.auth {
        Some(auth) => {
            lemma_auth_reads_back(auth);
        },
        None => {},
    }
    match able.oauth2 {
        Some(oauth2) => {
            written_oauth2_reads_back(oauth2);
        },
        None => {},
    }
}

} // verus!
