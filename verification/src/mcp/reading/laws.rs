//! What is read out of every document: what stands there, and nothing else.

use vstd::prelude::*;

use crate::json::{group_find_apart, group_find_member, signed_view, JsonView, NumberView};
use crate::mcp::reading::handshake::{
    error_of, initialize_response_read, is_initialize_response, is_server_info, response_of,
    server_info_read,
};
use crate::mcp::reading::sampling::{
    complete_result_read, completion_read, is_complete_result, is_completion, is_optional_hints,
    is_preferences,
};
use crate::mcp::reading::{
    announcing_said, auth_read, complete_request_read, content_read, float_said, is_auth,
    is_complete_request, is_content, is_message_result, is_oauth2, is_oauth_notification,
    is_oauth_params, is_optional_announcing, is_progress_notification, is_progress_params,
    is_prompt_message, is_resources, is_server_capabilities, is_tool_response, is_two_texts,
    message_result_read, oauth2_read, oauth_notification_read, oauth_params_read,
    progress_notification_read, progress_params_read, prompt_message_read, resources_read,
    server_capabilities_read, tool_response_read, two_texts_read,
};
use crate::mcp::schema::{annotations_read, is_annotations, is_tool, tool_read};

verus! {

/// A member, where it is there and not `null`.
pub open spec fn unless_null(member: Option<JsonView>) -> Option<JsonView> {
    match member {
        Some(value) => if value is Null {
            None
        } else {
            Some(value)
        },
        None => None,
    }
}

/// Who a server is, is read as it stands.
pub proof fn who_a_server_is_is_read_as_it_stands(json: JsonView)
    requires
        json is Object,
        is_server_info(json),
    ensures
        ({
            let shown = server_info_read(json);
            &&& shown.member("name"@) == json.member("name"@)
            &&& shown.member("version"@) == json.member("version"@)
            &&& shown.member("title"@) == unless_null(json.member("title"@))
            &&& shown.member("description"@) == unless_null(json.member("description"@))
            &&& shown.member("websiteUrl"@) == unless_null(json.member("websiteUrl"@))
        }),
{
    broadcast use group_find_member;

    lemma_name_and_version();
}

/// Hints are read as they stand.
pub proof fn hints_are_read_as_they_stand(json: JsonView)
    requires
        json is Object,
        is_annotations(json),
    ensures
        ({
            let shown = annotations_read(json);
            &&& shown.member("title"@) == unless_null(json.member("title"@))
            &&& shown.member("readOnlyHint"@) == unless_null(json.member("readOnlyHint"@))
            &&& shown.member("destructiveHint"@) == unless_null(json.member("destructiveHint"@))
            &&& shown.member("idempotentHint"@) == unless_null(json.member("idempotentHint"@))
            &&& shown.member("openWorldHint"@) == unless_null(json.member("openWorldHint"@))
        }),
{
    broadcast use group_find_member;

    lemma_title_and_read_only_hint();
}

/// A tool is read as it stands.
pub proof fn tools_are_read_as_they_stand(json: JsonView)
    requires
        json is Object,
        is_tool(json),
    ensures
        ({
            let shown = tool_read(json);
            &&& shown.member("name"@) == json.member("name"@)
            &&& shown.member("description"@) == json.member("description"@)
            &&& shown.member("inputSchema"@) == json.member("inputSchema"@)
            &&& shown.member("outputSchema"@) == unless_null(json.member("outputSchema"@))
            &&& shown.member("annotations"@) == match unless_null(json.member("annotations"@)) {
                Some(value) => Some(annotations_read(value)),
                None => None,
            }
            &&& shown.member("execution"@) is Some <==> unless_null(json.member("execution"@)) is Some
        }),
{
    broadcast use group_find_member;

    lemma_name_and_description();
}

/// An item is read as it stands, as far as its kind goes.
pub proof fn items_are_read_as_they_stand(json: JsonView)
    requires
        json is Object,
        is_content(json),
    ensures
        ({
            let shown = content_read(json);
            let kind = json.member("type"@);
            &&& shown.member("type"@) == kind
            &&& kind == Some(JsonView::Text("text"@)) ==> shown.member("text"@) == json.member("text"@)
            &&& kind == Some(JsonView::Text("image"@)) ==> shown.member("data"@) == json.member(
                "data"@,
            ) && shown.member("mimeType"@) == json.member("mimeType"@)
            &&& kind == Some(JsonView::Text("resource"@)) ==> shown.member("uri"@) == json.member(
                "uri"@,
            ) && shown.member("text"@) == unless_null(json.member("text"@)) && shown.member(
                "mimeType"@,
            ) == unless_null(json.member("mimeType"@))
            &&& kind == Some(JsonView::Text("progress"@)) ==> shown.member("progressToken"@)
                == json.member("progressToken"@) && shown.member("progress"@) == Some(
                float_said(json.member("progress"@)),
            ) && shown.member("total"@) == Some(float_said(json.member("total"@)))
        }),
{
    broadcast use group_find_member;

    lemma_type_and_text();
    lemma_kinds_differ();
}

/// A number is held as it is written when it is no integer; an integer keeps all its digits as
/// long as it has no more than 53 bits.
pub proof fn numbers_are_held_as_they_are(text: Seq<char>)
    ensures
        float_said(Some(JsonView::Number(NumberView::Float(text)))) == JsonView::Number(
            NumberView::Float(text),
        ),
        float_said(None) == JsonView::Null,
        float_said(Some(JsonView::Null)) == JsonView::Null,
        forall|n: u64| #[trigger]
            float_said(Some(JsonView::Number(NumberView::Unsigned(n)))) is Number,
{
}

/// The kinds of items are distinct.
proof fn lemma_kinds_differ()
    ensures
        "text"@ != "image"@,
        "text"@ != "resource"@,
        "text"@ != "progress"@,
        "image"@ != "resource"@,
        "image"@ != "progress"@,
        "resource"@ != "progress"@,
{
    reveal_strlit("text");
    reveal_strlit("image");
    reveal_strlit("resource");
    reveal_strlit("progress");
    assert("text"@.len() == 4);
    assert("image"@.len() == 5);
    assert("resource"@.len() == 8);
    assert("progress"@.len() == 8);
    assert("resource"@[0] != "progress"@[0]);
}

/// An answer of a tool is read as it stands, item by item and in their order.
pub proof fn answers_are_read_as_they_stand(json: JsonView, items: Seq<JsonView>, i: int)
    requires
        json is Object,
        is_tool_response(json),
        json.member("content"@) == Some(JsonView::Array(items)),
    ensures
        ({
            let shown = tool_response_read(json);
            &&& shown.member("isError"@) == json.member("isError"@)
            &&& shown.member("structuredContent"@) == unless_null(json.member("structuredContent"@))
            &&& shown.member("content"@) matches Some(JsonView::Array(read)) && read.len()
                == items.len() && (0 <= i < items.len() ==> read[i] == content_read(items[i]))
        }),
{
    broadcast use group_find_member;

    lemma_content_and_is_error();
}

/// How far an operation got is read as it stands.
pub proof fn progress_is_read_as_it_stands(json: JsonView)
    requires
        json is Object,
        is_progress_params(json),
    ensures
        ({
            let shown = progress_params_read(json);
            &&& shown.member("progressToken"@) == json.member("progressToken"@)
            &&& shown.member("message"@) == unless_null(json.member("message"@))
            &&& shown.member("progress"@) == Some(float_said(json.member("progress"@)))
            &&& shown.member("total"@) == Some(float_said(json.member("total"@)))
        }),
{
    broadcast use group_find_member;

    lemma_progress_token_and_message();
}

/// How an OAuth flow ended is read as it stands.
pub proof fn ends_of_flows_are_read_as_they_stand(json: JsonView)
    requires
        json is Object,
        is_oauth_params(json),
    ensures
        ({
            let shown = oauth_params_read(json);
            &&& shown.member("provider"@) == json.member("provider"@)
            &&& shown.member("success"@) == json.member("success"@)
            &&& shown.member("message"@) == json.member("message"@)
            &&& shown.member("user_id"@) == unless_null(json.member("user_id"@))
        }),
{
    broadcast use group_find_member;

    lemma_provider_and_success();
}

/// A progress notification is read as it stands.
pub proof fn progress_notifications_are_read_as_they_stand(json: JsonView)
    requires
        json is Object,
        is_progress_notification(json),
    ensures
        ({
            let shown = progress_notification_read(json);
            &&& shown.member("jsonrpc"@) == json.member("jsonrpc"@)
            &&& shown.member("method"@) == json.member("method"@)
            &&& shown.member("params"@) == Some(progress_params_read(json.member("params"@)->0))
        }),
{
    broadcast use group_find_member;

    lemma_jsonrpc_and_method();
}

/// A notification that a flow ended is read as it stands.
pub proof fn flow_notifications_are_read_as_they_stand(json: JsonView)
    requires
        json is Object,
        is_oauth_notification(json),
    ensures
        ({
            let shown = oauth_notification_read(json);
            &&& shown.member("jsonrpc"@) == json.member("jsonrpc"@)
            &&& shown.member("method"@) == json.member("method"@)
            &&& shown.member("params"@) == Some(oauth_params_read(json.member("params"@)->0))
        }),
{
    broadcast use group_find_member;

    lemma_jsonrpc_and_method();
}

/// A document is a progress notification when it has a version, a method and parameters.
pub proof fn progress_notifications_are_read_when_whole(json: JsonView)
    requires
        json is Object,
    ensures
        is_progress_notification(json) <==> {
            &&& (json.member("jsonrpc"@) matches Some(JsonView::Text(_)))
            &&& (json.member("method"@) matches Some(JsonView::Text(_)))
            &&& (json.member("params"@) matches Some(value) && is_progress_params(value))
        },
{
}

/// A document tells that a flow ended when it has a version, a method and parameters.
pub proof fn flow_notifications_are_read_when_whole(json: JsonView)
    requires
        json is Object,
    ensures
        is_oauth_notification(json) <==> {
            &&& (json.member("jsonrpc"@) matches Some(JsonView::Text(_)))
            &&& (json.member("method"@) matches Some(JsonView::Text(_)))
            &&& (json.member("params"@) matches Some(value) && is_oauth_params(value))
        },
{
}

/// A message of a prompt is read as it stands.
pub proof fn prompts_are_read_as_they_stand(json: JsonView)
    requires
        json is Object,
        is_prompt_message(json),
    ensures
        ({
            let shown = prompt_message_read(json);
            &&& shown.member("role"@) == json.member("role"@)
            &&& shown.member("content"@) == Some(content_read(json.member("content"@)->0))
        }),
{
    broadcast use group_find_member;

    lemma_role_and_content();
}

/// What a model said is read when it says who speaks, what is said and which model it was; and
/// as it stands.
pub proof fn what_models_say_is_read_as_it_stands(json: JsonView)
    requires
        json is Object,
    ensures
        is_message_result(json) <==> {
            &&& (json.member("role"@) matches Some(JsonView::Text(_)))
            &&& (json.member("model"@) matches Some(JsonView::Text(_)))
            &&& (json.member("stopReason"@) matches Some(value) ==> value is Null || value is Text)
            &&& (json.member("content"@) matches Some(content) && is_two_texts(
                content,
                "type"@,
                "text"@,
            ))
        },
        is_message_result(json) ==> ({
            let shown = message_result_read(json);
            &&& shown.member("role"@) == json.member("role"@)
            &&& shown.member("model"@) == json.member("model"@)
            &&& shown.member("stopReason"@) == unless_null(json.member("stopReason"@))
            &&& shown.member("content"@) == Some(
                two_texts_read(json.member("content"@)->0, "type"@, "text"@),
            )
        }),
{
    broadcast use group_find_member;

    lemma_role_and_content_and_model();
}

/// Two texts are read when both are there, and as they stand.
pub proof fn two_texts_are_read_as_they_stand(json: JsonView, first: Seq<char>, second: Seq<char>)
    requires
        json is Object,
        first != second,
    ensures
        is_two_texts(json, first, second) <==> (json.member(first) matches Some(JsonView::Text(_)))
            && (json.member(second) matches Some(JsonView::Text(_))),
        is_two_texts(json, first, second) ==> two_texts_read(json, first, second).member(first)
            == json.member(first) && two_texts_read(json, first, second).member(second)
            == json.member(second),
{
    broadcast use group_find_member;

}

/// A request for suggestions is read when it says what is completed and the argument; and as
/// it stands.
pub proof fn requests_for_suggestions_are_read_as_they_stand(json: JsonView)
    requires
        json is Object,
    ensures
        is_complete_request(json) <==> (json.member("ref"@) matches Some(value) && is_two_texts(
            value,
            "type"@,
            "name"@,
        )) && (json.member("argument"@) matches Some(value) && is_two_texts(
            value,
            "name"@,
            "value"@,
        )),
        is_complete_request(json) ==> complete_request_read(json).member("ref"@) == Some(
            two_texts_read(json.member("ref"@)->0, "type"@, "name"@),
        ) && complete_request_read(json).member("argument"@) == Some(
            two_texts_read(json.member("argument"@)->0, "name"@, "value"@),
        ),
{
    broadcast use group_find_member;

    lemma_ref_and_argument();
}

/// Suggestions are read when they are a list of texts; and as they stand.
pub proof fn suggestions_are_read_as_they_stand(json: JsonView)
    requires
        json is Object,
    ensures
        is_completion(json) <==> {
            &&& (json.member("values"@) matches Some(JsonView::Array(items)) && forall|i: int|
                0 <= i < items.len() ==> (#[trigger] items[i]) is Text)
            &&& (json.member("total"@) matches Some(value) ==> value is Null || (value
                matches JsonView::Number(NumberView::Unsigned(n)) && n <= usize::MAX))
            &&& (json.member("hasMore"@) matches Some(value) ==> value is Null || value is Bool)
        },
        is_completion(json) ==> completion_read(json).member("values"@) == json.member("values"@)
            && completion_read(json).member("total"@) == unless_null(json.member("total"@))
            && completion_read(json).member("hasMore"@) == unless_null(json.member("hasMore"@)),
        is_complete_result(json) <==> (json.member("completion"@) matches Some(list)
            && is_completion(list)),
        is_complete_result(json) ==> complete_result_read(json).member("completion"@) == Some(
            completion_read(json.member("completion"@)->0),
        ),
{
    broadcast use group_find_member;

    lemma_values_and_total();
}

/// OAuth 2.0 details are read as they stand.
pub proof fn details_are_read_as_they_stand(json: JsonView)
    requires
        json is Object,
        is_oauth2(json),
    ensures
        ({
            let shown = oauth2_read(json);
            &&& shown.member("discoveryUrl"@) == json.member("discoveryUrl"@)
            &&& shown.member("authorizationEndpoint"@) == json.member("authorizationEndpoint"@)
            &&& shown.member("tokenEndpoint"@) == json.member("tokenEndpoint"@)
            &&& shown.member("registrationEndpoint"@) == json.member("registrationEndpoint"@)
        }),
{
    broadcast use group_find_member;

    lemma_discovery_url_and_authorization_endpoint();
}

/// How resources are supported is read from truth values.
pub proof fn resource_support_is_read(json: JsonView)
    requires
        json is Object,
    ensures
        is_resources(json) <==> {
            &&& (json.member("subscribe"@) matches Some(value) ==> value is Null || value is Bool)
            &&& (json.member("listChanged"@) matches Some(value) ==> value is Null || value is Bool)
        },
{
}

/// How resources are supported is read as it stands.
pub proof fn resource_support_is_read_as_it_stands(json: JsonView)
    requires
        json is Object,
        is_resources(json),
    ensures
        ({
            let shown = resources_read(json);
            &&& shown.member("subscribe"@) == unless_null(json.member("subscribe"@))
            &&& shown.member("listChanged"@) == unless_null(json.member("listChanged"@))
        }),
{
    broadcast use group_find_member;

    lemma_subscribe_and_list_changed();
}

/// How authentication is supported is read from OAuth 2.0 details, where there are any.
pub proof fn authentication_is_read(json: JsonView)
    requires
        json is Object,
    ensures
        is_auth(json) <==> {
            &&& (json.member("oauth2"@) matches Some(value) ==> value is Null || is_oauth2(value))
        },
{
}

/// How authentication is supported is read as it stands.
pub proof fn authentication_is_read_as_it_stands(json: JsonView)
    requires
        json is Object,
        is_auth(json),
    ensures
        ({
            let shown = auth_read(json);
            &&& shown.member("oauth2"@) == match unless_null(json.member("oauth2"@)) {
                Some(value) => Some(oauth2_read(value)),
                None => None,
            }
        }),
{
    broadcast use group_find_member;

}

/// What a server can do is read from the shape of each ability.
pub proof fn abilities_of_servers_are_read(json: JsonView)
    requires
        json is Object,
    ensures
        is_server_capabilities(json) <==> {
            &&& (json.member("experimental"@) matches Some(value) ==> value is Null || value is Object)
            &&& (json.member("logging"@) matches Some(value) ==> value is Null || value is Object || (value matches JsonView::Array(items) && items.len() == 0))
            &&& is_optional_announcing(json.member("prompts"@))
            &&& (json.member("resources"@) matches Some(value) ==> value is Null || is_resources(value))
            &&& is_optional_announcing(json.member("tools"@))
            &&& (json.member("auth"@) matches Some(value) ==> value is Null || is_auth(value))
            &&& (json.member("oauth2"@) matches Some(value) ==> value is Null || is_oauth2(value))
            &&& (json.member("completion"@) matches Some(value) ==> value is Null || value is Object || (value matches JsonView::Array(items) && items.len() == 0))
            &&& (json.member("sampling"@) matches Some(value) ==> value is Null || value is Object || (value matches JsonView::Array(items) && items.len() == 0))
            &&& (json.member("extensions"@) matches Some(value) ==> value is Null || value is Object)
        },
{
}

/// Whether changes are announced is read where it is said.
pub proof fn announcements_are_read_as_they_stand(json: JsonView)
    requires
        json is Object,
    ensures
        is_optional_announcing(None),
        is_optional_announcing(Some(JsonView::Null)),
        is_optional_announcing(Some(json)) <==> (json.member("listChanged"@) matches Some(value)
            ==> value is Null || value is Bool),
        is_optional_announcing(Some(json)) ==> (announcing_said(Some(json)) matches Some(shown)
            && shown.member("listChanged"@) == unless_null(json.member("listChanged"@))),
        announcing_said(None) is None,
        announcing_said(Some(JsonView::Null)) is None,
{
    broadcast use group_find_member;

}

/// What a server can do is read as it stands: what it names experimental, and its extensions.
pub proof fn open_abilities_are_read_as_they_stand(json: JsonView)
    requires
        json is Object,
        is_server_capabilities(json),
    ensures
        ({
            let shown = server_capabilities_read(json);
            &&& shown.member("experimental"@) == unless_null(json.member("experimental"@))
            &&& shown.member("extensions"@) == unless_null(json.member("extensions"@))
            &&& shown.member("tools"@) == announcing_said(json.member("tools"@))
        }),
{
    broadcast use group_find_apart;

    lemma_experimental_and_logging();
}

/// What a server can do is read as it stands: its prompts, its resources and how it
/// authenticates.
pub proof fn named_abilities_are_read_as_they_stand(json: JsonView)
    requires
        json is Object,
        is_server_capabilities(json),
    ensures
        ({
            let shown = server_capabilities_read(json);
            &&& shown.member("prompts"@) == announcing_said(json.member("prompts"@))
            &&& shown.member("resources"@) == match unless_null(json.member("resources"@)) {
                Some(value) => Some(resources_read(value)),
                None => None,
            }
            &&& shown.member("auth"@) == match unless_null(json.member("auth"@)) {
                Some(value) => Some(auth_read(value)),
                None => None,
            }
            &&& shown.member("oauth2"@) == match unless_null(json.member("oauth2"@)) {
                Some(value) => Some(oauth2_read(value)),
                None => None,
            }
        }),
{
    broadcast use group_find_apart;

    lemma_experimental_and_logging();
}

/// What a server can do is read as it stands: what it says nothing more of.
pub proof fn bare_abilities_are_read_as_they_stand(json: JsonView)
    requires
        json is Object,
        is_server_capabilities(json),
    ensures
        ({
            let shown = server_capabilities_read(json);
            &&& shown.member("logging"@) is Some <==> unless_null(json.member("logging"@)) is Some
            &&& shown.member("completion"@) is Some <==> unless_null(
                json.member("completion"@),
            ) is Some
            &&& shown.member("sampling"@) is Some <==> unless_null(json.member("sampling"@)) is Some
        }),
{
    broadcast use group_find_apart;

    lemma_experimental_and_logging();
}

/// A document is the answer to a handshake when it names a revision, a server and what it can do.
pub proof fn answers_to_handshakes_are_read_when_whole(json: JsonView)
    requires
        json is Object,
    ensures
        is_initialize_response(json) <==> {
            &&& (json.member("protocolVersion"@) matches Some(JsonView::Text(_)))
            &&& (json.member("serverInfo"@) matches Some(value) && is_server_info(value))
            &&& (json.member("capabilities"@) matches Some(value) && is_server_capabilities(value))
            &&& (json.member("instructions"@) matches Some(value) ==> value is Null || value is Text)
        },
{
}

/// The answer to a handshake is read as it stands.
pub proof fn answers_to_handshakes_are_read_as_they_stand(json: JsonView)
    requires
        json is Object,
        is_initialize_response(json),
    ensures
        ({
            let shown = initialize_response_read(json);
            &&& shown.member("protocolVersion"@) == json.member("protocolVersion"@)
            &&& shown.member("serverInfo"@) == Some(server_info_read(json.member("serverInfo"@)->0))
            &&& shown.member("capabilities"@) == Some(server_capabilities_read(json.member("capabilities"@)->0))
            &&& shown.member("instructions"@) == unless_null(json.member("instructions"@))
        }),
{
    broadcast use group_find_member;

    lemma_protocol_version_and_server_info();
}

/// Which models are preferred is read from hints and numbers.
pub proof fn preferences_are_read_when_numbers(json: JsonView)
    requires
        json is Object,
    ensures
        is_preferences(json) <==> {
            &&& is_optional_hints(json.member("hints"@))
            &&& (json.member("costPriority"@) matches Some(value) ==> value is Null || value is Number)
            &&& (json.member("speedPriority"@) matches Some(value) ==> value is Null || value is Number)
            &&& (json.member("intelligencePriority"@) matches Some(value) ==> value is Null || value is Number)
        },
{
}

/// A response is read when it has a version, and an error that can be read where it has one; and
/// as it stands.
pub proof fn responses_are_read_as_they_stand(json: JsonView)
    requires
        json is Object,
    ensures
        response_of(json) is Some <==> (json.member("jsonrpc"@) matches Some(JsonView::Text(_))) && (
        json.member("error"@) matches Some(error) ==> error is Null || error_of(error) is Some),
        response_of(json) matches Some(read) ==> {
            &&& json.member("jsonrpc"@) == Some(JsonView::Text(read.jsonrpc))
            &&& read.result == unless_null(json.member("result"@))
            &&& read.id == unless_null(json.member("id"@))
            &&& read.error == match unless_null(json.member("error"@)) {
                Some(error) => error_of(error),
                None => None,
            }
        },
        error_of(json) matches Some(read) ==> {
            &&& json.member("message"@) == Some(JsonView::Text(read.message))
            &&& read.data == unless_null(json.member("data"@))
            &&& json.member("code"@) == Some(
                JsonView::Number(
                    if read.code < 0 {
                        NumberView::Negative(read.code as i64)
                    } else {
                        NumberView::Unsigned(read.code as u64)
                    },
                ),
            ) || (json.member("code"@) matches Some(JsonView::Number(NumberView::Negative(n))) && n
                == read.code)
        },
        forall|code: i32|
            (json.member("message"@) matches Some(JsonView::Text(_))) && json.member("code"@) == Some(
                #[trigger] signed_view(code as int),
            ) ==> (error_of(json) matches Some(read) && read.code == code),
{
}

/// Names that stand together are distinct.
proof fn lemma_name_and_version()
    ensures
        "name"@ != "version"@,
        "name"@ != "title"@,
        "name"@ != "description"@,
        "name"@ != "websiteUrl"@,
        "version"@ != "title"@,
        "version"@ != "description"@,
        "version"@ != "websiteUrl"@,
        "title"@ != "description"@,
        "title"@ != "websiteUrl"@,
        "description"@ != "websiteUrl"@,
{
    reveal_strlit("name");
    reveal_strlit("version");
    reveal_strlit("title");
    reveal_strlit("description");
    reveal_strlit("websiteUrl");
    assert("name"@.len() == 4);
    assert("version"@.len() == 7);
    assert("title"@.len() == 5);
    assert("description"@.len() == 11);
    assert("websiteUrl"@.len() == 10);
}

/// Names that stand together are distinct.
proof fn lemma_title_and_read_only_hint()
    ensures
        "title"@ != "readOnlyHint"@,
        "title"@ != "destructiveHint"@,
        "title"@ != "idempotentHint"@,
        "title"@ != "openWorldHint"@,
        "readOnlyHint"@ != "destructiveHint"@,
        "readOnlyHint"@ != "idempotentHint"@,
        "readOnlyHint"@ != "openWorldHint"@,
        "destructiveHint"@ != "idempotentHint"@,
        "destructiveHint"@ != "openWorldHint"@,
        "idempotentHint"@ != "openWorldHint"@,
{
    reveal_strlit("title");
    reveal_strlit("readOnlyHint");
    reveal_strlit("destructiveHint");
    reveal_strlit("idempotentHint");
    reveal_strlit("openWorldHint");
    assert("title"@.len() == 5);
    assert("readOnlyHint"@.len() == 12);
    assert("destructiveHint"@.len() == 15);
    assert("idempotentHint"@.len() == 14);
    assert("openWorldHint"@.len() == 13);
}

/// Names that stand together are distinct.
proof fn lemma_name_and_description()
    ensures
        "name"@ != "description"@,
        "name"@ != "inputSchema"@,
        "name"@ != "outputSchema"@,
        "name"@ != "annotations"@,
        "name"@ != "execution"@,
        "description"@ != "inputSchema"@,
        "description"@ != "outputSchema"@,
        "description"@ != "annotations"@,
        "description"@ != "execution"@,
        "inputSchema"@ != "outputSchema"@,
        "inputSchema"@ != "annotations"@,
        "inputSchema"@ != "execution"@,
        "outputSchema"@ != "annotations"@,
        "outputSchema"@ != "execution"@,
        "annotations"@ != "execution"@,
{
    reveal_strlit("name");
    reveal_strlit("description");
    reveal_strlit("inputSchema");
    reveal_strlit("outputSchema");
    reveal_strlit("annotations");
    reveal_strlit("execution");
    assert("name"@.len() == 4);
    assert("description"@.len() == 11);
    assert("inputSchema"@.len() == 11);
    assert("outputSchema"@.len() == 12);
    assert("annotations"@.len() == 11);
    assert("execution"@.len() == 9);
    assert("description"@[0] != "inputSchema"@[0]);
    assert("description"@[0] != "annotations"@[0]);
    assert("inputSchema"@[0] != "annotations"@[0]);
}

/// Names that stand together are distinct.
proof fn lemma_type_and_text()
    ensures
        "type"@ != "text"@,
        "type"@ != "data"@,
        "type"@ != "mimeType"@,
        "type"@ != "uri"@,
        "type"@ != "progressToken"@,
        "type"@ != "progress"@,
        "type"@ != "total"@,
        "text"@ != "data"@,
        "text"@ != "mimeType"@,
        "text"@ != "uri"@,
        "text"@ != "progressToken"@,
        "text"@ != "progress"@,
        "text"@ != "total"@,
        "data"@ != "mimeType"@,
        "data"@ != "uri"@,
        "data"@ != "progressToken"@,
        "data"@ != "progress"@,
        "data"@ != "total"@,
        "mimeType"@ != "uri"@,
        "mimeType"@ != "progressToken"@,
        "mimeType"@ != "progress"@,
        "mimeType"@ != "total"@,
        "uri"@ != "progressToken"@,
        "uri"@ != "progress"@,
        "uri"@ != "total"@,
        "progressToken"@ != "progress"@,
        "progressToken"@ != "total"@,
        "progress"@ != "total"@,
{
    reveal_strlit("type");
    reveal_strlit("text");
    reveal_strlit("data");
    reveal_strlit("mimeType");
    reveal_strlit("uri");
    reveal_strlit("progressToken");
    reveal_strlit("progress");
    reveal_strlit("total");
    assert("type"@.len() == 4);
    assert("text"@.len() == 4);
    assert("data"@.len() == 4);
    assert("mimeType"@.len() == 8);
    assert("uri"@.len() == 3);
    assert("progressToken"@.len() == 13);
    assert("progress"@.len() == 8);
    assert("total"@.len() == 5);
    assert("type"@[1] != "text"@[1]);
    assert("type"@[0] != "data"@[0]);
    assert("text"@[0] != "data"@[0]);
    assert("mimeType"@[0] != "progress"@[0]);
}

/// Names that stand together are distinct.
proof fn lemma_content_and_is_error()
    ensures
        "content"@ != "isError"@,
        "content"@ != "structuredContent"@,
        "isError"@ != "structuredContent"@,
{
    reveal_strlit("content");
    reveal_strlit("isError");
    reveal_strlit("structuredContent");
    assert("content"@.len() == 7);
    assert("isError"@.len() == 7);
    assert("structuredContent"@.len() == 17);
    assert("content"@[0] != "isError"@[0]);
}

/// Names that stand together are distinct.
proof fn lemma_progress_token_and_message()
    ensures
        "progressToken"@ != "message"@,
        "progressToken"@ != "progress"@,
        "progressToken"@ != "total"@,
        "message"@ != "progress"@,
        "message"@ != "total"@,
        "progress"@ != "total"@,
{
    reveal_strlit("progressToken");
    reveal_strlit("message");
    reveal_strlit("progress");
    reveal_strlit("total");
    assert("progressToken"@.len() == 13);
    assert("message"@.len() == 7);
    assert("progress"@.len() == 8);
    assert("total"@.len() == 5);
}

/// Names that stand together are distinct.
proof fn lemma_provider_and_success()
    ensures
        "provider"@ != "success"@,
        "provider"@ != "message"@,
        "provider"@ != "user_id"@,
        "success"@ != "message"@,
        "success"@ != "user_id"@,
        "message"@ != "user_id"@,
{
    reveal_strlit("provider");
    reveal_strlit("success");
    reveal_strlit("message");
    reveal_strlit("user_id");
    assert("provider"@.len() == 8);
    assert("success"@.len() == 7);
    assert("message"@.len() == 7);
    assert("user_id"@.len() == 7);
    assert("success"@[0] != "message"@[0]);
    assert("success"@[0] != "user_id"@[0]);
    assert("message"@[0] != "user_id"@[0]);
}

/// Names that stand together are distinct.
proof fn lemma_jsonrpc_and_method()
    ensures
        "jsonrpc"@ != "method"@,
        "jsonrpc"@ != "params"@,
        "method"@ != "params"@,
{
    reveal_strlit("jsonrpc");
    reveal_strlit("method");
    reveal_strlit("params");
    assert("jsonrpc"@.len() == 7);
    assert("method"@.len() == 6);
    assert("params"@.len() == 6);
    assert("method"@[0] != "params"@[0]);
}

/// Names that stand together are distinct.
proof fn lemma_role_and_content()
    ensures
        "role"@ != "content"@,
{
    reveal_strlit("role");
    reveal_strlit("content");
    assert("role"@.len() == 4);
    assert("content"@.len() == 7);
}

/// Names that stand together are distinct.
proof fn lemma_role_and_content_and_model()
    ensures
        "role"@ != "content"@,
        "role"@ != "model"@,
        "role"@ != "stopReason"@,
        "content"@ != "model"@,
        "content"@ != "stopReason"@,
        "model"@ != "stopReason"@,
{
    reveal_strlit("role");
    reveal_strlit("content");
    reveal_strlit("model");
    reveal_strlit("stopReason");
    assert("role"@.len() == 4);
    assert("content"@.len() == 7);
    assert("model"@.len() == 5);
    assert("stopReason"@.len() == 10);
}

/// Names that stand together are distinct.
proof fn lemma_ref_and_argument()
    ensures
        "ref"@ != "argument"@,
{
    reveal_strlit("ref");
    reveal_strlit("argument");
    assert("ref"@.len() == 3);
    assert("argument"@.len() == 8);
}

/// Names that stand together are distinct.
proof fn lemma_values_and_total()
    ensures
        "values"@ != "total"@,
        "values"@ != "hasMore"@,
        "total"@ != "hasMore"@,
{
    reveal_strlit("values");
    reveal_strlit("total");
    reveal_strlit("hasMore");
    assert("values"@.len() == 6);
    assert("total"@.len() == 5);
    assert("hasMore"@.len() == 7);
}

/// Names that stand together are distinct.
proof fn lemma_discovery_url_and_authorization_endpoint()
    ensures
        "discoveryUrl"@ != "authorizationEndpoint"@,
        "discoveryUrl"@ != "tokenEndpoint"@,
        "discoveryUrl"@ != "registrationEndpoint"@,
        "authorizationEndpoint"@ != "tokenEndpoint"@,
        "authorizationEndpoint"@ != "registrationEndpoint"@,
        "tokenEndpoint"@ != "registrationEndpoint"@,
{
    reveal_strlit("discoveryUrl");
    reveal_strlit("authorizationEndpoint");
    reveal_strlit("tokenEndpoint");
    reveal_strlit("registrationEndpoint");
    assert("discoveryUrl"@.len() == 12);
    assert("authorizationEndpoint"@.len() == 21);
    assert("tokenEndpoint"@.len() == 13);
    assert("registrationEndpoint"@.len() == 20);
}

/// Names that stand together are distinct.
proof fn lemma_subscribe_and_list_changed()
    ensures
        "subscribe"@ != "listChanged"@,
{
    reveal_strlit("subscribe");
    reveal_strlit("listChanged");
    assert("subscribe"@.len() == 9);
    assert("listChanged"@.len() == 11);
}

/// Names that stand together are distinct.
proof fn lemma_experimental_and_logging()
    ensures
        "experimental"@ != "logging"@,
        "experimental"@ != "prompts"@,
        "experimental"@ != "resources"@,
        "experimental"@ != "tools"@,
        "experimental"@ != "auth"@,
        "experimental"@ != "oauth2"@,
        "experimental"@ != "completion"@,
        "experimental"@ != "sampling"@,
        "experimental"@ != "extensions"@,
        "logging"@ != "prompts"@,
        "logging"@ != "resources"@,
        "logging"@ != "tools"@,
        "logging"@ != "auth"@,
        "logging"@ != "oauth2"@,
        "logging"@ != "completion"@,
        "logging"@ != "sampling"@,
        "logging"@ != "extensions"@,
        "prompts"@ != "resources"@,
        "prompts"@ != "tools"@,
        "prompts"@ != "auth"@,
        "prompts"@ != "oauth2"@,
        "prompts"@ != "completion"@,
        "prompts"@ != "sampling"@,
        "prompts"@ != "extensions"@,
        "resources"@ != "tools"@,
        "resources"@ != "auth"@,
        "resources"@ != "oauth2"@,
        "resources"@ != "completion"@,
        "resources"@ != "sampling"@,
        "resources"@ != "extensions"@,
        "tools"@ != "auth"@,
        "tools"@ != "oauth2"@,
        "tools"@ != "completion"@,
        "tools"@ != "sampling"@,
        "tools"@ != "extensions"@,
        "auth"@ != "oauth2"@,
        "auth"@ != "completion"@,
        "auth"@ != "sampling"@,
        "auth"@ != "extensions"@,
        "oauth2"@ != "completion"@,
        "oauth2"@ != "sampling"@,
        "oauth2"@ != "extensions"@,
        "completion"@ != "sampling"@,
        "completion"@ != "extensions"@,
        "sampling"@ != "extensions"@,
{
    reveal_strlit("experimental");
    reveal_strlit("logging");
    reveal_strlit("prompts");
    reveal_strlit("resources");
    reveal_strlit("tools");
    reveal_strlit("auth");
    reveal_strlit("oauth2");
    reveal_strlit("completion");
    reveal_strlit("sampling");
    reveal_strlit("extensions");
    assert("experimental"@.len() == 12);
    assert("logging"@.len() == 7);
    assert("prompts"@.len() == 7);
    assert("resources"@.len() == 9);
    assert("tools"@.len() == 5);
    assert("auth"@.len() == 4);
    assert("oauth2"@.len() == 6);
    assert("completion"@.len() == 10);
    assert("sampling"@.len() == 8);
    assert("extensions"@.len() == 10);
    assert("logging"@[0] != "prompts"@[0]);
    assert("completion"@[0] != "extensions"@[0]);
}

/// Names that stand together are distinct.
proof fn lemma_protocol_version_and_server_info()
    ensures
        "protocolVersion"@ != "serverInfo"@,
        "protocolVersion"@ != "capabilities"@,
        "protocolVersion"@ != "instructions"@,
        "serverInfo"@ != "capabilities"@,
        "serverInfo"@ != "instructions"@,
        "capabilities"@ != "instructions"@,
{
    reveal_strlit("protocolVersion");
    reveal_strlit("serverInfo");
    reveal_strlit("capabilities");
    reveal_strlit("instructions");
    assert("protocolVersion"@.len() == 15);
    assert("serverInfo"@.len() == 10);
    assert("capabilities"@.len() == 12);
    assert("instructions"@.len() == 12);
    assert("capabilities"@[0] != "instructions"@[0]);
}

} // verus!
