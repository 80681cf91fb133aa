//! What every message says in JSON, and which documents say it.

use vstd::prelude::*;

use crate::error::error_body;
use crate::json::{fields, group_find_member, member_views, text_list, JsonView, NumberView};
use crate::mcp::capabilities::{
    is_client_capabilities, is_client_info, is_initialize_request, is_optional_roots,
    list_changed_json, AuthCapability, ClientCapabilities, ClientInfo, InitializeRequest,
    InitializeResponse, OAuth2Capability, ResourcesCapability, ServerCapabilities,
};
use crate::mcp::messages::{
    some_hints, two_texts, CreateMessageRequest, CreateMessageResult, ModelHint, ModelPreferences,
    OAuthCompletedNotification, OAuthCompletedParams, ProgressNotification, ProgressParams,
    PromptMessage,
};
use crate::mcp::modern::{discover_json, ModernClientInfo};
use crate::mcp::reading::handshake::is_server_info;
use crate::mcp::reading::requests::call_json;
use crate::mcp::reading::{
    is_content, is_oauth2, is_oauth_params, is_progress_params, is_prompt_message, is_tool_response,
};
use crate::mcp::schema::{
    content_list, declared_support, is_annotations, is_tool, Content, ServerInfo, TaskSupport, Tool,
    ToolAnnotations, ToolCallView, ToolExecution, ToolResponse,
};
use crate::mcp::tasks::{with_task, TaskView};
use crate::server::health::HealthResponse;
use crate::string_map::text_members;
use crate::text::views;

verus! {

/// A server is written with all that is known of it.
pub proof fn servers_are_written_whole(info: ServerInfo)
    ensures
        ({
            let json = info.wire();
            &&& json.member("name"@) == Some(JsonView::Text(info.name@))
            &&& json.member("version"@) == Some(JsonView::Text(info.version@))
            &&& json.member("title"@) == match info.title {
                Some(text) => Some(JsonView::Text(text@)),
                None => None,
            }
            &&& json.member("description"@) == match info.description {
                Some(text) => Some(JsonView::Text(text@)),
                None => None,
            }
            &&& json.member("websiteUrl"@) == match info.website_url {
                Some(text) => Some(JsonView::Text(text@)),
                None => None,
            }
        }),
{
    broadcast use group_find_member;

    lemma_name_and_version();
}

/// A client is written with all that is known of it.
pub proof fn clients_are_written_whole(info: ClientInfo)
    ensures
        ({
            let json = info.wire();
            &&& json.member("name"@) == Some(JsonView::Text(info.name@))
            &&& json.member("version"@) == Some(JsonView::Text(info.version@))
            &&& json.member("title"@) == match info.title {
                Some(text) => Some(JsonView::Text(text@)),
                None => None,
            }
            &&& json.member("description"@) == match info.description {
                Some(text) => Some(JsonView::Text(text@)),
                None => None,
            }
            &&& json.member("websiteUrl"@) == match info.website_url {
                Some(text) => Some(JsonView::Text(text@)),
                None => None,
            }
        }),
{
    broadcast use group_find_member;

    lemma_name_and_version();
}

/// A document says who a client is when it gives a name and a version, and further texts where it
/// gives any.
pub proof fn clients_are_read_when_named(json: JsonView)
    requires
        json is Object,
    ensures
        is_client_info(json) <==> {
            &&& (json.member("name"@) matches Some(JsonView::Text(_)))
            &&& (json.member("version"@) matches Some(JsonView::Text(_)))
            &&& (json.member("title"@) matches Some(value) ==> value is Null || value is Text)
            &&& (json.member("description"@) matches Some(value) ==> value is Null || value is Text)
            &&& (json.member("websiteUrl"@) matches Some(value) ==> value is Null || value is Text)
        },
{
}

/// A document says who a server is when it gives a name and a version, and further texts where it
/// gives any.
pub proof fn servers_are_read_when_named(json: JsonView)
    requires
        json is Object,
    ensures
        is_server_info(json) <==> {
            &&& (json.member("name"@) matches Some(JsonView::Text(_)))
            &&& (json.member("version"@) matches Some(JsonView::Text(_)))
            &&& (json.member("title"@) matches Some(value) ==> value is Null || value is Text)
            &&& (json.member("description"@) matches Some(value) ==> value is Null || value is Text)
            &&& (json.member("websiteUrl"@) matches Some(value) ==> value is Null || value is Text)
        },
{
}

/// Hints are written each under its own name.
pub proof fn hints_are_written_whole(hints: ToolAnnotations)
    ensures
        ({
            let json = hints.wire();
            &&& json.member("title"@) == match hints.title {
                Some(text) => Some(JsonView::Text(text@)),
                None => None,
            }
            &&& json.member("readOnlyHint"@) == match hints.read_only_hint {
                Some(value) => Some(JsonView::Bool(value)),
                None => None,
            }
            &&& json.member("destructiveHint"@) == match hints.destructive_hint {
                Some(value) => Some(JsonView::Bool(value)),
                None => None,
            }
            &&& json.member("idempotentHint"@) == match hints.idempotent_hint {
                Some(value) => Some(JsonView::Bool(value)),
                None => None,
            }
            &&& json.member("openWorldHint"@) == match hints.open_world_hint {
                Some(value) => Some(JsonView::Bool(value)),
                None => None,
            }
        }),
{
    broadcast use group_find_member;

    lemma_title_and_read_only_hint();
}

/// Hints are a title that is a text and truth values, as far as they are there.
pub proof fn hints_are_truth_values(json: JsonView)
    requires
        json is Object,
    ensures
        is_annotations(json) <==> {
            &&& (json.member("title"@) matches Some(value) ==> value is Null || value is Text)
            &&& (json.member("readOnlyHint"@) matches Some(value) ==> value is Null || value is Bool)
            &&& (json.member("destructiveHint"@) matches Some(value) ==> value is Null || value is Bool)
            &&& (json.member("idempotentHint"@) matches Some(value) ==> value is Null || value is Bool)
            &&& (json.member("openWorldHint"@) matches Some(value) ==> value is Null || value is Bool)
        },
{
}

/// A tool is written with its name, its description, its schemas, its hints and its declaration.
pub proof fn tools_are_written_whole(tool: Tool)
    ensures
        ({
            let json = tool.wire();
            &&& json.member("name"@) == Some(JsonView::Text(tool.name@))
            &&& json.member("description"@) == Some(JsonView::Text(tool.description@))
            &&& json.member("inputSchema"@) == Some(tool.input_schema@)
            &&& json.member("outputSchema"@) == match tool.output_schema {
                Some(json) => Some(json@),
                None => None,
            }
            &&& json.member("annotations"@) == match tool.annotations {
                Some(value) => Some(value.wire()),
                None => None,
            }
            &&& json.member("execution"@) == match tool.execution {
                Some(value) => Some(value.wire()),
                None => None,
            }
        }),
{
    broadcast use group_find_member;

    lemma_name_and_description();
}

/// A document is a tool when it gives a name, a description and an input schema, and hints and a
/// declaration that can be read where it gives any.
pub proof fn tools_are_read_when_described(json: JsonView)
    requires
        json is Object,
    ensures
        is_tool(json) <==> {
            &&& (json.member("name"@) matches Some(JsonView::Text(_)))
            &&& (json.member("description"@) matches Some(JsonView::Text(_)))
            &&& json.member("inputSchema"@) is Some
            &&& (json.member("annotations"@) matches Some(value) ==> value is Null || is_annotations(value))
            &&& (json.member("execution"@) matches Some(value) ==> value is Null || declared_support(value) is Some)
        },
{
}

/// An answer of a tool is written with its items, whether it failed, and its structured data.
pub proof fn answers_are_written_whole(response: ToolResponse)
    ensures
        ({
            let json = response.wire();
            &&& json.member("isError"@) == Some(JsonView::Bool(response.is_error))
            &&& json.member("structuredContent"@) == match response.structured_content {
                Some(json) => Some(json@),
                None => None,
            }
            &&& json.member("content"@) == Some(content_list(response.content@))
        }),
{
    broadcast use group_find_member;

    lemma_is_error_and_structured_content();
}

/// OAuth 2.0 details are written each under its own name.
pub proof fn details_are_written_whole(oauth2: OAuth2Capability)
    ensures
        ({
            let json = oauth2.wire();
            &&& json.member("discoveryUrl"@) == Some(JsonView::Text(oauth2.discovery_url@))
            &&& json.member("authorizationEndpoint"@) == Some(JsonView::Text(oauth2.authorization_endpoint@))
            &&& json.member("tokenEndpoint"@) == Some(JsonView::Text(oauth2.token_endpoint@))
            &&& json.member("registrationEndpoint"@) == Some(JsonView::Text(oauth2.registration_endpoint@))
        }),
{
    broadcast use group_find_member;

    lemma_discovery_url_and_authorization_endpoint();
}

/// OAuth 2.0 details are four texts.
pub proof fn details_are_four_texts(json: JsonView)
    requires
        json is Object,
    ensures
        is_oauth2(json) <==> {
            &&& (json.member("discoveryUrl"@) matches Some(JsonView::Text(_)))
            &&& (json.member("authorizationEndpoint"@) matches Some(JsonView::Text(_)))
            &&& (json.member("tokenEndpoint"@) matches Some(JsonView::Text(_)))
            &&& (json.member("registrationEndpoint"@) matches Some(JsonView::Text(_)))
        },
{
}

/// How resources are supported is written each under its own name.
pub proof fn resource_support_is_written_whole(resources: ResourcesCapability)
    ensures
        ({
            let json = resources.wire();
            &&& json.member("subscribe"@) == match resources.subscribe {
                Some(value) => Some(JsonView::Bool(value)),
                None => None,
            }
            &&& json.member("listChanged"@) == match resources.list_changed {
                Some(value) => Some(JsonView::Bool(value)),
                None => None,
            }
        }),
{
    broadcast use group_find_member;

    lemma_subscribe_and_list_changed();
}

/// Whether changes are announced is written where it is said.
pub proof fn announcements_are_written(changed: Option<bool>)
    ensures
        ({
            let json = list_changed_json(changed);
            &&& json.member("listChanged"@) == match changed {
                Some(value) => Some(JsonView::Bool(value)),
                None => None,
            }
        }),
{
    broadcast use group_find_member;

}

/// How authentication is supported is written where it is said.
pub proof fn authentication_is_written(auth: AuthCapability)
    ensures
        ({
            let json = auth.wire();
            &&& json.member("oauth2"@) == match auth.oauth2 {
                Some(value) => Some(value.wire()),
                None => None,
            }
        }),
{
    broadcast use group_find_member;

}

/// What a client can do is read from the shape of each ability.
pub proof fn abilities_of_clients_are_read(json: JsonView)
    requires
        json is Object,
    ensures
        is_client_capabilities(json) <==> {
            &&& (json.member("experimental"@) matches Some(value) ==> value is Null || value is Object)
            &&& (json.member("sampling"@) matches Some(value) ==> value is Null || value is Object || (value matches JsonView::Array(items) && items.len() == 0))
            &&& is_optional_roots(json.member("roots"@))
        },
{
}

/// A document is a handshake when it names a revision, a client and what the client can do.
pub proof fn handshakes_are_read_when_whole(json: JsonView)
    requires
        json is Object,
    ensures
        is_initialize_request(json) <==> {
            &&& (json.member("protocolVersion"@) matches Some(JsonView::Text(_)))
            &&& (json.member("clientInfo"@) matches Some(value) && is_client_info(value))
            &&& (json.member("capabilities"@) matches Some(value) && is_client_capabilities(value))
            &&& (json.member("oauthCredentials"@) matches Some(value) ==> value is Null || value is Object)
        },
{
}

/// What a client can do is written each under its own name.
pub proof fn abilities_of_clients_are_written(able: ClientCapabilities)
    ensures
        ({
            let json = able.wire();
            &&& json.member("experimental"@) == match able.experimental {
                Some(members) => Some(JsonView::Object(member_views(members@))),
                None => None,
            }
            &&& json.member("sampling"@) == match able.sampling {
                Some(_) => Some(JsonView::Object(Seq::empty())),
                None => None,
            }
            &&& json.member("roots"@) == match able.roots {
                Some(value) => Some(list_changed_json(value.list_changed)),
                None => None,
            }
        }),
{
    broadcast use group_find_member;

    lemma_experimental_and_sampling();
}

/// A handshake is written with its revision, its client, what the client can do, and its
/// credentials.
pub proof fn handshakes_are_written_whole(request: InitializeRequest)
    ensures
        ({
            let json = request.wire();
            &&& json.member("protocolVersion"@) == Some(JsonView::Text(request.protocol_version@))
            &&& json.member("clientInfo"@) == Some(request.client_info.wire())
            &&& json.member("capabilities"@) == Some(request.capabilities.wire())
            &&& json.member("oauthCredentials"@) == match request.oauth_credentials {
                Some(members) => Some(JsonView::Object(member_views(members@))),
                None => None,
            }
        }),
{
    broadcast use group_find_member;

    lemma_protocol_version_and_client_info();
}

/// The answer to a handshake is written with its revision, its server, what the server can do, and
/// its instructions.
pub proof fn handshakes_are_answered_whole(response: InitializeResponse)
    ensures
        ({
            let json = response.wire();
            &&& json.member("protocolVersion"@) == Some(JsonView::Text(response.protocol_version@))
            &&& json.member("serverInfo"@) == Some(response.server_info.wire())
            &&& json.member("capabilities"@) == Some(response.capabilities.wire())
            &&& json.member("instructions"@) == match response.instructions {
                Some(text) => Some(JsonView::Text(text@)),
                None => None,
            }
        }),
{
    broadcast use group_find_member;

    lemma_protocol_version_and_server_info();
}

/// How far an operation got is written with its token, its total and its message.
pub proof fn progress_is_written_whole(params: ProgressParams)
    ensures
        ({
            let json = params.wire();
            &&& json.member("progressToken"@) == Some(JsonView::Text(params.progress_token@))
            &&& json.member("progress"@) == Some(params.progress.wire())
            &&& json.member("total"@) == Some(
                match params.total {
                    Some(value) => value.wire(),
                    None => JsonView::Null,
                },
            )
            &&& json.member("message"@) == match params.message {
                Some(text) => Some(JsonView::Text(text@)),
                None => None,
            }
        }),
{
    broadcast use group_find_member;

    lemma_progress_token_and_progress();
}

/// How far an operation got is read from a token and a number.
pub proof fn progress_is_read_when_counted(json: JsonView)
    requires
        json is Object,
    ensures
        is_progress_params(json) <==> {
            &&& (json.member("progressToken"@) matches Some(JsonView::Text(_)))
            &&& (json.member("progress"@) matches Some(JsonView::Number(_)))
            &&& (json.member("total"@) matches Some(value) ==> value is Null || value is Number)
            &&& (json.member("message"@) matches Some(value) ==> value is Null || value is Text)
        },
{
}

/// How an OAuth flow ended is written with its provider, its success, its message and its user.
pub proof fn ends_of_flows_are_written_whole(params: OAuthCompletedParams)
    ensures
        ({
            let json = params.wire();
            &&& json.member("provider"@) == Some(JsonView::Text(params.provider@))
            &&& json.member("success"@) == Some(JsonView::Bool(params.success))
            &&& json.member("message"@) == Some(JsonView::Text(params.message@))
            &&& json.member("user_id"@) == match params.user_id {
                Some(text) => Some(JsonView::Text(text@)),
                None => None,
            }
        }),
{
    broadcast use group_find_member;

    lemma_provider_and_success();
}

/// How an OAuth flow ended is read from its provider, its success and its message.
pub proof fn ends_of_flows_are_read_when_told(json: JsonView)
    requires
        json is Object,
    ensures
        is_oauth_params(json) <==> {
            &&& (json.member("provider"@) matches Some(JsonView::Text(_)))
            &&& (json.member("success"@) matches Some(JsonView::Bool(_)))
            &&& (json.member("message"@) matches Some(JsonView::Text(_)))
            &&& (json.member("user_id"@) matches Some(value) ==> value is Null || value is Text)
        },
{
}

/// A progress notification is written with its version, its method and its parameters.
pub proof fn progress_notifications_are_written_whole(notification: ProgressNotification)
    ensures
        ({
            let json = notification.wire();
            &&& json.member("jsonrpc"@) == Some(JsonView::Text(notification.jsonrpc@))
            &&& json.member("method"@) == Some(JsonView::Text(notification.method@))
            &&& json.member("params"@) == Some(notification.params.wire())
        }),
{
    broadcast use group_find_member;

    lemma_jsonrpc_and_method();
}

/// A notification that a flow ended is written with its version, its method and its parameters.
pub proof fn flow_notifications_are_written_whole(notification: OAuthCompletedNotification)
    ensures
        ({
            let json = notification.wire();
            &&& json.member("jsonrpc"@) == Some(JsonView::Text(notification.jsonrpc@))
            &&& json.member("method"@) == Some(JsonView::Text(notification.method@))
            &&& json.member("params"@) == Some(notification.params.wire())
        }),
{
    broadcast use group_find_member;

    lemma_jsonrpc_and_method();
}

/// A message of a prompt is written with who speaks and what is said.
pub proof fn prompts_are_written_whole(message: PromptMessage)
    ensures
        ({
            let json = message.wire();
            &&& json.member("role"@) == Some(JsonView::Text(message.role@))
            &&& json.member("content"@) == Some(message.content.wire())
        }),
{
    broadcast use group_find_member;

    lemma_role_and_content();
}

/// A message of a prompt is read from who speaks and what is said.
pub proof fn prompts_are_read_when_said(json: JsonView)
    requires
        json is Object,
    ensures
        is_prompt_message(json) <==> {
            &&& (json.member("role"@) matches Some(JsonView::Text(_)))
            &&& (json.member("content"@) matches Some(value) && is_content(value))
        },
{
}

/// What a model said is written with who speaks, which model it was, and why it stopped.
pub proof fn what_models_say_is_written_whole(result: CreateMessageResult)
    ensures
        ({
            let json = result.wire();
            &&& json.member("role"@) == Some(JsonView::Text(result.role@))
            &&& json.member("model"@) == Some(JsonView::Text(result.model@))
            &&& json.member("stopReason"@) == match result.stop_reason {
                Some(text) => Some(JsonView::Text(text@)),
                None => None,
            }
            &&& json.member("content"@) == Some(two_texts("type"@, result.content.content_type@, "text"@, result.content.text@))
        }),
{
    broadcast use group_find_member;

    lemma_role_and_model();
}

/// Which models are preferred is written each under its own name.
pub proof fn preferences_are_written_whole(preferences: ModelPreferences)
    ensures
        ({
            let json = preferences.wire();
            &&& json.member("hints"@) == some_hints(preferences.hints)
            &&& json.member("costPriority"@) == match preferences.cost_priority {
                Some(value) => Some(value.wire()),
                None => None,
            }
            &&& json.member("speedPriority"@) == match preferences.speed_priority {
                Some(value) => Some(value.wire()),
                None => None,
            }
            &&& json.member("intelligencePriority"@) == match preferences.intelligence_priority {
                Some(value) => Some(value.wire()),
                None => None,
            }
        }),
{
    broadcast use group_find_member;

    lemma_hints_and_cost_priority();
}

/// Two texts are written each under its own name.
pub proof fn two_texts_are_written_apart(first: Seq<char>, a: Seq<char>, second: Seq<char>, b: Seq<char>)
    ensures
        ({
            let json = two_texts(first, a, second, b);
            &&& json.member(first) == Some(JsonView::Text(a))
            &&& first != second ==> json.member(second) == Some(JsonView::Text(b))
        }),
{
    broadcast use group_find_member;

}

/// An error reply is written with its type and its message.
pub proof fn errors_are_written_whole(kind: Seq<char>, message: Seq<char>)
    ensures
        error_body(kind, message).member("error"@) matches Some(error) && error.member("type"@)
            == Some(JsonView::Text(kind)) && error.member("message"@) == Some(
            JsonView::Text(message),
        ),
{
    broadcast use group_find_member;

    lemma_type_and_message();
}

/// A health reply is written with its status, its service and its version.
pub proof fn health_is_written_whole(response: HealthResponse)
    ensures
        ({
            let json = response.wire();
            &&& json.member("status"@) == Some(JsonView::Text(response.status@))
            &&& json.member("service"@) == Some(JsonView::Text(response.service@))
            &&& json.member("version"@) == Some(JsonView::Text(response.version@))
            &&& json.member("details"@) == if response.details@.len() == 0 {
                None
            } else {
                Some(JsonView::Object(text_members(response.details@)))
            }
        }),
{
    broadcast use group_find_member;

    lemma_status_and_service();
}

/// A call is written with its tool and its arguments.
pub proof fn calls_are_written_whole(call: ToolCallView)
    ensures
        ({
            let json = call_json(call);
            &&& json.member("name"@) == Some(JsonView::Text(call.name))
            &&& json.member("arguments"@) == Some(
                match call.arguments {
                    Some(arguments) => arguments,
                    None => JsonView::Null,
                },
            )
        }),
{
    broadcast use group_find_member;

    lemma_name_and_arguments();
}

/// The client of a modern request is written with its name and its version.
pub proof fn clients_of_modern_requests_are_written(info: ModernClientInfo)
    ensures
        ({
            let json = info.wire();
            &&& json.member("name"@) == Some(JsonView::Text(info.name@))
            &&& json.member("version"@) == Some(JsonView::Text(info.version@))
        }),
{
    broadcast use group_find_member;

    lemma_name_and_version_alone();
}

/// What a server says of itself is written whole.
pub proof fn discoveries_are_written_whole(kind: Seq<char>, versions: JsonView, able: JsonView, info: JsonView, instructions: Option<
    Seq<char>,
>, ttl: Option<u64>, scope: Option<Seq<char>>)
    ensures
        ({
            let json = discover_json(kind, versions, able, info, instructions, ttl, scope);
            &&& json.member("resultType"@) == Some(JsonView::Text(kind))
            &&& json.member("supportedVersions"@) == Some(versions)
            &&& json.member("capabilities"@) == Some(able)
            &&& json.member("serverInfo"@) == Some(info)
            &&& json.member("instructions"@) == match instructions {
                Some(text) => Some(JsonView::Text(text)),
                None => None,
            }
            &&& json.member("ttlMs"@) == match ttl {
                Some(ms) => Some(JsonView::Number(NumberView::Unsigned(ms))),
                None => None,
            }
            &&& json.member("cacheScope"@) == match scope {
                Some(text) => Some(JsonView::Text(text)),
                None => None,
            }
        }),
{
    broadcast use group_find_member;

    lemma_result_type_and_supported_versions();
}

/// A task is written with all that is known of it.
pub proof fn tasks_are_written_whole(task: TaskView)
    ensures
        ({
            let json = JsonView::Object(with_task(fields(), task));
            &&& json.member("taskId"@) == Some(JsonView::Text(task.task_id))
            &&& json.member("status"@) == Some(JsonView::Text(task.status.word()))
            &&& json.member("statusMessage"@) == match task.status_message {
                Some(text) => Some(JsonView::Text(text)),
                None => None,
            }
            &&& json.member("createdAt"@) == Some(JsonView::Text(task.created_at))
            &&& json.member("lastUpdatedAt"@) == Some(JsonView::Text(task.last_updated_at))
            &&& json.member("ttlMs"@) == Some(
                match task.ttl_ms {
                    Some(ttl) => JsonView::Number(NumberView::Unsigned(ttl)),
                    None => JsonView::Null,
                },
            )
            &&& json.member("pollIntervalMs"@) == match task.poll_interval_ms {
                Some(ms) => Some(JsonView::Number(NumberView::Unsigned(ms))),
                None => None,
            }
        }),
{
    broadcast use group_find_member;

    lemma_task_id_and_status();
}

/// An item is written with its kind and the fields of its kind.
pub proof fn items_are_written_whole(content: Content)
    ensures
        ({
            let json = content.wire();
            match content {
                Content::Text { text } => json.member("type"@) == Some(JsonView::Text("text"@))
                    && json.member("text"@) == Some(JsonView::Text(text@)),
                Content::Image { data, mime_type } => json.member("type"@) == Some(
                    JsonView::Text("image"@),
                ) && json.member("data"@) == Some(JsonView::Text(data@)) && json.member("mimeType"@)
                    == Some(JsonView::Text(mime_type@)),
                Content::Resource { uri, text, mime_type } => json.member("type"@) == Some(
                    JsonView::Text("resource"@),
                ) && json.member("uri"@) == Some(JsonView::Text(uri@)) && json.member("text"@)
                    == match text {
                    Some(text) => Some(JsonView::Text(text@)),
                    None => None,
                } && json.member("mimeType"@) == match mime_type {
                    Some(text) => Some(JsonView::Text(text@)),
                    None => None,
                },
                Content::Progress { progress_token, progress, total } => json.member("type"@)
                    == Some(JsonView::Text("progress"@)) && json.member("progressToken"@) == Some(
                    JsonView::Text(progress_token@),
                ) && json.member("progress"@) == Some(progress.wire()) && json.member("total"@)
                    == Some(
                    match total {
                        Some(total) => total.wire(),
                        None => JsonView::Null,
                    },
                ),
            }
        }),
{
    broadcast use group_find_member;

    lemma_type_and_text();
}

/// Lists are written item by item, in their order.
pub proof fn lists_are_written_in_order(
    content: Seq<Content>,
    texts: Seq<Seq<char>>,
    hints: Vec<ModelHint>,
    i: int,
)
    ensures
        content_list(content) matches JsonView::Array(items) && items.len() == content.len() && (0
            <= i < items.len() ==> items[i] == content[i].wire()),
        text_list(texts) matches JsonView::Array(items) && items.len() == texts.len() && (0 <= i
            < items.len() ==> items[i] == JsonView::Text(texts[i])),
        some_hints(Some(hints)) matches Some(JsonView::Array(items)) && items.len()
            == hints@.len() && (0 <= i < items.len() ==> items[i].member("name"@) == match hints@[i].name {
            Some(name) => Some(JsonView::Text(name@)),
            None => None,
        }),
        some_hints(None) is None,
{
    broadcast use group_find_member;

}

/// An item is read by its kind, from the fields of its kind.
pub proof fn items_are_read_by_their_kind(json: JsonView)
    requires
        json is Object,
    ensures
        json.member("type"@) == Some(JsonView::Text("text"@)) ==> (is_content(json) <==> (json.member(
            "text"@,
        ) matches Some(JsonView::Text(_)))),
        json.member("type"@) == Some(JsonView::Text("image"@)) ==> (is_content(json) <==> (
        json.member("data"@) matches Some(JsonView::Text(_))) && (json.member("mimeType"@) matches Some(
            JsonView::Text(_),
        ))),
        json.member("type"@) == Some(JsonView::Text("resource"@)) ==> (is_content(json) <==> (
        json.member("uri"@) matches Some(JsonView::Text(_))) && (json.member("text"@) matches Some(
            value,
        ) ==> value is Null || value is Text) && (json.member("mimeType"@) matches Some(value)
            ==> value is Null || value is Text)),
        json.member("type"@) == Some(JsonView::Text("progress"@)) ==> (is_content(json) <==> (
        json.member("progressToken"@) matches Some(JsonView::Text(_))) && (json.member(
            "progress"@,
        ) matches Some(JsonView::Number(_))) && (json.member("total"@) matches Some(value)
            ==> value is Null || value is Number)),
        !(json.member("type"@) matches Some(JsonView::Text(_))) ==> !is_content(json),
        (json.member("type"@) matches Some(JsonView::Text(kind)) && kind != "text"@ && kind
            != "image"@ && kind != "resource"@ && kind != "progress"@) ==> !is_content(json),
{
    lemma_kinds_differ();
}

/// The kinds of items are distinct.
proof fn lemma_kinds_differ()
    ensures
        "text"@ != "image"@,
        "text"@ != "resource"@,
        "text"@ != "progress"@,
        "image"@ != "resource"@,
        "image"@ != "progress"@,
        "resource"@ != "progress"@,
{
    reveal_strlit("text");
    reveal_strlit("image");
    reveal_strlit("resource");
    reveal_strlit("progress");
    assert("text"@.len() == 4);
    assert("image"@.len() == 5);
    assert("resource"@.len() == 8);
    assert("progress"@.len() == 8);
    assert("resource"@[0] != "progress"@[0]);
}

/// A tool's declaration is one of three words.
pub proof fn declarations_are_one_of_three(json: JsonView, word: Seq<char>)
    requires
        json is Object,
        json.member("taskSupport"@) == Some(JsonView::Text(word)),
    ensures
        declared_support(json) == if word == "forbidden"@ {
            Some(TaskSupport::Forbidden)
        } else if word == "optional"@ {
            Some(TaskSupport::Optional)
        } else if word == "required"@ {
            Some(TaskSupport::Required)
        } else {
            None
        },
{
}

/// A tool's declaration is written as its word.
pub proof fn declarations_are_written_as_words(execution: ToolExecution)
    ensures
        execution.wire().member("taskSupport"@) == Some(
            JsonView::Text(
                match execution.task_support {
                    TaskSupport::Forbidden => "forbidden"@,
                    TaskSupport::Optional => "optional"@,
                    TaskSupport::Required => "required"@,
                },
            ),
        ),
{
    broadcast use group_find_member;

}

/// An answer of a tool is read from a list of items and whether the tool failed.
pub proof fn answers_are_read_item_by_item(json: JsonView)
    requires
        json is Object,
    ensures
        is_tool_response(json) <==> (json.member("isError"@) matches Some(JsonView::Bool(_))) && (
        json.member("content"@) matches Some(JsonView::Array(items)) && forall|i: int|
            0 <= i < items.len() ==> is_content(#[trigger] items[i])),
{
}

/// A request to a model is written with all that it asks for.
pub proof fn requests_to_models_are_written_whole(request: CreateMessageRequest, i: int)
    ensures
        ({
            let json = request.wire();
            &&& json.member("messages"@) matches Some(JsonView::Array(items)) && items.len()
                == request.messages@.len() && (0 <= i < items.len() ==> items[i]
                == request.messages@[i].wire())
            &&& json.member("modelPreferences"@) == match request.model_preferences {
                Some(value) => Some(value.wire()),
                None => None,
            }
            &&& json.member("systemPrompt"@) == match request.system_prompt {
                Some(text) => Some(JsonView::Text(text@)),
                None => None,
            }
            &&& json.member("includeContext"@) == match request.include_context {
                Some(text) => Some(JsonView::Text(text@)),
                None => None,
            }
            &&& json.member("maxTokens"@) == Some(
                JsonView::Number(
                    if request.max_tokens < 0 {
                        NumberView::Negative(request.max_tokens as i64)
                    } else {
                        NumberView::Unsigned(request.max_tokens as u64)
                    },
                ),
            )
            &&& json.member("temperature"@) == match request.temperature {
                Some(value) => Some(value.wire()),
                None => None,
            }
            &&& json.member("stopSequences"@) == match request.stop_sequences {
                Some(texts) => Some(text_list(views(texts@))),
                None => None,
            }
            &&& json.member("metadata"@) == match request.metadata {
                Some(members) => Some(JsonView::Object(member_views(members@))),
                None => None,
            }
        }),
{
    crate::mcp::reading::sampling::lemma_request_found(request);
}

/// What a server can do is written each under its own name.
pub proof fn abilities_of_servers_are_written(able: ServerCapabilities)
    ensures
        ({
            let json = able.wire();
            &&& json.member("experimental"@) == match able.experimental {
                Some(members) => Some(JsonView::Object(member_views(members@))),
                None => None,
            }
            &&& json.member("extensions"@) == match able.extensions {
                Some(members) => Some(JsonView::Object(member_views(members@))),
                None => None,
            }
            &&& json.member("logging"@) is Some <==> able.logging is Some
            &&& json.member("completion"@) is Some <==> able.completion is Some
            &&& json.member("sampling"@) is Some <==> able.sampling is Some
            &&& json.member("prompts"@) == match able.prompts {
                Some(value) => Some(list_changed_json(value.list_changed)),
                None => None,
            }
            &&& json.member("tools"@) == match able.tools {
                Some(value) => Some(list_changed_json(value.list_changed)),
                None => None,
            }
            &&& json.member("resources"@) == match able.resources {
                Some(value) => Some(value.wire()),
                None => None,
            }
            &&& json.member("auth"@) == match able.auth {
                Some(value) => Some(value.wire()),
                None => None,
            }
            &&& json.member("oauth2"@) == match able.oauth2 {
                Some(value) => Some(value.wire()),
                None => None,
            }
        }),
{
    crate::mcp::reading::lemma_plain_capabilities_found(able);
    crate::mcp::reading::lemma_detailed_capabilities_found(able);
}

/// Names that stand together are distinct.
proof fn lemma_name_and_version()
    ensures
        "name"@ != "version"@,
        "name"@ != "title"@,
        "name"@ != "description"@,
        "name"@ != "websiteUrl"@,
        "version"@ != "title"@,
        "version"@ != "description"@,
        "version"@ != "websiteUrl"@,
        "title"@ != "description"@,
        "title"@ != "websiteUrl"@,
        "description"@ != "websiteUrl"@,
{
    reveal_strlit("name");
    reveal_strlit("version");
    reveal_strlit("title");
    reveal_strlit("description");
    reveal_strlit("websiteUrl");
    assert("name"@.len() == 4);
    assert("version"@.len() == 7);
    assert("title"@.len() == 5);
    assert("description"@.len() == 11);
    assert("websiteUrl"@.len() == 10);
}

/// Names that stand together are distinct.
proof fn lemma_title_and_read_only_hint()
    ensures
        "title"@ != "readOnlyHint"@,
        "title"@ != "destructiveHint"@,
        "title"@ != "idempotentHint"@,
        "title"@ != "openWorldHint"@,
        "readOnlyHint"@ != "destructiveHint"@,
        "readOnlyHint"@ != "idempotentHint"@,
        "readOnlyHint"@ != "openWorldHint"@,
        "destructiveHint"@ != "idempotentHint"@,
        "destructiveHint"@ != "openWorldHint"@,
        "idempotentHint"@ != "openWorldHint"@,
{
    reveal_strlit("title");
    reveal_strlit("readOnlyHint");
    reveal_strlit("destructiveHint");
    reveal_strlit("idempotentHint");
    reveal_strlit("openWorldHint");
    assert("title"@.len() == 5);
    assert("readOnlyHint"@.len() == 12);
    assert("destructiveHint"@.len() == 15);
    assert("idempotentHint"@.len() == 14);
    assert("openWorldHint"@.len() == 13);
}

/// Names that stand together are distinct.
proof fn lemma_name_and_description()
    ensures
        "name"@ != "description"@,
        "name"@ != "inputSchema"@,
        "name"@ != "outputSchema"@,
        "name"@ != "annotations"@,
        "name"@ != "execution"@,
        "description"@ != "inputSchema"@,
        "description"@ != "outputSchema"@,
        "description"@ != "annotations"@,
        "description"@ != "execution"@,
        "inputSchema"@ != "outputSchema"@,
        "inputSchema"@ != "annotations"@,
        "inputSchema"@ != "execution"@,
        "outputSchema"@ != "annotations"@,
        "outputSchema"@ != "execution"@,
        "annotations"@ != "execution"@,
{
    reveal_strlit("name");
    reveal_strlit("description");
    reveal_strlit("inputSchema");
    reveal_strlit("outputSchema");
    reveal_strlit("annotations");
    reveal_strlit("execution");
    assert("name"@.len() == 4);
    assert("description"@.len() == 11);
    assert("inputSchema"@.len() == 11);
    assert("outputSchema"@.len() == 12);
    assert("annotations"@.len() == 11);
    assert("execution"@.len() == 9);
    assert("description"@[0] != "inputSchema"@[0]);
    assert("description"@[0] != "annotations"@[0]);
    assert("inputSchema"@[0] != "annotations"@[0]);
}

/// Names that stand together are distinct.
proof fn lemma_is_error_and_structured_content()
    ensures
        "isError"@ != "structuredContent"@,
        "isError"@ != "content"@,
        "structuredContent"@ != "content"@,
{
    reveal_strlit("isError");
    reveal_strlit("structuredContent");
    reveal_strlit("content");
    assert("isError"@.len() == 7);
    assert("structuredContent"@.len() == 17);
    assert("content"@.len() == 7);
    assert("isError"@[0] != "content"@[0]);
}

/// Names that stand together are distinct.
proof fn lemma_discovery_url_and_authorization_endpoint()
    ensures
        "discoveryUrl"@ != "authorizationEndpoint"@,
        "discoveryUrl"@ != "tokenEndpoint"@,
        "discoveryUrl"@ != "registrationEndpoint"@,
        "authorizationEndpoint"@ != "tokenEndpoint"@,
        "authorizationEndpoint"@ != "registrationEndpoint"@,
        "tokenEndpoint"@ != "registrationEndpoint"@,
{
    reveal_strlit("discoveryUrl");
    reveal_strlit("authorizationEndpoint");
    reveal_strlit("tokenEndpoint");
    reveal_strlit("registrationEndpoint");
    assert("discoveryUrl"@.len() == 12);
    assert("authorizationEndpoint"@.len() == 21);
    assert("tokenEndpoint"@.len() == 13);
    assert("registrationEndpoint"@.len() == 20);
}

/// Names that stand together are distinct.
proof fn lemma_subscribe_and_list_changed()
    ensures
        "subscribe"@ != "listChanged"@,
{
    reveal_strlit("subscribe");
    reveal_strlit("listChanged");
    assert("subscribe"@.len() == 9);
    assert("listChanged"@.len() == 11);
}

/// Names that stand together are distinct.
proof fn lemma_experimental_and_sampling()
    ensures
        "experimental"@ != "sampling"@,
        "experimental"@ != "roots"@,
        "sampling"@ != "roots"@,
{
    reveal_strlit("experimental");
    reveal_strlit("sampling");
    reveal_strlit("roots");
    assert("experimental"@.len() == 12);
    assert("sampling"@.len() == 8);
    assert("roots"@.len() == 5);
}

/// Names that stand together are distinct.
proof fn lemma_protocol_version_and_client_info()
    ensures
        "protocolVersion"@ != "clientInfo"@,
        "protocolVersion"@ != "capabilities"@,
        "protocolVersion"@ != "oauthCredentials"@,
        "clientInfo"@ != "capabilities"@,
        "clientInfo"@ != "oauthCredentials"@,
        "capabilities"@ != "oauthCredentials"@,
{
    reveal_strlit("protocolVersion");
    reveal_strlit("clientInfo");
    reveal_strlit("capabilities");
    reveal_strlit("oauthCredentials");
    assert("protocolVersion"@.len() == 15);
    assert("clientInfo"@.len() == 10);
    assert("capabilities"@.len() == 12);
    assert("oauthCredentials"@.len() == 16);
}

/// Names that stand together are distinct.
proof fn lemma_protocol_version_and_server_info()
    ensures
        "protocolVersion"@ != "serverInfo"@,
        "protocolVersion"@ != "capabilities"@,
        "protocolVersion"@ != "instructions"@,
        "serverInfo"@ != "capabilities"@,
        "serverInfo"@ != "instructions"@,
        "capabilities"@ != "instructions"@,
{
    reveal_strlit("protocolVersion");
    reveal_strlit("serverInfo");
    reveal_strlit("capabilities");
    reveal_strlit("instructions");
    assert("protocolVersion"@.len() == 15);
    assert("serverInfo"@.len() == 10);
    assert("capabilities"@.len() == 12);
    assert("instructions"@.len() == 12);
    assert("capabilities"@[0] != "instructions"@[0]);
}

/// Names that stand together are distinct.
proof fn lemma_progress_token_and_progress()
    ensures
        "progressToken"@ != "progress"@,
        "progressToken"@ != "total"@,
        "progressToken"@ != "message"@,
        "progress"@ != "total"@,
        "progress"@ != "message"@,
        "total"@ != "message"@,
{
    reveal_strlit("progressToken");
    reveal_strlit("progress");
    reveal_strlit("total");
    reveal_strlit("message");
    assert("progressToken"@.len() == 13);
    assert("progress"@.len() == 8);
    assert("total"@.len() == 5);
    assert("message"@.len() == 7);
}

/// Names that stand together are distinct.
proof fn lemma_provider_and_success()
    ensures
        "provider"@ != "success"@,
        "provider"@ != "message"@,
        "provider"@ != "user_id"@,
        "success"@ != "message"@,
        "success"@ != "user_id"@,
        "message"@ != "user_id"@,
{
    reveal_strlit("provider");
    reveal_strlit("success");
    reveal_strlit("message");
    reveal_strlit("user_id");
    assert("provider"@.len() == 8);
    assert("success"@.len() == 7);
    assert("message"@.len() == 7);
    assert("user_id"@.len() == 7);
    assert("success"@[0] != "message"@[0]);
    assert("success"@[0] != "user_id"@[0]);
    assert("message"@[0] != "user_id"@[0]);
}

/// Names that stand together are distinct.
proof fn lemma_jsonrpc_and_method()
    ensures
        "jsonrpc"@ != "method"@,
        "jsonrpc"@ != "params"@,
        "method"@ != "params"@,
{
    reveal_strlit("jsonrpc");
    reveal_strlit("method");
    reveal_strlit("params");
    assert("jsonrpc"@.len() == 7);
    assert("method"@.len() == 6);
    assert("params"@.len() == 6);
    assert("method"@[0] != "params"@[0]);
}

/// Names that stand together are distinct.
proof fn lemma_role_and_content()
    ensures
        "role"@ != "content"@,
{
    reveal_strlit("role");
    reveal_strlit("content");
    assert("role"@.len() == 4);
    assert("content"@.len() == 7);
}

/// Names that stand together are distinct.
proof fn lemma_role_and_model()
    ensures
        "role"@ != "model"@,
        "role"@ != "stopReason"@,
        "role"@ != "content"@,
        "model"@ != "stopReason"@,
        "model"@ != "content"@,
        "stopReason"@ != "content"@,
{
    reveal_strlit("role");
    reveal_strlit("model");
    reveal_strlit("stopReason");
    reveal_strlit("content");
    assert("role"@.len() == 4);
    assert("model"@.len() == 5);
    assert("stopReason"@.len() == 10);
    assert("content"@.len() == 7);
}

/// Names that stand together are distinct.
proof fn lemma_hints_and_cost_priority()
    ensures
        "hints"@ != "costPriority"@,
        "hints"@ != "speedPriority"@,
        "hints"@ != "intelligencePriority"@,
        "costPriority"@ != "speedPriority"@,
        "costPriority"@ != "intelligencePriority"@,
        "speedPriority"@ != "intelligencePriority"@,
{
    reveal_strlit("hints");
    reveal_strlit("costPriority");
    reveal_strlit("speedPriority");
    reveal_strlit("intelligencePriority");
    assert("hints"@.len() == 5);
    assert("costPriority"@.len() == 12);
    assert("speedPriority"@.len() == 13);
    assert("intelligencePriority"@.len() == 20);
}

/// Names that stand together are distinct.
proof fn lemma_type_and_message()
    ensures
        "type"@ != "message"@,
{
    reveal_strlit("type");
    reveal_strlit("message");
    assert("type"@.len() == 4);
    assert("message"@.len() == 7);
}

/// Names that stand together are distinct.
proof fn lemma_status_and_service()
    ensures
        "status"@ != "service"@,
        "status"@ != "version"@,
        "status"@ != "details"@,
        "service"@ != "version"@,
        "service"@ != "details"@,
        "version"@ != "details"@,
{
    reveal_strlit("status");
    reveal_strlit("service");
    reveal_strlit("version");
    reveal_strlit("details");
    assert("status"@.len() == 6);
    assert("service"@.len() == 7);
    assert("version"@.len() == 7);
    assert("details"@.len() == 7);
    assert("service"@[0] != "version"@[0]);
    assert("service"@[0] != "details"@[0]);
    assert("version"@[0] != "details"@[0]);
}

/// Names that stand together are distinct.
proof fn lemma_name_and_arguments()
    ensures
        "name"@ != "arguments"@,
{
    reveal_strlit("name");
    reveal_strlit("arguments");
    assert("name"@.len() == 4);
    assert("arguments"@.len() == 9);
}

/// Names that stand together are distinct.
proof fn lemma_name_and_version_alone()
    ensures
        "name"@ != "version"@,
{
    reveal_strlit("name");
    reveal_strlit("version");
    assert("name"@.len() == 4);
    assert("version"@.len() == 7);
}

/// Names that stand together are distinct.
proof fn lemma_result_type_and_supported_versions()
    ensures
        "resultType"@ != "supportedVersions"@,
        "resultType"@ != "capabilities"@,
        "resultType"@ != "serverInfo"@,
        "resultType"@ != "instructions"@,
        "resultType"@ != "ttlMs"@,
        "resultType"@ != "cacheScope"@,
        "supportedVersions"@ != "capabilities"@,
        "supportedVersions"@ != "serverInfo"@,
        "supportedVersions"@ != "instructions"@,
        "supportedVersions"@ != "ttlMs"@,
        "supportedVersions"@ != "cacheScope"@,
        "capabilities"@ != "serverInfo"@,
        "capabilities"@ != "instructions"@,
        "capabilities"@ != "ttlMs"@,
        "capabilities"@ != "cacheScope"@,
        "serverInfo"@ != "instructions"@,
        "serverInfo"@ != "ttlMs"@,
        "serverInfo"@ != "cacheScope"@,
        "instructions"@ != "ttlMs"@,
        "instructions"@ != "cacheScope"@,
        "ttlMs"@ != "cacheScope"@,
{
    reveal_strlit("resultType");
    reveal_strlit("supportedVersions");
    reveal_strlit("capabilities");
    reveal_strlit("serverInfo");
    reveal_strlit("instructions");
    reveal_strlit("ttlMs");
    reveal_strlit("cacheScope");
    assert("resultType"@.len() == 10);
    assert("supportedVersions"@.len() == 17);
    assert("capabilities"@.len() == 12);
    assert("serverInfo"@.len() == 10);
    assert("instructions"@.len() == 12);
    assert("ttlMs"@.len() == 5);
    assert("cacheScope"@.len() == 10);
    assert("resultType"@[0] != "serverInfo"@[0]);
    assert("resultType"@[0] != "cacheScope"@[0]);
    assert("capabilities"@[0] != "instructions"@[0]);
    assert("serverInfo"@[0] != "cacheScope"@[0]);
}

/// Names that stand together are distinct.
proof fn lemma_task_id_and_status()
    ensures
        "taskId"@ != "status"@,
        "taskId"@ != "statusMessage"@,
        "taskId"@ != "createdAt"@,
        "taskId"@ != "lastUpdatedAt"@,
        "taskId"@ != "ttlMs"@,
        "taskId"@ != "pollIntervalMs"@,
        "status"@ != "statusMessage"@,
        "status"@ != "createdAt"@,
        "status"@ != "lastUpdatedAt"@,
        "status"@ != "ttlMs"@,
        "status"@ != "pollIntervalMs"@,
        "statusMessage"@ != "createdAt"@,
        "statusMessage"@ != "lastUpdatedAt"@,
        "statusMessage"@ != "ttlMs"@,
        "statusMessage"@ != "pollIntervalMs"@,
        "createdAt"@ != "lastUpdatedAt"@,
        "createdAt"@ != "ttlMs"@,
        "createdAt"@ != "pollIntervalMs"@,
        "lastUpdatedAt"@ != "ttlMs"@,
        "lastUpdatedAt"@ != "pollIntervalMs"@,
        "ttlMs"@ != "pollIntervalMs"@,
{
    reveal_strlit("taskId");
    reveal_strlit("status");
    reveal_strlit("statusMessage");
    reveal_strlit("createdAt");
    reveal_strlit("lastUpdatedAt");
    reveal_strlit("ttlMs");
    reveal_strlit("pollIntervalMs");
    assert("taskId"@.len() == 6);
    assert("status"@.len() == 6);
    assert("statusMessage"@.len() == 13);
    assert("createdAt"@.len() == 9);
    assert("lastUpdatedAt"@.len() == 13);
    assert("ttlMs"@.len() == 5);
    assert("pollIntervalMs"@.len() == 14);
    assert("taskId"@[0] != "status"@[0]);
    assert("statusMessage"@[0] != "lastUpdatedAt"@[0]);
}

/// Names that stand together are distinct.
proof fn lemma_type_and_text()
    ensures
        "type"@ != "text"@,
        "type"@ != "data"@,
        "type"@ != "mimeType"@,
        "type"@ != "uri"@,
        "type"@ != "progressToken"@,
        "type"@ != "progress"@,
        "type"@ != "total"@,
        "text"@ != "data"@,
        "text"@ != "mimeType"@,
        "text"@ != "uri"@,
        "text"@ != "progressToken"@,
        "text"@ != "progress"@,
        "text"@ != "total"@,
        "data"@ != "mimeType"@,
        "data"@ != "uri"@,
        "data"@ != "progressToken"@,
        "data"@ != "progress"@,
        "data"@ != "total"@,
        "mimeType"@ != "uri"@,
        "mimeType"@ != "progressToken"@,
        "mimeType"@ != "progress"@,
        "mimeType"@ != "total"@,
        "uri"@ != "progressToken"@,
        "uri"@ != "progress"@,
        "uri"@ != "total"@,
        "progressToken"@ != "progress"@,
        "progressToken"@ != "total"@,
        "progress"@ != "total"@,
{
    reveal_strlit("type");
    reveal_strlit("text");
    reveal_strlit("data");
    reveal_strlit("mimeType");
    reveal_strlit("uri");
    reveal_strlit("progressToken");
    reveal_strlit("progress");
    reveal_strlit("total");
    assert("type"@.len() == 4);
    assert("text"@.len() == 4);
    assert("data"@.len() == 4);
    assert("mimeType"@.len() == 8);
    assert("uri"@.len() == 3);
    assert("progressToken"@.len() == 13);
    assert("progress"@.len() == 8);
    assert("total"@.len() == 5);
    assert("type"@[1] != "text"@[1]);
    assert("type"@[0] != "data"@[0]);
    assert("text"@[0] != "data"@[0]);
    assert("mimeType"@[0] != "progress"@[0]);
}

/// What a client says of its roots is an object that may say whether they change, or nothing.
pub proof fn roots_say_whether_they_change(member: JsonView)
    requires
        member is Object,
    ensures
        is_optional_roots(Some(member)) <==> (member.member("listChanged"@) matches Some(value)
            ==> value is Null || value is Bool),
        is_optional_roots(None),
        is_optional_roots(Some(JsonView::Null)),
{
}

} // verus!
