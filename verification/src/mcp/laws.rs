//! What a server does with every request: the step that a method leads to, and what the step
//! and the answer carry.

use vstd::prelude::*;

use crate::decode::field_view;
use crate::json::{group_find_member, JsonView, NumberView};
use crate::mcp::capabilities::is_initialize_request;
use crate::mcp::host::CallToolOutcome;
use crate::mcp::modern::{era_of, EraView};
use crate::mcp::protocol::{request_in, RequestView, ResponseView};
use crate::mcp::schema::ToolResponse;
use crate::mcp::server::{
    context_served, outcome_answer, owner_view, raw_step, request_step, subscription_refusal,
    task_answer, tools_answer, Config, PendingView, StepView, TaskOp,
};
use crate::mcp::tasks::{DetailedView, Task, TaskErrorView};
use crate::mcp::tool::{lemma_tool_index, names_extension, shown, ContextView, ToolEntry};
use crate::text_laws::{between, holds};

verus! {

/// The methods of a server are distinct.
proof fn lemma_methods_differ()
    ensures
        "initialize"@ != "tools/list"@,
        "initialize"@ != "tools/call"@,
        "initialize"@ != "server/discover"@,
        "initialize"@ != "ping"@,
        "initialize"@ != "tasks/get"@,
        "initialize"@ != "tasks/update"@,
        "initialize"@ != "tasks/cancel"@,
        "initialize"@ != "subscriptions/listen"@,
        "tools/list"@ != "tools/call"@,
        "tools/list"@ != "server/discover"@,
        "tools/list"@ != "ping"@,
        "tools/list"@ != "tasks/get"@,
        "tools/list"@ != "tasks/update"@,
        "tools/list"@ != "tasks/cancel"@,
        "tools/list"@ != "subscriptions/listen"@,
        "tools/call"@ != "server/discover"@,
        "tools/call"@ != "ping"@,
        "tools/call"@ != "tasks/get"@,
        "tools/call"@ != "tasks/update"@,
        "tools/call"@ != "tasks/cancel"@,
        "tools/call"@ != "subscriptions/listen"@,
        "server/discover"@ != "ping"@,
        "server/discover"@ != "tasks/get"@,
        "server/discover"@ != "tasks/update"@,
        "server/discover"@ != "tasks/cancel"@,
        "server/discover"@ != "subscriptions/listen"@,
        "ping"@ != "tasks/get"@,
        "ping"@ != "tasks/update"@,
        "ping"@ != "tasks/cancel"@,
        "ping"@ != "subscriptions/listen"@,
        "tasks/get"@ != "tasks/update"@,
        "tasks/get"@ != "tasks/cancel"@,
        "tasks/get"@ != "subscriptions/listen"@,
        "tasks/update"@ != "tasks/cancel"@,
        "tasks/update"@ != "subscriptions/listen"@,
        "tasks/cancel"@ != "subscriptions/listen"@,
{
    reveal_strlit("initialize");
    reveal_strlit("tools/list");
    reveal_strlit("tools/call");
    reveal_strlit("server/discover");
    reveal_strlit("ping");
    reveal_strlit("tasks/get");
    reveal_strlit("tasks/update");
    reveal_strlit("tasks/cancel");
    reveal_strlit("subscriptions/listen");
    assert("initialize"@.len() == 10);
    assert("tools/list"@.len() == 10);
    assert("tools/call"@.len() == 10);
    assert("server/discover"@.len() == 15);
    assert("ping"@.len() == 4);
    assert("tasks/get"@.len() == 9);
    assert("tasks/update"@.len() == 12);
    assert("tasks/cancel"@.len() == 12);
    assert("subscriptions/listen"@.len() == 20);
    assert("initialize"@[0] != "tools/list"@[0]);
    assert("initialize"@[0] != "tools/call"@[0]);
    assert("tools/list"@[6] != "tools/call"@[6]);
    assert("tasks/update"@[6] != "tasks/cancel"@[6]);
}

/// Whether a request gets as far as its method: it is no notification, it is JSON-RPC, and it
/// is a legacy request or a modern one in a revision that the server speaks.
pub open spec fn comes_through<H>(config: Config<H>, request: RequestView) -> bool {
    &&& request.id is Some
    &&& request.jsonrpc == "2.0"@
    &&& match era_of(request.params) {
        EraView::Legacy => true,
        EraView::Modern(meta) => exists|i: int|
            0 <= i < config.versions.len() && #[trigger] config.versions[i]
                == meta.protocol_version,
        EraView::Malformed(_) => false,
    }
}

/// Whether what is remembered of a request is what it said: its id, and what the client of a
/// modern request can do.
pub open spec fn remembered(pending: PendingView, request: RequestView) -> bool {
    &&& pending.id == request.id
    &&& pending.modern <==> era_of(request.params) is Modern
    &&& match era_of(request.params) {
        EraView::Modern(meta) => pending.client_capabilities == Some(meta.client_capabilities),
        _ => pending.client_capabilities is None,
    }
}

/// Whether an answer is an error of a code.
pub open spec fn is_error_of(response: ResponseView, id: Option<JsonView>, code: int) -> bool {
    &&& response.jsonrpc == "2.0"@
    &&& response.id == id
    &&& response.result is None
    &&& response.error matches Some(error) && error.code == code
}

/// Whether an answer is a success.
pub open spec fn is_success_of(response: ResponseView, id: Option<JsonView>) -> bool {
    &&& response.jsonrpc == "2.0"@
    &&& response.id == id
    &&& response.error is None
    &&& response.result is Some
}

/// Whether arguments are those that were given: themselves, or no members where none were
/// given.
pub open spec fn are_given(arguments: JsonView, given: Option<JsonView>) -> bool {
    match given {
        None => arguments == JsonView::Object(Seq::empty()),
        Some(given) => if given is Null {
            arguments == JsonView::Object(Seq::empty())
        } else {
            arguments == given
        },
    }
}

/// Whether parameters ask for a tool by its name: in an object under `name`, or first in an
/// array of one or two.
pub open spec fn asks_for(params: JsonView, name: Seq<char>) -> bool {
    match params {
        JsonView::Object(_) => params.member("name"@) == Some(JsonView::Text(name)),
        JsonView::Array(items) => 1 <= items.len() <= 2 && items[0] == JsonView::Text(name),
        _ => false,
    }
}

/// The arguments beside the name of a tool.
pub open spec fn given_arguments(params: JsonView) -> Option<JsonView> {
    match params {
        JsonView::Object(_) => params.member("arguments"@),
        JsonView::Array(items) => if items.len() > 1 {
            Some(items[1])
        } else {
            None
        },
        _ => None,
    }
}

/// Where a host owns the tools, a call reaches it as it was sent, in either era: the tool of
/// that name, with those very arguments, and no members only where none were given.
pub proof fn calls_reach_the_host_as_sent<H>(
    config: Config<H>,
    request: RequestView,
    is_admin: bool,
    params: JsonView,
    name: Seq<char>,
)
    requires
        comes_through(config, request),
        request.method == "tools/call"@,
        request.params == Some(params),
        asks_for(params, name),
        config.dispatcher,
    ensures
        request_step(config, request, is_admin) matches StepView::CallTool(
            pending,
            tool,
            arguments,
        ) && remembered(pending, request) && tool == name && are_given(
            arguments,
            given_arguments(params),
        ),
{
    lemma_methods_differ();
}

/// A server's own tool is run when a call names it: the first of that name, with the very
/// arguments that were sent. A tool for administrators is run for nobody else.
pub proof fn calls_run_the_tool_they_name<H>(
    config: Config<H>,
    request: RequestView,
    is_admin: bool,
    params: JsonView,
    name: Seq<char>,
    at: int,
)
    requires
        comes_through(config, request),
        request.method == "tools/call"@,
        request.params == Some(params),
        asks_for(params, name),
        !config.dispatcher,
        0 <= at < config.tools.len(),
        config.tools[at].name == name,
        forall|k: int| 0 <= k < at ==> (#[trigger] config.tools[k]).name != name,
    ensures
        ({
            let step = request_step(config, request, is_admin);
            let guarded = config.tools[at].capabilities.bits & 0b0010_0000 == 0b0010_0000;
            if is_admin || !guarded {
                step matches StepView::RunTool(pending, handler, arguments) && remembered(
                    pending,
                    request,
                ) && handler == config.tools[at].handler && are_given(
                    arguments,
                    given_arguments(params),
                )
            } else {
                step matches StepView::Reply(response) && is_success_of(response, request.id)
                    && says_failure(
                    response.result->0,
                    "Tool '"@ + name + "' requires admin privileges"@,
                )
            }
        }),
{
    broadcast use group_find_member;

    lemma_methods_differ();
    lemma_answer_names_differ();
    lemma_tool_index(config.tools, name);
}

/// A call of a tool that a server does not have is answered with a failure that names it.
pub proof fn calls_of_unknown_tools_fail<H>(
    config: Config<H>,
    request: RequestView,
    is_admin: bool,
    params: JsonView,
    name: Seq<char>,
)
    requires
        comes_through(config, request),
        request.method == "tools/call"@,
        request.params == Some(params),
        asks_for(params, name),
        !config.dispatcher,
        forall|k: int| 0 <= k < config.tools.len() ==> (#[trigger] config.tools[k]).name != name,
    ensures
        request_step(config, request, is_admin) matches StepView::Reply(response) && is_success_of(
            response,
            request.id,
        ) && says_failure(response.result->0, "Unknown tool: "@ + name),
{
    broadcast use group_find_member;

    lemma_methods_differ();
    lemma_answer_names_differ();
    lemma_tool_index(config.tools, name);
}

/// Whether the answer of a tool is one text that tells of a failure.
pub open spec fn says_failure(answer: JsonView, text: Seq<char>) -> bool {
    &&& answer.member("isError"@) == Some(JsonView::Bool(true))
    &&& answer.member("content"@) matches Some(JsonView::Array(items)) && items.len() == 1
        && items[0].member("type"@) == Some(JsonView::Text("text"@)) && items[0].member("text"@)
        == Some(JsonView::Text(text))
}

/// The names of the members of answers are distinct.
proof fn lemma_answer_names_differ()
    ensures
        "content"@ != "isError"@,
        "content"@ != "type"@,
        "content"@ != "text"@,
        "content"@ != "tools"@,
        "content"@ != "resultType"@,
        "content"@ != "structuredContent"@,
        "isError"@ != "type"@,
        "isError"@ != "text"@,
        "isError"@ != "tools"@,
        "isError"@ != "resultType"@,
        "isError"@ != "structuredContent"@,
        "type"@ != "text"@,
        "type"@ != "tools"@,
        "type"@ != "resultType"@,
        "type"@ != "structuredContent"@,
        "text"@ != "tools"@,
        "text"@ != "resultType"@,
        "text"@ != "structuredContent"@,
        "tools"@ != "resultType"@,
        "tools"@ != "structuredContent"@,
        "resultType"@ != "structuredContent"@,
{
    reveal_strlit("content");
    reveal_strlit("isError");
    reveal_strlit("type");
    reveal_strlit("text");
    reveal_strlit("tools");
    reveal_strlit("resultType");
    reveal_strlit("structuredContent");
    assert("content"@.len() == 7);
    assert("isError"@.len() == 7);
    assert("type"@.len() == 4);
    assert("text"@.len() == 4);
    assert("tools"@.len() == 5);
    assert("resultType"@.len() == 10);
    assert("structuredContent"@.len() == 17);
    assert("content"@[0] != "isError"@[0]);
    assert("type"@[1] != "text"@[1]);
}

/// A call whose parameters ask for no tool is refused as such.
pub proof fn calls_must_name_a_tool<H>(config: Config<H>, request: RequestView, is_admin: bool)
    requires
        comes_through(config, request),
        request.method == "tools/call"@,
        request.params matches Some(params) ==> forall|name: Seq<char>| !#[trigger] asks_for(
            params,
            name,
        ),
    ensures
        request_step(config, request, is_admin) matches StepView::Reply(response) && is_error_of(
            response,
            request.id,
            -32_602,
        ),
{
    lemma_methods_differ();
    match request.params {
        Some(params) => match params {
            JsonView::Object(_) => match params.member("name"@) {
                Some(JsonView::Text(name)) => {
                    assert(asks_for(params, name));
                },
                _ => {},
            },
            JsonView::Array(items) => {
                if items.len() > 0 {
                    match items[0] {
                        JsonView::Text(name) => {
                            assert(items.len() <= 2 ==> asks_for(params, name));
                        },
                        _ => {},
                    }
                }
            },
            _ => {},
        },
        None => {},
    }
}

/// What administrators are shown is every tool; what others are shown is every tool that is not
/// for administrators only; each as it is written, in the order of the tools.
pub proof fn shown_tools_are_those_a_caller_may_call<H>(tools: Seq<ToolEntry<H>>)
    ensures
        shown(tools, true).len() == tools.len(),
        forall|i: int| 0 <= i < tools.len() ==> #[trigger] shown(tools, true)[i] == tools[i].wire,
        shown(tools, false) == tools.filter(
            |tool: ToolEntry<H>| tool.capabilities.bits & 0b0010_0000 != 0b0010_0000,
        ).map_values(|tool: ToolEntry<H>| tool.wire),
    decreases tools.len(),
{
    reveal(Seq::filter);
    let open = |tool: ToolEntry<H>| tool.capabilities.bits & 0b0010_0000 != 0b0010_0000;
    let wire = |tool: ToolEntry<H>| tool.wire;
    if tools.len() > 0 {
        let before = tools.drop_last();
        shown_tools_are_those_a_caller_may_call(before);
        assert forall|i: int| 0 <= i < tools.len() implies #[trigger] shown(tools, true)[i]
            == tools[i].wire by {
            if i < before.len() {
                assert(shown(tools, true)[i] == shown(before, true)[i]);
                assert(before[i] == tools[i]);
            }
        }
        if open(tools.last()) {
            assert(tools.filter(open).map_values(wire) =~= before.filter(open).map_values(
                wire,
            ).push(tools.last().wire));
        }
        assert(shown(tools, false) =~= tools.filter(open).map_values(wire));
    } else {
        assert(shown(tools, false) =~= tools.filter(open).map_values(wire));
    }
}

/// Whether a member lists every tool, in order.
pub open spec fn lists<H>(member: Option<JsonView>, tools: Seq<ToolEntry<H>>) -> bool {
    member matches Some(JsonView::Array(items)) && items.len() == tools.len() && forall|i: int|
        0 <= i < items.len() ==> #[trigger] items[i] == tools[i].wire
}

/// `tools/list` is answered with every tool of the server's, in order; or the host is asked for
/// its own.
pub proof fn tool_lists_are_complete<H>(config: Config<H>, request: RequestView, is_admin: bool)
    requires
        comes_through(config, request),
        request.method == "tools/list"@,
    ensures
        ({
            let step = request_step(config, request, is_admin);
            if config.dispatcher {
                step matches StepView::ListTools(pending) && remembered(pending, request)
            } else {
                step matches StepView::Reply(response) && is_success_of(response, request.id)
                    && lists(response.result->0.member("tools"@), config.tools)
            }
        }),
{
    broadcast use group_find_member;

    lemma_methods_differ();
    lemma_answer_names_differ();
    shown_tools_are_those_a_caller_may_call(config.tools);
}

/// The tools that a host names are those that are answered.
pub proof fn the_hosts_tools_are_listed(pending: PendingView, tools: Seq<JsonView>)
    ensures
        is_success_of(tools_answer(pending, tools), pending.id),
        tools_answer(pending, tools).result->0.member("tools"@) == Some(JsonView::Array(tools)),
        pending.modern ==> tools_answer(pending, tools).result->0.member("resultType"@) == Some(
            JsonView::Text("complete"@),
        ),
        !pending.modern ==> tools_answer(pending, tools).result->0.member("resultType"@) is None,
{
    broadcast use group_find_member;

    lemma_answer_names_differ();
}

/// `ping` is answered with an object without members, in the legacy era.
pub proof fn pings_are_answered<H>(config: Config<H>, request: RequestView, is_admin: bool)
    requires
        comes_through(config, request),
        era_of(request.params) is Legacy,
        request.method == "ping"@,
    ensures
        request_step(config, request, is_admin) matches StepView::Reply(response) && is_success_of(
            response,
            request.id,
        ) && response.result == Some(JsonView::Object(Seq::empty())),
{
    lemma_methods_differ();
}

/// The names of the members of what a server says of itself are distinct.
proof fn lemma_handshake_names_differ()
    ensures
        "protocolVersion"@ != "serverInfo"@,
        "protocolVersion"@ != "capabilities"@,
        "protocolVersion"@ != "instructions"@,
        "protocolVersion"@ != "name"@,
        "protocolVersion"@ != "version"@,
        "protocolVersion"@ != "supportedVersions"@,
        "protocolVersion"@ != "resultType"@,
        "protocolVersion"@ != "ttlMs"@,
        "protocolVersion"@ != "cacheScope"@,
        "protocolVersion"@ != "title"@,
        "protocolVersion"@ != "description"@,
        "protocolVersion"@ != "websiteUrl"@,
        "protocolVersion"@ != "extensions"@,
        "serverInfo"@ != "capabilities"@,
        "serverInfo"@ != "instructions"@,
        "serverInfo"@ != "name"@,
        "serverInfo"@ != "version"@,
        "serverInfo"@ != "supportedVersions"@,
        "serverInfo"@ != "resultType"@,
        "serverInfo"@ != "ttlMs"@,
        "serverInfo"@ != "cacheScope"@,
        "serverInfo"@ != "title"@,
        "serverInfo"@ != "description"@,
        "serverInfo"@ != "websiteUrl"@,
        "serverInfo"@ != "extensions"@,
        "capabilities"@ != "instructions"@,
        "capabilities"@ != "name"@,
        "capabilities"@ != "version"@,
        "capabilities"@ != "supportedVersions"@,
        "capabilities"@ != "resultType"@,
        "capabilities"@ != "ttlMs"@,
        "capabilities"@ != "cacheScope"@,
        "capabilities"@ != "title"@,
        "capabilities"@ != "description"@,
        "capabilities"@ != "websiteUrl"@,
        "capabilities"@ != "extensions"@,
        "instructions"@ != "name"@,
        "instructions"@ != "version"@,
        "instructions"@ != "supportedVersions"@,
        "instructions"@ != "resultType"@,
        "instructions"@ != "ttlMs"@,
        "instructions"@ != "cacheScope"@,
        "instructions"@ != "title"@,
        "instructions"@ != "description"@,
        "instructions"@ != "websiteUrl"@,
        "instructions"@ != "extensions"@,
        "name"@ != "version"@,
        "name"@ != "supportedVersions"@,
        "name"@ != "resultType"@,
        "name"@ != "ttlMs"@,
        "name"@ != "cacheScope"@,
        "name"@ != "title"@,
        "name"@ != "description"@,
        "name"@ != "websiteUrl"@,
        "name"@ != "extensions"@,
        "version"@ != "supportedVersions"@,
        "version"@ != "resultType"@,
        "version"@ != "ttlMs"@,
        "version"@ != "cacheScope"@,
        "version"@ != "title"@,
        "version"@ != "description"@,
        "version"@ != "websiteUrl"@,
        "version"@ != "extensions"@,
        "supportedVersions"@ != "resultType"@,
        "supportedVersions"@ != "ttlMs"@,
        "supportedVersions"@ != "cacheScope"@,
        "supportedVersions"@ != "title"@,
        "supportedVersions"@ != "description"@,
        "supportedVersions"@ != "websiteUrl"@,
        "supportedVersions"@ != "extensions"@,
        "resultType"@ != "ttlMs"@,
        "resultType"@ != "cacheScope"@,
        "resultType"@ != "title"@,
        "resultType"@ != "description"@,
        "resultType"@ != "websiteUrl"@,
        "resultType"@ != "extensions"@,
        "ttlMs"@ != "cacheScope"@,
        "ttlMs"@ != "title"@,
        "ttlMs"@ != "description"@,
        "ttlMs"@ != "websiteUrl"@,
        "ttlMs"@ != "extensions"@,
        "cacheScope"@ != "title"@,
        "cacheScope"@ != "description"@,
        "cacheScope"@ != "websiteUrl"@,
        "cacheScope"@ != "extensions"@,
        "title"@ != "description"@,
        "title"@ != "websiteUrl"@,
        "title"@ != "extensions"@,
        "description"@ != "websiteUrl"@,
        "description"@ != "extensions"@,
        "websiteUrl"@ != "extensions"@,
{
    reveal_strlit("protocolVersion");
    reveal_strlit("serverInfo");
    reveal_strlit("capabilities");
    reveal_strlit("instructions");
    reveal_strlit("name");
    reveal_strlit("version");
    reveal_strlit("supportedVersions");
    reveal_strlit("resultType");
    reveal_strlit("ttlMs");
    reveal_strlit("cacheScope");
    reveal_strlit("title");
    reveal_strlit("description");
    reveal_strlit("websiteUrl");
    reveal_strlit("extensions");
    assert("protocolVersion"@.len() == 15);
    assert("serverInfo"@.len() == 10);
    assert("capabilities"@.len() == 12);
    assert("instructions"@.len() == 12);
    assert("name"@.len() == 4);
    assert("version"@.len() == 7);
    assert("supportedVersions"@.len() == 17);
    assert("resultType"@.len() == 10);
    assert("ttlMs"@.len() == 5);
    assert("cacheScope"@.len() == 10);
    assert("title"@.len() == 5);
    assert("description"@.len() == 11);
    assert("websiteUrl"@.len() == 10);
    assert("extensions"@.len() == 10);
    assert("serverInfo"@[0] != "resultType"@[0]);
    assert("serverInfo"@[0] != "cacheScope"@[0]);
    assert("serverInfo"@[0] != "websiteUrl"@[0]);
    assert("serverInfo"@[0] != "extensions"@[0]);
    assert("capabilities"@[0] != "instructions"@[0]);
    assert("resultType"@[0] != "cacheScope"@[0]);
    assert("resultType"@[0] != "websiteUrl"@[0]);
    assert("resultType"@[0] != "extensions"@[0]);
    assert("ttlMs"@[1] != "title"@[1]);
    assert("cacheScope"@[0] != "websiteUrl"@[0]);
    assert("cacheScope"@[0] != "extensions"@[0]);
    assert("websiteUrl"@[0] != "extensions"@[0]);
}

/// Whether an answer says who the server is, what it can do, and its instructions.
pub open spec fn introduces<H>(answer: JsonView, config: Config<H>) -> bool {
    &&& answer.member("serverInfo"@) matches Some(info) && info.member("name"@) == Some(
        JsonView::Text(config.name),
    ) && info.member("version"@) == Some(JsonView::Text(config.version))
    &&& answer.member("instructions"@) == match config.instructions {
        Some(text) => Some(JsonView::Text(text)),
        None => None,
    }
    &&& answer.member("capabilities"@) == Some(config.advertised())
}

/// Whether a handshake asks for a revision.
pub open spec fn asks_for_revision(params: Option<JsonView>, asked: Seq<char>) -> bool {
    params matches Some(params) && is_initialize_request(params) && field_view(
        params,
        "protocolVersion"@,
        0,
    ) == Some(JsonView::Text(asked))
}

/// `initialize` agrees on the revision that was asked for when the server speaks it, and on the
/// current legacy one otherwise; and it says who the server is.
pub proof fn handshakes_agree_on_a_revision<H>(
    config: Config<H>,
    request: RequestView,
    is_admin: bool,
)
    requires
        comes_through(config, request),
        era_of(request.params) is Legacy,
        request.method == "initialize"@,
    ensures
        request_step(config, request, is_admin) matches StepView::Reply(response) && is_success_of(
            response,
            request.id,
        ) && introduces(response.result->0, config) && ({
            let agreed = response.result->0.member("protocolVersion"@);
            &&& agreed matches Some(JsonView::Text(_))
            &&& forall|asked: Seq<char>|
                #[trigger] config.versions.contains(asked) && asks_for_revision(
                    request.params,
                    asked,
                ) ==> agreed == Some(JsonView::Text(asked))
            &&& (forall|asked: Seq<char>|
                #[trigger] config.versions.contains(asked) ==> !asks_for_revision(
                    request.params,
                    asked,
                )) ==> agreed == Some(JsonView::Text("2025-11-25"@))
        }),
{
    broadcast use group_find_member;

    lemma_methods_differ();
    lemma_handshake_names_differ();
}

/// `server/discover` names every revision that the server speaks, in order, and says who the
/// server is, in either era.
pub proof fn discovery_names_every_revision<H>(
    config: Config<H>,
    request: RequestView,
    is_admin: bool,
)
    requires
        comes_through(config, request),
        request.method == "server/discover"@,
    ensures
        request_step(config, request, is_admin) matches StepView::Reply(response) && is_success_of(
            response,
            request.id,
        ) && introduces(response.result->0, config) && ({
            let result = response.result->0;
            &&& result.member("resultType"@) == Some(JsonView::Text("complete"@))
            &&& result.member("supportedVersions"@) matches Some(JsonView::Array(items))
                && items.len() == config.versions.len() && forall|i: int|
                0 <= i < items.len() ==> #[trigger] items[i] == JsonView::Text(config.versions[i])
            &&& result.member("ttlMs"@) == Some(JsonView::Number(NumberView::Unsigned(3_600_000)))
            &&& result.member("cacheScope"@) == Some(JsonView::Text("public"@))
        }),
{
    broadcast use group_find_member;

    lemma_methods_differ();
    lemma_handshake_names_differ();
}

/// Whether the server itself serves a method in an era.
pub open spec fn serves_itself<H>(config: Config<H>, modern: bool, method: Seq<char>) -> bool {
    ||| method == "tools/list"@ || method == "tools/call"@ || method == "server/discover"@
    ||| !modern && (method == "initialize"@ || method == "ping"@)
    ||| modern && config.tasks && (method == "tasks/get"@ || method == "tasks/update"@ || method
        == "tasks/cancel"@ || method == "subscriptions/listen"@)
}

/// Every other method goes to the host that serves further methods, with its parameters; or it
/// is not found.
pub proof fn other_methods_go_to_the_host<H>(
    config: Config<H>,
    request: RequestView,
    is_admin: bool,
)
    requires
        comes_through(config, request),
        !serves_itself(config, era_of(request.params) is Modern, request.method),
    ensures
        ({
            let step = request_step(config, request, is_admin);
            if config.method_handler {
                step matches StepView::AskHost(pending, method, params) && remembered(
                    pending,
                    request,
                ) && method == request.method && params == request.params
            } else {
                step matches StepView::Reply(response) && is_error_of(
                    response,
                    request.id,
                    -32_601,
                ) && response.error->0.message == "Method not found: "@ + request.method
            }
        }),
{
    lemma_methods_differ();
}

/// A task that a client names is seen to: shown, let go on, or called off, as the method says,
/// for a client that declared the extension. Others are told what they lack, and a request
/// without a name is refused.
pub proof fn tasks_are_seen_to_by_name<H>(
    config: Config<H>,
    request: RequestView,
    is_admin: bool,
    op: TaskOp,
)
    requires
        comes_through(config, request),
        era_of(request.params) is Modern,
        config.tasks,
        request.method == match op {
            TaskOp::Get => "tasks/get"@,
            TaskOp::Update => "tasks/update"@,
            TaskOp::Cancel => "tasks/cancel"@,
        },
    ensures
        ({
            let step = request_step(config, request, is_admin);
            let declared = era_of(request.params)->Modern_0.client_capabilities.member(
                "extensions"@,
            ) matches Some(extensions) && extensions.member("io.modelcontextprotocol/tasks"@) is Some;
            if !declared {
                step matches StepView::Reply(response) && is_error_of(
                    response,
                    request.id,
                    -32_021,
                )
            } else {
                match request.params->0.member("taskId"@) {
                    Some(JsonView::Text(named)) => step matches StepView::Task(pending, done, id)
                        && remembered(pending, request) && done == op && id == named,
                    _ => step matches StepView::Reply(response) && is_error_of(
                        response,
                        request.id,
                        -32_602,
                    ),
                }
            }
        }),
{
    lemma_methods_differ();
}

/// A request that is no JSON-RPC, or says that it is modern and then lacks what a modern
/// request must say, or is of a revision that the server does not speak, is answered with an
/// error of its own code, whatever its method. What is no request at all is answered without
/// an id.
pub proof fn bad_requests_are_told_apart<H>(
    config: Config<H>,
    request: RequestView,
    is_admin: bool,
    raw: Seq<char>,
)
    requires
        request.id is Some,
    ensures
        request.jsonrpc != "2.0"@ ==> (request_step(config, request, is_admin) matches StepView::Reply(
            response,
        ) && is_error_of(response, request.id, -32_600)),
        request.jsonrpc == "2.0"@ && era_of(request.params) is Malformed ==> (request_step(
            config,
            request,
            is_admin,
        ) matches StepView::Reply(response) && is_error_of(response, request.id, -32_602)),
        request.jsonrpc == "2.0"@ && (era_of(request.params) matches EraView::Modern(meta)
            && !config.versions.contains(meta.protocol_version)) ==> (request_step(
            config,
            request,
            is_admin,
        ) matches StepView::Reply(response) && is_error_of(response, request.id, -32_022)),
        request_in(raw) is Err ==> (raw_step(config, raw) matches StepView::Reply(response)
            && is_error_of(response, None, -32_700)),
        request_in(raw) matches Ok(read) ==> raw_step(config, raw) == request_step(
            config,
            read,
            false,
        ),
{
}

/// Whether metadata names a client: a name and a version, in an object or in an array of two.
pub open spec fn names_the_client(info: JsonView) -> bool {
    match info {
        JsonView::Object(_) => info.member("name"@) matches Some(JsonView::Text(_))
            && info.member("version"@) matches Some(JsonView::Text(_)),
        JsonView::Array(items) => items.len() == 2 && items[0] is Text && items[1] is Text,
        _ => false,
    }
}

/// A request is modern when its metadata names a protocol version, a client and what the client
/// can do, and these are then what is known of it; it is legacy when no version is named, and
/// malformed otherwise.
pub proof fn eras_are_told_by_the_metadata(params: Option<JsonView>)
    ensures
        ({
            let meta = match params {
                Some(params) => params.member("_meta"@),
                None => None,
            };
            let version = match meta {
                Some(meta) => meta.member("io.modelcontextprotocol/protocolVersion"@),
                None => None,
            };
            match version {
                Some(JsonView::Text(version)) => {
                    let info = meta->0.member("io.modelcontextprotocol/clientInfo"@);
                    let able = meta->0.member("io.modelcontextprotocol/clientCapabilities"@);
                    if (info matches Some(info) && names_the_client(info)) && able is Some {
                        era_of(params) matches EraView::Modern(read) && read.protocol_version
                            == version && read.client_capabilities == able->0
                    } else {
                        era_of(params) is Malformed
                    }
                },
                _ => era_of(params) is Legacy,
            }
        }),
{
}

/// A modern request is that of the client and at the level of detail that its metadata name; a
/// malformed one is told which member is amiss.
pub proof fn the_metadata_name_the_client(params: JsonView, meta: JsonView)
    requires
        params.member("_meta"@) == Some(meta),
    ensures
        era_of(Some(params)) matches EraView::Modern(read) ==> {
            &&& meta.member("io.modelcontextprotocol/clientInfo"@) matches Some(info) && (
            info is Object ==> info.member("name"@) == Some(JsonView::Text(read.client_name))
                && info.member("version"@) == Some(JsonView::Text(read.client_version)))
            &&& read.log_level == match meta.member("io.modelcontextprotocol/logLevel"@) {
                Some(JsonView::Text(level)) => Some(level),
                _ => None,
            }
        },
        era_of(Some(params)) matches EraView::Malformed(reason) ==> if meta.member(
            "io.modelcontextprotocol/clientInfo"@,
        ) matches Some(info) && names_the_client(info) {
            holds(reason, "io.modelcontextprotocol/clientCapabilities"@)
        } else {
            holds(reason, "io.modelcontextprotocol/clientInfo"@)
        },
{
    let able = "io.modelcontextprotocol/clientCapabilities"@;
    let who = "io.modelcontextprotocol/clientInfo"@;
    assert("missing required _meta field '"@ + able + "'"@ =~= between(
        "missing required _meta field '"@,
        able,
        "'"@,
    ));
    assert("missing or invalid required _meta field '"@ + who + "'"@ =~= between(
        "missing or invalid required _meta field '"@,
        who,
        "'"@,
    ));
}

/// The answer of a tool goes to the client as it is: a modern one says beside it that it is
/// complete, and nothing else is added or lost.
pub proof fn answers_of_tools_are_kept(
    pending: PendingView,
    tasks: bool,
    response: Box<ToolResponse>,
    name: Seq<char>,
)
    ensures
        ({
            let answer = outcome_answer(pending, tasks, CallToolOutcome::Immediate(response));
            &&& is_success_of(answer, pending.id)
            &&& name != "resultType"@ ==> answer.result->0.member(name) == (*response).wire().member(
                name,
            )
            &&& answer.result->0.member("resultType"@) == if pending.modern {
                Some(JsonView::Text("complete"@))
            } else {
                None
            }
        }),
{
    broadcast use group_find_member;

    lemma_answer_names_differ();
}

/// A task handle says that it is one, and names the task, in the answer to a client that
/// declared the extension, from a server that keeps tasks.
pub proof fn handles_name_their_task(pending: PendingView, task: Box<Task>)
    requires
        pending.client_capabilities matches Some(able) && able.member("extensions"@) matches Some(
            extensions,
        ) && extensions.member("io.modelcontextprotocol/tasks"@) is Some,
    ensures
        ({
            let answer = outcome_answer(pending, true, CallToolOutcome::Task(task));
            &&& is_success_of(answer, pending.id)
            &&& answer.result->0.member("resultType"@) == Some(JsonView::Text("task"@))
            &&& answer.result->0.member("taskId"@) == Some(JsonView::Text((*task)@.task_id))
            &&& answer.result->0.member("status"@) == Some(
                JsonView::Text((*task)@.status.word()),
            )
        }),
{
    broadcast use group_find_member;

    lemma_task_names_differ();
}

/// The names of the members of a task are distinct.
pub(crate) proof fn lemma_task_names_differ()
    ensures
        "resultType"@ != "taskId"@,
        "resultType"@ != "status"@,
        "resultType"@ != "statusMessage"@,
        "resultType"@ != "createdAt"@,
        "resultType"@ != "lastUpdatedAt"@,
        "resultType"@ != "ttlMs"@,
        "resultType"@ != "pollIntervalMs"@,
        "resultType"@ != "inputRequests"@,
        "resultType"@ != "result"@,
        "resultType"@ != "error"@,
        "taskId"@ != "status"@,
        "taskId"@ != "statusMessage"@,
        "taskId"@ != "createdAt"@,
        "taskId"@ != "lastUpdatedAt"@,
        "taskId"@ != "ttlMs"@,
        "taskId"@ != "pollIntervalMs"@,
        "taskId"@ != "inputRequests"@,
        "taskId"@ != "result"@,
        "taskId"@ != "error"@,
        "status"@ != "statusMessage"@,
        "status"@ != "createdAt"@,
        "status"@ != "lastUpdatedAt"@,
        "status"@ != "ttlMs"@,
        "status"@ != "pollIntervalMs"@,
        "status"@ != "inputRequests"@,
        "status"@ != "result"@,
        "status"@ != "error"@,
        "statusMessage"@ != "createdAt"@,
        "statusMessage"@ != "lastUpdatedAt"@,
        "statusMessage"@ != "ttlMs"@,
        "statusMessage"@ != "pollIntervalMs"@,
        "statusMessage"@ != "inputRequests"@,
        "statusMessage"@ != "result"@,
        "statusMessage"@ != "error"@,
        "createdAt"@ != "lastUpdatedAt"@,
        "createdAt"@ != "ttlMs"@,
        "createdAt"@ != "pollIntervalMs"@,
        "createdAt"@ != "inputRequests"@,
        "createdAt"@ != "result"@,
        "createdAt"@ != "error"@,
        "lastUpdatedAt"@ != "ttlMs"@,
        "lastUpdatedAt"@ != "pollIntervalMs"@,
        "lastUpdatedAt"@ != "inputRequests"@,
        "lastUpdatedAt"@ != "result"@,
        "lastUpdatedAt"@ != "error"@,
        "ttlMs"@ != "pollIntervalMs"@,
        "ttlMs"@ != "inputRequests"@,
        "ttlMs"@ != "result"@,
        "ttlMs"@ != "error"@,
        "pollIntervalMs"@ != "inputRequests"@,
        "pollIntervalMs"@ != "result"@,
        "pollIntervalMs"@ != "error"@,
        "inputRequests"@ != "result"@,
        "inputRequests"@ != "error"@,
        "result"@ != "error"@,
{
    reveal_strlit("resultType");
    reveal_strlit("taskId");
    reveal_strlit("status");
    reveal_strlit("statusMessage");
    reveal_strlit("createdAt");
    reveal_strlit("lastUpdatedAt");
    reveal_strlit("ttlMs");
    reveal_strlit("pollIntervalMs");
    reveal_strlit("inputRequests");
    reveal_strlit("result");
    reveal_strlit("error");
    assert("resultType"@.len() == 10);
    assert("taskId"@.len() == 6);
    assert("status"@.len() == 6);
    assert("statusMessage"@.len() == 13);
    assert("createdAt"@.len() == 9);
    assert("lastUpdatedAt"@.len() == 13);
    assert("ttlMs"@.len() == 5);
    assert("pollIntervalMs"@.len() == 14);
    assert("inputRequests"@.len() == 13);
    assert("result"@.len() == 6);
    assert("error"@.len() == 5);
    assert("taskId"@[0] != "status"@[0]);
    assert("taskId"@[0] != "result"@[0]);
    assert("status"@[0] != "result"@[0]);
    assert("statusMessage"@[0] != "lastUpdatedAt"@[0]);
    assert("statusMessage"@[0] != "inputRequests"@[0]);
    assert("lastUpdatedAt"@[0] != "inputRequests"@[0]);
    assert("ttlMs"@[0] != "error"@[0]);
}

/// `tasks/get` shows the task: who it is, where it stands, and what it carries. The other
/// methods are acknowledged, and a failure is told with its code.
pub proof fn tasks_are_shown_as_they_are(
    pending: PendingView,
    op: TaskOp,
    task: DetailedView,
    error: TaskErrorView,
)
    ensures
        is_success_of(task_answer(pending, op, Ok(task)), pending.id),
        ({
            let result = task_answer(pending, op, Ok(task)).result->0;
            &&& result.member("resultType"@) == Some(JsonView::Text("complete"@))
            &&& op != TaskOp::Get ==> result.member("taskId"@) is None && result.member("status"@) is None
            &&& op == TaskOp::Get ==> {
                &&& result.member("taskId"@) == Some(JsonView::Text(task.task.task_id))
                &&& result.member("status"@) == Some(JsonView::Text(task.task.status.word()))
                &&& result.member("createdAt"@) == Some(JsonView::Text(task.task.created_at))
                &&& result.member("lastUpdatedAt"@) == Some(
                    JsonView::Text(task.task.last_updated_at),
                )
                &&& result.member("ttlMs"@) == Some(
                    match task.task.ttl_ms {
                        Some(ttl) => JsonView::Number(NumberView::Unsigned(ttl)),
                        None => JsonView::Null,
                    },
                )
                &&& result.member("result"@) == match task.payload {
                    crate::mcp::tasks::PayloadView::Completed(members) => Some(
                        JsonView::Object(members),
                    ),
                    _ => None,
                }
                &&& result.member("error"@) == match task.payload {
                    crate::mcp::tasks::PayloadView::Failed(members) => Some(
                        JsonView::Object(members),
                    ),
                    _ => None,
                }
                &&& result.member("inputRequests"@) == match task.payload {
                    crate::mcp::tasks::PayloadView::InputRequired(members) => Some(
                        JsonView::Object(members),
                    ),
                    _ => None,
                }
            }
        }),
        is_error_of(
            task_answer(pending, op, Err(error)),
            pending.id,
            if error is Store {
                -32_603
            } else {
                -32_602
            },
        ),
{
    broadcast use group_find_member;

    lemma_task_names_differ();
}

/// A stream of task notifications is opened for a modern request in a revision that the server
/// speaks, from a client that declared the extension, at a server that keeps tasks, and
/// otherwise refused with the code of what it lacks.
pub proof fn streams_open_for_declaring_clients<H>(config: Config<H>, request: RequestView)
    ensures
        ({
            let refusal = subscription_refusal(config, request);
            let code = match era_of(request.params) {
                EraView::Modern(meta) => if !config.versions.contains(meta.protocol_version) {
                    Some(-32_022int)
                } else if meta.client_capabilities.member("extensions"@) matches Some(extensions)
                    && extensions.member("io.modelcontextprotocol/tasks"@) is Some {
                    None
                } else {
                    Some(-32_021int)
                },
                _ => Some(-32_602int),
            };
            if !config.tasks {
                refusal matches Some(response) && is_error_of(response, request.id, -32_601)
            } else {
                match code {
                    Some(code) => refusal matches Some(response) && is_error_of(
                        response,
                        request.id,
                        code,
                    ),
                    None => refusal is None,
                }
            }
        }),
{
}

/// Who the caller is does not change on the way: only what the client can do is taken from the
/// request, where it says so.
pub proof fn callers_stay_who_they_are(ctx: ContextView, pending: PendingView)
    ensures
        ({
            let served = context_served(ctx, pending);
            &&& served.user_id == ctx.user_id
            &&& served.tenant_id == ctx.tenant_id
            &&& served.auth_method == ctx.auth_method
            &&& served.request_id == ctx.request_id
            &&& served.is_admin == ctx.is_admin
            &&& served.scopes == ctx.scopes
            &&& pending.client_capabilities is Some ==> served.client_capabilities
                == pending.client_capabilities
            &&& pending.client_capabilities is None ==> served.client_capabilities
                == ctx.client_capabilities
            &&& owner_view(served) == owner_view(ctx)
        }),
{
}

/// Two callers own the same tasks exactly when they are the same user of the same tenant.
pub proof fn owners_are_users_of_a_tenant(a: ContextView, b: ContextView)
    ensures
        owner_view(a) == owner_view(b) <==> a.user_id == b.user_id && a.tenant_id == b.tenant_id,
{
}

/// A client declares an extension by naming it under `extensions`, and in no other way.
pub proof fn extensions_are_declared_by_name(able: JsonView, id: Seq<char>)
    ensures
        !names_extension(None, id),
        names_extension(Some(able), id) <==> (able.member("extensions"@) matches Some(extensions)
            && extensions.member(id) is Some),
{
}

/// Whether a refusal says which revisions the server speaks, in order, and which was asked for.
pub open spec fn offers(
    response: ResponseView,
    versions: Seq<Seq<char>>,
    requested: Seq<char>,
) -> bool {
    &&& response.error is Some
    &&& response.error->0.data is Some
    &&& response.error->0.data->0.member("requested"@) == Some(JsonView::Text(requested))
    &&& response.error->0.data->0.member("supported"@) matches Some(JsonView::Array(items))
        && items.len() == versions.len() && (forall|i: int|
        0 <= i < items.len() ==> #[trigger] items[i] == JsonView::Text(versions[i]))
}

/// Whether a refusal says that the client must declare the extension for tasks.
pub open spec fn asks_to_declare(response: ResponseView) -> bool {
    &&& response.error is Some
    &&& response.error->0.data is Some
    &&& response.error->0.data->0.member("requiredCapabilities"@) matches Some(
        JsonView::Array(items),
    ) && items.len() == 1 && items[0] == JsonView::Text("io.modelcontextprotocol/tasks"@)
}

/// A request in a foreign revision is told the revisions that the server speaks, and a client
/// that did not declare the extension for tasks is told to, whatever it asks of tasks.
pub proof fn refusals_say_what_would_do<H>(config: Config<H>, request: RequestView, is_admin: bool)
    requires
        request.id is Some,
        request.jsonrpc == "2.0"@,
        era_of(request.params) is Modern,
    ensures
        ({
            let meta = era_of(request.params)->Modern_0;
            let foreign = !config.versions.contains(meta.protocol_version);
            let declared = meta.client_capabilities.member("extensions"@) matches Some(extensions)
                && extensions.member("io.modelcontextprotocol/tasks"@) is Some;
            let step = request_step(config, request, is_admin);
            &&& foreign ==> (step matches StepView::Reply(response) && offers(
                response,
                config.versions,
                meta.protocol_version,
            ))
            &&& config.tasks && foreign ==> (subscription_refusal(config, request) matches Some(
                response,
            ) && offers(response, config.versions, meta.protocol_version))
            &&& config.tasks && !foreign && !declared && (request.method == "tasks/get"@
                || request.method == "tasks/update"@ || request.method == "tasks/cancel"@) ==> (
            step matches StepView::Reply(response) && asks_to_declare(response))
            &&& config.tasks && !foreign && !declared ==> (subscription_refusal(
                config,
                request,
            ) matches Some(response) && asks_to_declare(response))
        }),
{
    broadcast use group_find_member;

    lemma_methods_differ();
    lemma_offer_names_differ();
}

/// The names of the members of an offer are distinct.
proof fn lemma_offer_names_differ()
    ensures
        "supported"@ != "requested"@,
{
    reveal_strlit("supported");
    reveal_strlit("requested");
    assert("supported"@.len() == 9);
    assert("requested"@.len() == 9);
    assert("supported"@[0] != "requested"@[0]);
}

} // verus!
