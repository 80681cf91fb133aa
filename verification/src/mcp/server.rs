//! The MCP server: what is to be done with a request, and what to answer.
//!
//! A server decides; the host acts. `handle_request_with_context` answers a request
//! or says what the host must do first, and the `finish_..` functions turn what came
//! of it into the answer.

use vstd::prelude::*;

use crate::clock::{current_timestamp, is_stamp, utc_now, Timestamp};
use crate::decode::view_of;
use crate::error::{
    INTERNAL_ERROR, INVALID_PARAMS, INVALID_REQUEST, METHOD_NOT_FOUND,
    MISSING_REQUIRED_CLIENT_CAPABILITY, PARSE_ERROR, UNSUPPORTED_PROTOCOL_VERSION,
};
use crate::json::{
    and_some, dup_option, fields, find_member, group_find_member, item_views, member_views,
    no_members, option_view, put, put_text, some_object, text_list, text_view, Json,
    JsonView, Member,
};
use crate::mcp::capabilities::{
    bare, dup_object, initialize_json, is_initialize_request, text_of, InitializeRequest,
    InitializeResponse, ServerCapabilities,
};
use crate::mcp::host::CallToolOutcome;
use crate::mcp::modern::{
    discover_json, era_of, DiscoverResult, EraView, MetaView, ModernMeta, ModernRequestMeta,
    PROTOCOL_VERSION_2026_07_28,
};
use crate::mcp::protocol::{
    error_view, failure_view, request_in, success_view, JsonRpcRequest, JsonRpcResponse,
    RequestView, ResponseView, JSONRPC_VERSION, PROTOCOL_VERSION,
};
use crate::mcp::schema::{
    dup_text, identity_json, text_answer, tool_call_of, ServerInfo, Tool, ToolCall,
};
use crate::mcp::tasks::manager::{moved, resumed};
use crate::mcp::tasks::store::{visible, TaskTable};
use crate::mcp::tasks::subscription::streams_told;
use crate::mcp::tasks::{
    ack_json, get_task_json, handle_json, task_error_text, CreateTaskResult, DetailedTask, DetailedView,
    GetTaskResult, OwnerView, PayloadView, Task, TaskAck, TaskError, TaskErrorView,
    TaskId, TaskManager, TaskOwner, TaskPayload, TaskStore, TaskSubscription, TASKS_EXTENSION_ID,
};
use crate::mcp::tasks::method_names;
use crate::mcp::tool::{
    call_refusal, declares, names_extension, shown, tool_named, tool_wires, CallDecision,
    CategoryView, ContextView, ToolContext, ToolEntry, ToolRegistry,
};
use crate::text::{dup_texts, is_among, same, views};

verus! {

/// The protocol revisions a server speaks by default, the preferred first.
pub open spec fn default_versions() -> Seq<Seq<char>> {
    Seq::empty().push(PROTOCOL_VERSION_2026_07_28@).push(PROTOCOL_VERSION@)
}

/// The protocol revisions a server speaks by default, the preferred first.
pub fn default_supported_versions() -> (versions: Vec<String>)
    ensures
        views(versions@) == default_versions(),
{
    let mut versions: Vec<String> = Vec::new();
    versions.push(PROTOCOL_VERSION_2026_07_28.to_owned());
    versions.push(PROTOCOL_VERSION.to_owned());
    assert(views(versions@) =~= default_versions());
    versions
}

// ---------------------------------------------------------------------------
// Configuration
// ---------------------------------------------------------------------------

/// A server and its tools; `H` is what runs a tool.
pub struct McpServer<H> {
    name: String,
    version: String,
    tools: ToolRegistry<H>,
    capabilities: ServerCapabilities,
    instructions: Option<String>,
    supported_versions: Vec<String>,
    allowed_origins: Vec<String>,
    has_auth_hook: bool,
    has_tool_dispatcher: bool,
    has_method_handler: bool,
    has_task_manager: bool,
}

/// How a server is configured.
pub struct Config<H> {
    /// Server name.
    pub name: Seq<char>,
    /// Server version.
    pub version: Seq<char>,
    /// The tools of its own.
    pub tools: Seq<ToolEntry<H>>,
    /// The categories of those tools.
    pub categories: Seq<CategoryView>,
    /// What it can do, but for extensions.
    pub capabilities: Seq<(Seq<char>, JsonView)>,
    /// The extensions it was given.
    pub extensions: Option<JsonView>,
    /// Instructions for clients.
    pub instructions: Option<Seq<char>>,
    /// The protocol revisions it speaks.
    pub versions: Seq<Seq<char>>,
    /// The origins it accepts.
    pub origins: Seq<Seq<char>>,
    /// Whether a host authenticates callers.
    pub auth_hook: bool,
    /// Whether a host owns the tools.
    pub dispatcher: bool,
    /// Whether a host serves further methods.
    pub method_handler: bool,
    /// Whether tasks are kept.
    pub tasks: bool,
}

/// The members of an object of extensions that names tasks.
pub open spec fn with_tasks_named(members: Seq<(Seq<char>, JsonView)>) -> Seq<(Seq<char>, JsonView)> {
    if find_member(members, TASKS_EXTENSION_ID@) is Some {
        members
    } else {
        members.push((TASKS_EXTENSION_ID@, bare()))
    }
}

/// The members of an object of extensions that does not name tasks.
pub open spec fn with_tasks_unnamed(members: Seq<(Seq<char>, JsonView)>) -> Seq<
    (Seq<char>, JsonView),
>
    decreases members.len(),
{
    if members.len() == 0 {
        members
    } else {
        let before = with_tasks_unnamed(members.drop_last());
        if members.last().0 == TASKS_EXTENSION_ID@ {
            before
        } else {
            before.push(members.last())
        }
    }
}

impl<H> Config<H> {
    /// The extensions the server advertises: those it was given, and tasks when and only
    /// when it keeps them.
    pub open spec fn advertised_extensions(self) -> Option<JsonView> {
        if !self.tasks {
            match self.extensions {
                Some(JsonView::Object(members)) => Some(
                    JsonView::Object(with_tasks_unnamed(members)),
                ),
                other => other,
            }
        } else {
            match self.extensions {
                Some(JsonView::Object(members)) => Some(JsonView::Object(with_tasks_named(members))),
                _ => Some(JsonView::Object(with_tasks_named(fields()))),
            }
        }
    }

    /// The capabilities the server advertises.
    pub open spec fn advertised(self) -> JsonView {
        JsonView::Object(
            and_some(self.capabilities, "extensions"@, self.advertised_extensions()),
        )
    }

    /// Who the server says it is.
    pub open spec fn identity(self) -> JsonView {
        identity_json(self.name, self.version, None, None, None)
    }
}

impl<H> McpServer<H> {
    /// How the server is configured.
    pub closed spec fn config(&self) -> Config<H> {
        Config {
            name: self.name@,
            version: self.version@,
            tools: self.tools.tools(),
            categories: self.tools.groups(),
            capabilities: self.capabilities.base_wire(),
            extensions: some_object(self.capabilities.extensions),
            instructions: text_view(self.instructions),
            versions: views(self.supported_versions@),
            origins: views(self.allowed_origins@),
            auth_hook: self.has_auth_hook,
            dispatcher: self.has_tool_dispatcher,
            method_handler: self.has_method_handler,
            tasks: self.has_task_manager,
        }
    }

    /// A server that offers its own tools, in the modern and the current legacy
    /// protocol revision.
    pub fn new(name: &str, version: &str, tools: ToolRegistry<H>) -> (server: Self)
        ensures
            server.config() == (Config {
                name: name@,
                version: version@,
                tools: tools.tools(),
                categories: tools.groups(),
                capabilities: fields().push(
                    ("tools"@, crate::mcp::capabilities::list_changed_json(Some(false))),
                ),
                extensions: None,
                instructions: None,
                versions: default_versions(),
                origins: Seq::empty(),
                auth_hook: false,
                dispatcher: false,
                method_handler: false,
                tasks: false,
            }),
    {
        let server = McpServer {
            name: name.to_owned(),
            version: version.to_owned(),
            tools,
            capabilities: ServerCapabilities::tools_only(),
            instructions: None,
            supported_versions: default_supported_versions(),
            allowed_origins: Vec::new(),
            has_auth_hook: false,
            has_tool_dispatcher: false,
            has_method_handler: false,
            has_task_manager: false,
        };
        assert(server.config().origins =~= Seq::empty());
        server
    }

    /// The server with other capabilities.
    pub fn with_capabilities(self, capabilities: ServerCapabilities) -> (server: Self)
        ensures
            server.config() == (Config {
                capabilities: capabilities.base_wire(),
                extensions: some_object(capabilities.extensions),
                ..self.config()
            }),
    {
        McpServer { capabilities, ..self }
    }

    /// The server with instructions for clients.
    pub fn with_instructions(self, instructions: &str) -> (server: Self)
        ensures
            server.config() == (Config { instructions: Some(instructions@), ..self.config() }),
    {
        McpServer { instructions: Some(instructions.to_owned()), ..self }
    }

    /// The server with other protocol revisions, the preferred first.
    pub fn with_supported_versions(self, versions: Vec<String>) -> (server: Self)
        ensures
            server.config() == (Config { versions: views(versions@), ..self.config() }),
    {
        McpServer { supported_versions: versions, ..self }
    }

    /// The server with a host that authenticates callers.
    pub fn with_auth_hook(self) -> (server: Self)
        ensures
            server.config() == (Config { auth_hook: true, ..self.config() }),
    {
        McpServer { has_auth_hook: true, ..self }
    }

    /// The server with a list of origins it accepts. With an empty list it accepts
    /// loopback origins only; with `"*"` in the list, all.
    pub fn with_allowed_origins(self, origins: Vec<String>) -> (server: Self)
        ensures
            server.config() == (Config { origins: views(origins@), ..self.config() }),
    {
        McpServer { allowed_origins: origins, ..self }
    }

    /// The server with a host that owns the tools.
    pub fn with_tool_dispatcher(self) -> (server: Self)
        ensures
            server.config() == (Config { dispatcher: true, ..self.config() }),
    {
        McpServer { has_tool_dispatcher: true, ..self }
    }

    /// The server with a host that serves further methods.
    pub fn with_method_handler(self) -> (server: Self)
        ensures
            server.config() == (Config { method_handler: true, ..self.config() }),
    {
        McpServer { has_method_handler: true, ..self }
    }

    /// The server with tasks.
    pub fn with_task_manager(self) -> (server: Self)
        ensures
            server.config() == (Config { tasks: true, ..self.config() }),
    {
        McpServer { has_task_manager: true, ..self }
    }

    /// The origins the server accepts.
    pub fn allowed_origins(&self) -> (origins: &[String])
        ensures
            views(origins@) == self.config().origins,
    {
        self.allowed_origins.as_slice()
    }

    /// Whether a host authenticates callers.
    pub fn authenticates(&self) -> (gated: bool)
        ensures
            gated == self.config().auth_hook,
    {
        self.has_auth_hook
    }

    /// Whether the server speaks a protocol revision.
    pub fn accepts_protocol_version(&self, version: &str) -> (accepted: bool)
        ensures
            accepted == self.config().versions.contains(version@),
    {
        is_among(version, self.supported_versions.as_slice())
    }

    /// The protocol revisions the server speaks, the preferred first.
    pub fn advertised_protocol_versions(&self) -> (versions: &Vec<String>)
        ensures
            views(versions@) == self.config().versions,
    {
        &self.supported_versions
    }

    /// The server's own tools.
    pub fn tools(&self) -> (tools: &ToolRegistry<H>)
        ensures
            tools.tools() == self.config().tools,
            tools.groups() == self.config().categories,
    {
        &self.tools
    }

    /// The capabilities the server advertises.
    fn advertised_capabilities(&self) -> (capabilities: ServerCapabilities)
        ensures
            capabilities.wire() == self.config().advertised(),
    {
        let mut capabilities = self.capabilities.dup();
        if self.has_task_manager {
            let mut extensions = match dup_object(&self.capabilities.extensions) {
                Some(extensions) => extensions,
                None => no_members(),
            };
            let ghost given = member_views(extensions@);
            let mut named = false;
            let mut i: usize = 0;
            proof {
                crate::json::lemma_member_index(given, TASKS_EXTENSION_ID@);
            }
            while i < extensions.len()
                invariant
                    i <= extensions.len(),
                    given == member_views(extensions@),
                    named == (exists|k: int| 0 <= k < i && given[k].0 == TASKS_EXTENSION_ID@),
                decreases extensions.len() - i,
            {
                assert(given[i as int].0 == extensions@[i as int].key@);
                if same(extensions[i].key.as_str(), TASKS_EXTENSION_ID) {
                    named = true;
                }
                i += 1;
            }
            assert(named == (find_member(given, TASKS_EXTENSION_ID@) is Some));
            if !named {
                put(&mut extensions, TASKS_EXTENSION_ID, Json::object(no_members()));
            }
            assert(member_views(extensions@) == with_tasks_named(given));
            let ghost base = capabilities.base_wire();
            capabilities.extensions = Some(extensions);
            assert(capabilities.base_wire() == base);
        } else {
            let kept = match &self.capabilities.extensions {
                Some(extensions) => Some(without_tasks(extensions)),
                None => None,
            };
            let ghost base = capabilities.base_wire();
            capabilities.extensions = kept;
            assert(capabilities.base_wire() == base);
        }
        capabilities
    }
}

/// The extensions other than tasks.
fn without_tasks(extensions: &Vec<Member>) -> (kept: Vec<Member>)
    ensures
        member_views(kept@) == with_tasks_unnamed(member_views(extensions@)),
{
    let ghost given = member_views(extensions@);
    let mut kept = no_members();
    let mut i: usize = 0;
    assert(given.take(0) =~= fields());
    while i < extensions.len()
        invariant
            i <= extensions.len(),
            given == member_views(extensions@),
            member_views(kept@) == with_tasks_unnamed(given.take(i as int)),
        decreases extensions.len() - i,
    {
        proof {
            assert(given.take(i + 1).drop_last() =~= given.take(i as int));
            assert(given.take(i + 1).last() == given[i as int]);
        }
        if !same(extensions[i].key.as_str(), TASKS_EXTENSION_ID) {
            put(&mut kept, extensions[i].key.as_str(), extensions[i].value.dup());
        }
        i += 1;
    }
    assert(given.take(i as int) =~= given);
    kept
}

// ---------------------------------------------------------------------------
// Steps
// ---------------------------------------------------------------------------

/// What is known of a request while the host works on it.
#[derive(Debug)]
pub struct Pending {
    /// The request's id.
    pub id: Option<Json>,
    /// Whether the request is of the modern era.
    pub modern: bool,
    /// What the client said it can do, with a modern request.
    pub client_capabilities: Option<Json>,
}

/// What is known of a request while the host works on it.
pub struct PendingView {
    /// The request's id.
    pub id: Option<JsonView>,
    /// Whether the request is of the modern era.
    pub modern: bool,
    /// What the client said it can do.
    pub client_capabilities: Option<JsonView>,
}

impl View for Pending {
    type V = PendingView;

    open spec fn view(&self) -> PendingView {
        PendingView {
            id: option_view(self.id),
            modern: self.modern,
            client_capabilities: option_view(self.client_capabilities),
        }
    }
}

/// What is to be done with a task.
#[derive(Debug, Clone, Copy, PartialEq, Eq, Structural)]
pub enum TaskOp {
    /// Show it.
    Get,
    /// Let it go on after its input arrived.
    Update,
    /// Call it off.
    Cancel,
}

/// What is to be done with a request.
pub enum Step<'a, H> {
    /// Nothing: it was a notification.
    Silent,
    /// Answer this.
    Reply(JsonRpcResponse),
    /// Ask the host for its tools, then `finish_list`.
    ListTools(Pending),
    /// Let the host run a tool of its own, then `finish_call`.
    CallTool {
        /// What is known of the request.
        pending: Pending,
        /// The tool.
        name: String,
        /// Its arguments.
        arguments: Json,
    },
    /// Run this tool of the server's, then `finish_call`.
    RunTool {
        /// What is known of the request.
        pending: Pending,
        /// What runs the tool.
        handler: &'a H,
        /// Its arguments.
        arguments: Json,
    },
    /// Offer the method to the host, then `finish_method`.
    AskHost {
        /// What is known of the request.
        pending: Pending,
        /// The method.
        method: String,
        /// Its parameters.
        params: Option<Json>,
    },
    /// See to a task of the caller's, then `finish_task`.
    Task {
        /// What is known of the request.
        pending: Pending,
        /// What is to be done.
        op: TaskOp,
        /// The task.
        task_id: TaskId,
    },
}

/// What is to be done with a request.
pub enum StepView<H> {
    /// Nothing.
    Silent,
    /// Answer this.
    Reply(ResponseView),
    /// Ask the host for its tools.
    ListTools(PendingView),
    /// Let the host run a tool of its own.
    CallTool(PendingView, Seq<char>, JsonView),
    /// Run this tool of the server's.
    RunTool(PendingView, H, JsonView),
    /// Offer the method to the host.
    AskHost(PendingView, Seq<char>, Option<JsonView>),
    /// See to a task of the caller's.
    Task(PendingView, TaskOp, Seq<char>),
}

impl<'a, H> View for Step<'a, H> {
    type V = StepView<H>;

    open spec fn view(&self) -> StepView<H> {
        match *self {
            Step::Silent => StepView::Silent,
            Step::Reply(response) => StepView::Reply(response@),
            Step::ListTools(pending) => StepView::ListTools(pending@),
            Step::CallTool { pending, name, arguments } => StepView::CallTool(
                pending@,
                name@,
                arguments@,
            ),
            Step::RunTool { pending, handler, arguments } => StepView::RunTool(
                pending@,
                *handler,
                arguments@,
            ),
            Step::AskHost { pending, method, params } => StepView::AskHost(
                pending@,
                method@,
                option_view(params),
            ),
            Step::Task { pending, op, task_id } => StepView::Task(pending@, op, task_id@),
        }
    }
}

// ---------------------------------------------------------------------------
// What the answers are
// ---------------------------------------------------------------------------

/// The answer to a modern request says what kind of result it carries: a result that
/// is an object and does not say so itself is `"complete"`. Anything else stays as it
/// is.
pub open spec fn framed(modern: bool, response: ResponseView) -> ResponseView {
    match response.result {
        Some(JsonView::Object(members)) => if modern && find_member(members, "resultType"@) is None {
            ResponseView {
                result: Some(
                    JsonView::Object(members.push(("resultType"@, JsonView::Text("complete"@)))),
                ),
                ..response
            }
        } else {
            response
        },
        _ => response,
    }
}

/// The answer to a method that nobody serves.
pub open spec fn method_missing(pending: PendingView, method: Seq<char>) -> ResponseView {
    error_view(pending.id, METHOD_NOT_FOUND, "Method not found: "@ + method)
}

/// The answer to a request for tools.
pub open spec fn tools_answer(pending: PendingView, tools: Seq<JsonView>) -> ResponseView {
    framed(
        pending.modern,
        success_view(
            pending.id,
            JsonView::Object(fields().push(("tools"@, JsonView::Array(tools)))),
        ),
    )
}

/// The answer to a request that needs the tasks extension, from a client that did not
/// name it.
pub open spec fn capability_missing(id: Option<JsonView>) -> ResponseView {
    failure_view(
        id,
        MISSING_REQUIRED_CLIENT_CAPABILITY,
        "Missing required client capability"@,
        Some(
            JsonView::Object(
                fields().push(
                    ("requiredCapabilities"@, text_list(Seq::empty().push(TASKS_EXTENSION_ID@))),
                ),
            ),
        ),
    )
}

/// The answer to a request in a protocol revision that the server does not speak.
pub open spec fn version_missing(
    id: Option<JsonView>,
    versions: Seq<Seq<char>>,
    requested: Seq<char>,
) -> ResponseView {
    failure_view(
        id,
        UNSUPPORTED_PROTOCOL_VERSION,
        "Unsupported protocol version"@,
        Some(
            JsonView::Object(
                fields().push(("supported"@, text_list(versions))).push(
                    ("requested"@, JsonView::Text(requested)),
                ),
            ),
        ),
    )
}

/// The revision that `initialize` agrees on: the one asked for when the server speaks
/// it, the current legacy one otherwise.
pub open spec fn negotiated(versions: Seq<Seq<char>>, params: Option<JsonView>) -> Seq<char> {
    match params {
        Some(params) => {
            let asked = text_of(crate::decode::field_view(params, "protocolVersion"@, 0));
            if is_initialize_request(params) && versions.contains(asked) {
                asked
            } else {
                PROTOCOL_VERSION@
            }
        },
        None => PROTOCOL_VERSION@,
    }
}

/// The answer to `initialize`.
pub open spec fn initialize_answer<H>(
    config: Config<H>,
    id: Option<JsonView>,
    params: Option<JsonView>,
) -> ResponseView {
    success_view(
        id,
        initialize_json(
            negotiated(config.versions, params),
            config.identity(),
            config.advertised(),
            config.instructions,
        ),
    )
}

/// The answer to `server/discover`.
pub open spec fn discover_answer<H>(config: Config<H>, id: Option<JsonView>) -> ResponseView {
    success_view(
        id,
        discover_json(
            "complete"@,
            text_list(config.versions),
            config.advertised(),
            config.identity(),
            config.instructions,
            Some(3_600_000),
            Some("public"@),
        ),
    )
}

/// The answer that a tool call becomes when the tool ran.
pub open spec fn call_answer(pending: PendingView, answer: JsonView) -> ResponseView {
    framed(pending.modern, success_view(pending.id, answer))
}

// ---------------------------------------------------------------------------
// What is to be done
// ---------------------------------------------------------------------------

/// What is to be done with a method that the server does not serve itself.
pub open spec fn unknown_step<H>(
    config: Config<H>,
    pending: PendingView,
    method: Seq<char>,
    params: Option<JsonView>,
) -> StepView<H> {
    if config.method_handler {
        StepView::AskHost(pending, method, params)
    } else {
        StepView::Reply(method_missing(pending, method))
    }
}

/// What is to be done with `tools/list`.
pub open spec fn list_step<H>(config: Config<H>, pending: PendingView) -> StepView<H> {
    if config.dispatcher {
        StepView::ListTools(pending)
    } else {
        StepView::Reply(tools_answer(pending, shown(config.tools, true)))
    }
}

/// The arguments of a call: an empty object when none are given.
pub open spec fn arguments_of(arguments: Option<JsonView>) -> JsonView {
    match arguments {
        Some(arguments) => arguments,
        None => bare(),
    }
}

/// What is to be done with `tools/call`.
pub open spec fn call_step<H>(
    config: Config<H>,
    pending: PendingView,
    params: Option<JsonView>,
    is_admin: bool,
) -> StepView<H> {
    match params {
        None => StepView::Reply(
            error_view(pending.id, INVALID_PARAMS, "Missing params for tools/call"@),
        ),
        Some(params) => match tool_call_of(params) {
            Err(words) => StepView::Reply(
                error_view(pending.id, INVALID_PARAMS, "Invalid params: "@ + words),
            ),
            Ok(call) => if config.dispatcher {
                StepView::CallTool(pending, call.name, arguments_of(call.arguments))
            } else {
                match call_refusal(config.tools, call.name, is_admin) {
                    Some(words) => StepView::Reply(
                        call_answer(pending, text_answer(words, true)),
                    ),
                    None => StepView::RunTool(
                        pending,
                        tool_named(config.tools, call.name)->0.handler,
                        arguments_of(call.arguments),
                    ),
                }
            },
        },
    }
}

/// What is to be done with a method of the tasks extension.
pub open spec fn task_step<H>(pending: PendingView, op: TaskOp, params: Option<JsonView>) -> StepView<
    H,
> {
    if !names_extension(pending.client_capabilities, TASKS_EXTENSION_ID@) {
        StepView::Reply(capability_missing(pending.id))
    } else {
        match crate::mcp::modern::member_of(params, "taskId"@) {
            Some(JsonView::Text(id)) => StepView::Task(pending, op, id),
            _ => StepView::Reply(error_view(pending.id, INVALID_PARAMS, "Missing taskId"@)),
        }
    }
}

/// The answer to `subscriptions/listen` where nothing can be streamed.
pub open spec fn stream_missing(id: Option<JsonView>) -> ResponseView {
    error_view(id, INVALID_REQUEST, "subscriptions/listen needs a streaming transport"@)
}

/// What is to be done with a legacy request.
pub open spec fn legacy_step<H>(config: Config<H>, request: RequestView, is_admin: bool) -> StepView<
    H,
> {
    let pending = PendingView { id: request.id, modern: false, client_capabilities: None };
    if request.method == "initialize"@ {
        StepView::Reply(initialize_answer(config, request.id, request.params))
    } else if request.method == "tools/list"@ {
        list_step(config, pending)
    } else if request.method == "tools/call"@ {
        call_step(config, pending, request.params, is_admin)
    } else if request.method == "server/discover"@ {
        StepView::Reply(discover_answer(config, request.id))
    } else if request.method == "ping"@ {
        StepView::Reply(success_view(request.id, bare()))
    } else {
        unknown_step(config, pending, request.method, request.params)
    }
}

/// What is to be done with a modern request. The handshake and `ping` are legacy
/// methods, and nothing here.
pub open spec fn modern_step<H>(
    config: Config<H>,
    request: RequestView,
    meta: MetaView,
    is_admin: bool,
) -> StepView<H> {
    let pending = PendingView {
        id: request.id,
        modern: true,
        client_capabilities: Some(meta.client_capabilities),
    };
    if !config.versions.contains(meta.protocol_version) {
        StepView::Reply(version_missing(request.id, config.versions, meta.protocol_version))
    } else if request.method == "server/discover"@ {
        StepView::Reply(framed(true, discover_answer(config, request.id)))
    } else if request.method == "tools/list"@ {
        list_step(config, pending)
    } else if request.method == "tools/call"@ {
        call_step(config, pending, request.params, is_admin)
    } else if config.tasks && request.method == method_names::TASKS_GET@ {
        task_step(pending, TaskOp::Get, request.params)
    } else if config.tasks && request.method == method_names::TASKS_UPDATE@ {
        task_step(pending, TaskOp::Update, request.params)
    } else if config.tasks && request.method == method_names::TASKS_CANCEL@ {
        task_step(pending, TaskOp::Cancel, request.params)
    } else if config.tasks && request.method == method_names::SUBSCRIPTIONS_LISTEN@ {
        StepView::Reply(stream_missing(request.id))
    } else {
        unknown_step(config, pending, request.method, request.params)
    }
}

/// What is to be done with a request.
pub open spec fn request_step<H>(config: Config<H>, request: RequestView, is_admin: bool) -> StepView<
    H,
> {
    if request.id is None {
        StepView::Silent
    } else if request.jsonrpc != JSONRPC_VERSION@ {
        StepView::Reply(
            error_view(
                request.id,
                INVALID_REQUEST,
                "Unsupported JSON-RPC version: "@ + request.jsonrpc,
            ),
        )
    } else {
        match era_of(request.params) {
            EraView::Malformed(reason) => StepView::Reply(
                error_view(request.id, INVALID_PARAMS, reason),
            ),
            EraView::Modern(meta) => modern_step(config, request, meta, is_admin),
            EraView::Legacy => legacy_step(config, request, is_admin),
        }
    }
}

/// What is to be done with a text that should be a request.
pub open spec fn raw_step<H>(config: Config<H>, raw: Seq<char>) -> StepView<H> {
    match request_in(raw) {
        Err(words) => StepView::Reply(error_view(None, PARSE_ERROR, "Parse error: "@ + words)),
        Ok(request) => request_step(config, request, false),
    }
}

// ---------------------------------------------------------------------------
// Deciding
// ---------------------------------------------------------------------------

/// Says in the answer to a modern request what kind of result it carries.
pub fn frame_modern_result(modern: bool, response: JsonRpcResponse) -> (answer: JsonRpcResponse)
    ensures
        answer@ == framed(modern, response@),
{
    let JsonRpcResponse { jsonrpc, result, error, id } = response;
    let result = match result {
        Some(json) => {
            let named = match json.get("resultType") {
                Some(_) => true,
                None => false,
            };
            match json {
                Json::Object(members) => {
                    let ghost views = json@->Object_0;
                    assert(views =~= member_views(members@));
                    let mut members = members;
                    if modern && !named {
                        put_text(&mut members, "resultType", "complete");
                    }
                    Some(Json::object(members))
                },
                other => Some(other),
            }
        },
        None => None,
    };
    JsonRpcResponse { jsonrpc, result, error, id }
}

/// The answer to a request in a protocol revision that the server does not speak.
pub fn unsupported_version_error(id: Option<Json>, versions: &Vec<String>, requested: &str) -> (response:
    JsonRpcResponse)
    ensures
        response@ == version_missing(option_view(id), views(versions@), requested@),
{
    let mut data = no_members();
    put(&mut data, "supported", Json::texts(versions));
    put_text(&mut data, "requested", requested);
    JsonRpcResponse::error_with_data(
        id,
        UNSUPPORTED_PROTOCOL_VERSION,
        "Unsupported protocol version",
        Json::object(data),
    )
}

/// The answer to a request that needs the tasks extension, from a client that did not
/// name it.
fn missing_capability_error(id: Option<Json>) -> (response: JsonRpcResponse)
    ensures
        response@ == capability_missing(option_view(id)),
{
    let mut required: Vec<String> = Vec::new();
    required.push(TASKS_EXTENSION_ID.to_owned());
    assert(views(required@) =~= Seq::empty().push(TASKS_EXTENSION_ID@));
    let mut data = no_members();
    put(&mut data, "requiredCapabilities", Json::texts(&required));
    JsonRpcResponse::error_with_data(
        id,
        MISSING_REQUIRED_CLIENT_CAPABILITY,
        "Missing required client capability",
        Json::object(data),
    )
}

fn tools_json(tools: &Vec<Tool>) -> (json: Json)
    ensures
        json@ == JsonView::Object(
            fields().push(("tools"@, JsonView::Array(tool_wires(tools@)))),
        ),
{
    let mut items: Vec<Json> = Vec::new();
    let mut i: usize = 0;
    while i < tools.len()
        invariant
            i <= tools.len(),
            items.len() == i,
            forall|k: int| 0 <= k < i ==> (#[trigger] items@[k])@ == tools@[k].wire(),
        decreases tools.len() - i,
    {
        items.push(tools[i].to_json());
        i += 1;
    }
    assert(item_views(items@) =~= tool_wires(tools@));
    let mut members = no_members();
    put(&mut members, "tools", Json::array(items));
    Json::object(members)
}

impl<H> McpServer<H> {
    /// Answers `initialize`.
    fn handle_initialize(&self, id: Option<Json>, params: Option<&Json>) -> (response:
        JsonRpcResponse)
        ensures
            response@ == initialize_answer(self.config(), option_view(id), view_of(params)),
    {
        let asked = match params {
            Some(params) => match InitializeRequest::from_json(params) {
                Some(request) => if self.accepts_protocol_version(
                    request.protocol_version.as_str(),
                ) {
                    Some(request.protocol_version)
                } else {
                    None
                },
                None => None,
            },
            None => None,
        };
        let version = match asked {
            Some(version) => version,
            None => PROTOCOL_VERSION.to_owned(),
        };
        let result = InitializeResponse::new(
            version,
            ServerInfo::new(self.name.as_str(), self.version.as_str()),
            self.advertised_capabilities(),
            dup_text(&self.instructions),
        );
        JsonRpcResponse::success(id, result.to_json())
    }

    /// Answers `server/discover`.
    fn handle_server_discover(&self, id: Option<Json>) -> (response: JsonRpcResponse)
        ensures
            response@ == discover_answer(self.config(), option_view(id)),
    {
        let discover = DiscoverResult::new(
            dup_texts(&self.supported_versions),
            self.advertised_capabilities(),
            ServerInfo::new(self.name.as_str(), self.version.as_str()),
            dup_text(&self.instructions),
        );
        JsonRpcResponse::success(id, discover.to_json())
    }

    fn handle_unknown_method(&self, pending: Pending, method: &str, params: Option<Json>) -> (step:
        Step<'_, H>)
        ensures
            step@ == unknown_step(self.config(), pending@, method@, option_view(params)),
    {
        if self.has_method_handler {
            Step::AskHost { pending, method: method.to_owned(), params }
        } else {
            Step::Reply(
                JsonRpcResponse::error(
                    pending.id,
                    METHOD_NOT_FOUND,
                    "Method not found: ".to_owned().concat(method).as_str(),
                ),
            )
        }
    }

    fn handle_tools_list(&self, pending: Pending) -> (step: Step<'_, H>)
        ensures
            step@ == list_step(self.config(), pending@),
    {
        if self.has_tool_dispatcher {
            Step::ListTools(pending)
        } else {
            let tools = self.tools.list_definitions();
            Step::Reply(finish_list(pending, tools))
        }
    }

    /// Decides on `tools/call`.
    fn handle_tools_call(&self, pending: Pending, params: Option<Json>, ctx: &ToolContext) -> (step:
        Step<'_, H>)
        ensures
            step@ == call_step(self.config(), pending@, option_view(params), ctx@.is_admin),
    {
        let params = match params {
            Some(params) => params,
            None => {
                return Step::Reply(
                    JsonRpcResponse::error(
                        pending.id,
                        INVALID_PARAMS,
                        "Missing params for tools/call",
                    ),
                );
            },
        };
        let call = match ToolCall::from_json(&params) {
            Ok(call) => call,
            Err(words) => {
                return Step::Reply(
                    JsonRpcResponse::error(
                        pending.id,
                        INVALID_PARAMS,
                        "Invalid params: ".to_owned().concat(words.as_str()).as_str(),
                    ),
                );
            },
        };
        let arguments = match call.arguments {
            Some(arguments) => arguments,
            None => Json::object(no_members()),
        };
        if self.has_tool_dispatcher {
            return Step::CallTool { pending, name: call.name, arguments };
        }
        match self.tools.decide(call.name.as_str(), ctx) {
            CallDecision::Run(handler) => Step::RunTool { pending, handler, arguments },
            CallDecision::Refuse(response) => Step::Reply(
                frame_modern_result(
                    pending.modern,
                    JsonRpcResponse::success(pending.id, response.to_json()),
                ),
            ),
        }
    }

    fn handle_task_method(&self, pending: Pending, op: TaskOp, params: &Option<Json>) -> (step: Step<
        '_,
        H,
    >)
        ensures
            step@ == task_step::<H>(pending@, op, option_view(*params)),
    {
        if !declares(&pending.client_capabilities, TASKS_EXTENSION_ID) {
            return Step::Reply(missing_capability_error(pending.id));
        }
        let named = match params {
            Some(params) => params.get("taskId"),
            None => None,
        };
        let task_id = match named {
            Some(member) => match member {
                Json::Text(id) => TaskId::new(id.as_str()),
                _ => {
                    return Step::Reply(
                        JsonRpcResponse::error(pending.id, INVALID_PARAMS, "Missing taskId"),
                    );
                },
            },
            None => {
                return Step::Reply(
                    JsonRpcResponse::error(pending.id, INVALID_PARAMS, "Missing taskId"),
                );
            },
        };
        Step::Task { pending, op, task_id }
    }

    /// Decides on a legacy request.
    fn process_legacy(&self, request: JsonRpcRequest, ctx: &ToolContext) -> (step: Step<'_, H>)
        ensures
            step@ == legacy_step(self.config(), request@, ctx@.is_admin),
    {
        let JsonRpcRequest { method, params, id, .. } = request;
        let pending = Pending { id, modern: false, client_capabilities: None };
        if same(method.as_str(), "initialize") {
            Step::Reply(self.handle_initialize(pending.id, params.as_ref()))
        } else if same(method.as_str(), "tools/list") {
            self.handle_tools_list(pending)
        } else if same(method.as_str(), "tools/call") {
            self.handle_tools_call(pending, params, ctx)
        } else if same(method.as_str(), "server/discover") {
            Step::Reply(self.handle_server_discover(pending.id))
        } else if same(method.as_str(), "ping") {
            Step::Reply(JsonRpcResponse::success(pending.id, Json::object(no_members())))
        } else {
            self.handle_unknown_method(pending, method.as_str(), params)
        }
    }

    /// Decides on a modern request.
    fn process_modern(&self, request: JsonRpcRequest, meta: ModernRequestMeta, ctx: &ToolContext) -> (step:
        Step<'_, H>)
        ensures
            step@ == modern_step(self.config(), request@, meta@, ctx@.is_admin),
    {
        let JsonRpcRequest { method, params, id, .. } = request;
        if !self.accepts_protocol_version(meta.protocol_version.as_str()) {
            return Step::Reply(
                unsupported_version_error(
                    id,
                    &self.supported_versions,
                    meta.protocol_version.as_str(),
                ),
            );
        }
        let pending = Pending {
            id,
            modern: true,
            client_capabilities: Some(meta.client_capabilities),
        };
        if same(method.as_str(), "server/discover") {
            Step::Reply(frame_modern_result(true, self.handle_server_discover(pending.id)))
        } else if same(method.as_str(), "tools/list") {
            self.handle_tools_list(pending)
        } else if same(method.as_str(), "tools/call") {
            self.handle_tools_call(pending, params, ctx)
        } else if self.has_task_manager && same(method.as_str(), method_names::TASKS_GET) {
            self.handle_task_method(pending, TaskOp::Get, &params)
        } else if self.has_task_manager && same(method.as_str(), method_names::TASKS_UPDATE) {
            self.handle_task_method(pending, TaskOp::Update, &params)
        } else if self.has_task_manager && same(method.as_str(), method_names::TASKS_CANCEL) {
            self.handle_task_method(pending, TaskOp::Cancel, &params)
        } else if self.has_task_manager && same(
            method.as_str(),
            method_names::SUBSCRIPTIONS_LISTEN,
        ) {
            Step::Reply(
                JsonRpcResponse::error(
                    pending.id,
                    INVALID_REQUEST,
                    "subscriptions/listen needs a streaming transport",
                ),
            )
        } else {
            self.handle_unknown_method(pending, method.as_str(), params)
        }
    }

    /// Decides on a request of a caller.
    pub fn handle_request_with_context(&self, request: JsonRpcRequest, ctx: &ToolContext) -> (step:
        Step<'_, H>)
        ensures
            step@ == request_step(self.config(), request@, ctx@.is_admin),
    {
        if request.id.is_none() {
            return Step::Silent;
        }
        if !same(request.jsonrpc.as_str(), JSONRPC_VERSION) {
            let words = "Unsupported JSON-RPC version: ".to_owned().concat(
                request.jsonrpc.as_str(),
            );
            return Step::Reply(
                JsonRpcResponse::error(request.id, INVALID_REQUEST, words.as_str()),
            );
        }
        match ModernRequestMeta::from_params(request.params.as_ref()) {
            ModernMeta::Malformed(reason) => Step::Reply(
                JsonRpcResponse::error(request.id, INVALID_PARAMS, reason.as_str()),
            ),
            ModernMeta::Modern(meta) => self.process_modern(request, *meta, ctx),
            ModernMeta::Legacy => self.process_legacy(request, ctx),
        }
    }

    /// Decides on a request of nobody in particular.
    pub fn handle_request(&self, request: JsonRpcRequest) -> (step: Step<'_, H>)
        ensures
            step@ == request_step(self.config(), request@, false),
    {
        self.handle_request_with_context(request, &ToolContext::new())
    }

    /// Decides on a text that should be a request.
    pub fn handle_raw(&self, raw: &str) -> (step: Step<'_, H>)
        ensures
            step@ == raw_step(self.config(), raw@),
    {
        match JsonRpcRequest::from_text(raw) {
            Ok(request) => self.handle_request(request),
            Err(words) => Step::Reply(
                JsonRpcResponse::error(
                    None,
                    PARSE_ERROR,
                    "Parse error: ".to_owned().concat(words.as_str()).as_str(),
                ),
            ),
        }
    }
}

// ---------------------------------------------------------------------------
// Finishing
// ---------------------------------------------------------------------------

/// The answer to `tools/list`, from the tools that there are.
pub fn finish_list(pending: Pending, tools: Vec<Tool>) -> (response: JsonRpcResponse)
    ensures
        response@ == tools_answer(pending@, tool_wires(tools@)),
{
    frame_modern_result(pending.modern, JsonRpcResponse::success(pending.id, tools_json(&tools)))
}

/// What a tool call becomes.
pub open spec fn outcome_answer(
    pending: PendingView,
    tasks: bool,
    outcome: CallToolOutcome,
) -> ResponseView {
    match outcome {
        CallToolOutcome::Immediate(response) => call_answer(pending, (*response).wire()),
        CallToolOutcome::Task(task) => if !names_extension(
            pending.client_capabilities,
            TASKS_EXTENSION_ID@,
        ) {
            capability_missing(pending.id)
        } else if !tasks {
            error_view(pending.id, INTERNAL_ERROR, "The server keeps no tasks"@)
        } else {
            framed(pending.modern, success_view(pending.id, handle_json((*task)@)))
        },
    }
}

impl<H> McpServer<H> {
    /// The answer to `tools/call`, from what came of it. A task handle goes only to a
    /// client that named the extension, from a server that keeps tasks: nobody could follow it
    /// up at another.
    pub fn finish_call(&self, pending: Pending, outcome: CallToolOutcome) -> (response:
        JsonRpcResponse)
        ensures
            response@ == outcome_answer(pending@, self.config().tasks, outcome),
    {
        match outcome {
            CallToolOutcome::Immediate(answer) => frame_modern_result(
                pending.modern,
                JsonRpcResponse::success(pending.id, answer.to_json()),
            ),
            CallToolOutcome::Task(task) => {
                if !declares(&pending.client_capabilities, TASKS_EXTENSION_ID) {
                    missing_capability_error(pending.id)
                } else if !self.has_task_manager {
                    JsonRpcResponse::error(pending.id, INTERNAL_ERROR, "The server keeps no tasks")
                } else {
                    let handle = CreateTaskResult::new(*task);
                    frame_modern_result(
                        pending.modern,
                        JsonRpcResponse::success(pending.id, handle.to_json()),
                    )
                }
            },
        }
    }
}

/// The answer to a method that was offered to the host: the host's, or that nobody
/// serves it.
pub fn finish_method(pending: Pending, method: &str, answer: Option<JsonRpcResponse>) -> (response:
    JsonRpcResponse)
    ensures
        response@ == match answer {
            Some(answer) => framed(pending@.modern, answer@),
            None => method_missing(pending@, method@),
        },
{
    match answer {
        Some(answer) => frame_modern_result(pending.modern, answer),
        None => JsonRpcResponse::error(
            pending.id,
            METHOD_NOT_FOUND,
            "Method not found: ".to_owned().concat(method).as_str(),
        ),
    }
}

/// The answer to a method of the tasks extension.
pub open spec fn task_answer(
    pending: PendingView,
    op: TaskOp,
    outcome: Result<DetailedView, TaskErrorView>,
) -> ResponseView {
    match outcome {
        Ok(task) => framed(
            pending.modern,
            success_view(
                pending.id,
                if op == TaskOp::Get {
                    get_task_json(task)
                } else {
                    ack_json()
                },
            ),
        ),
        Err(error) => error_view(
            pending.id,
            if error is Store {
                INTERNAL_ERROR
            } else {
                INVALID_PARAMS
            },
            task_error_text(error),
        ),
    }
}

/// What the outcome of a task operation is.
pub open spec fn task_outcome(outcome: Result<DetailedTask, TaskError>) -> Result<
    DetailedView,
    TaskErrorView,
> {
    match outcome {
        Ok(task) => Ok(task@),
        Err(error) => Err(error@),
    }
}

/// The answer to a method of the tasks extension, from what came of it.
pub fn finish_task(pending: Pending, op: TaskOp, outcome: Result<DetailedTask, TaskError>) -> (response:
    JsonRpcResponse)
    ensures
        response@ == task_answer(pending@, op, task_outcome(outcome)),
{
    match outcome {
        Ok(task) => {
            let result = if op == TaskOp::Get {
                GetTaskResult::new(task).to_json()
            } else {
                TaskAck::new().to_json()
            };
            frame_modern_result(pending.modern, JsonRpcResponse::success(pending.id, result))
        },
        Err(error) => {
            let code: i32 = match &error {
                TaskError::Store(_) => INTERNAL_ERROR,
                _ => INVALID_PARAMS,
            };
            JsonRpcResponse::error(pending.id, code, error.message().as_str())
        },
    }
}

// ---------------------------------------------------------------------------
// Tasks of the caller
// ---------------------------------------------------------------------------

/// Whom a caller's tasks belong to.
pub open spec fn owner_view(ctx: ContextView) -> OwnerView {
    OwnerView { user_id: ctx.user_id, tenant_id: ctx.tenant_id }
}

/// The context in which a request is served: the caller's, with what the client said that it
/// can do in this request.
pub open spec fn context_served(ctx: ContextView, pending: PendingView) -> ContextView {
    match pending.client_capabilities {
        Some(declared) => ContextView { client_capabilities: Some(declared), ..ctx },
        None => ctx,
    }
}

/// The context in which a request is served.
pub fn context_for(ctx: &ToolContext, pending: &Pending) -> (served: ToolContext)
    ensures
        served@ == context_served(ctx@, pending@),
{
    ToolContext {
        user_id: dup_text(&ctx.user_id),
        tenant_id: dup_text(&ctx.tenant_id),
        auth_method: dup_text(&ctx.auth_method),
        request_id: dup_option(&ctx.request_id),
        is_admin: ctx.is_admin,
        scopes: dup_texts(&ctx.scopes),
        client_capabilities: match &pending.client_capabilities {
            Some(declared) => Some(declared.dup()),
            None => dup_option(&ctx.client_capabilities),
        },
    }
}

/// Whom a caller's tasks belong to.
pub fn owner_of(ctx: &ToolContext) -> (owner: TaskOwner)
    ensures
        owner@ == owner_view(ctx@),
{
    TaskOwner { user_id: dup_text(&ctx.user_id), tenant_id: dup_text(&ctx.tenant_id) }
}

/// What comes of a task operation at a given time.
pub open spec fn op_due(
    tasks: TaskTable,
    owner: OwnerView,
    op: TaskOp,
    id: Seq<char>,
    now: Timestamp,
    stamp: Seq<char>,
) -> Result<DetailedView, TaskErrorView> {
    match op {
        TaskOp::Get => match visible(tasks, owner, id, now) {
            Some(task) => Ok(task),
            None => Err(TaskErrorView::NotFound(id)),
        },
        TaskOp::Update => resumed(tasks, owner, id, now, stamp),
        TaskOp::Cancel => moved(tasks, owner, id, PayloadView::Cancelled, now, stamp),
    }
}

/// The answer to a task operation and what became of the tasks: what was due at some
/// time, unless the store failed.
pub open spec fn op_done(
    before: TaskTable,
    after: TaskTable,
    owner: OwnerView,
    op: TaskOp,
    due: Result<DetailedView, TaskErrorView>,
    reliable: bool,
    outcome: Result<DetailedTask, TaskError>,
) -> bool {
    match outcome {
        Ok(task) => due == Ok::<DetailedView, TaskErrorView>(task@) && after == if op
            == TaskOp::Get {
            before
        } else {
            before.insert(task@.task.task_id, (owner, task@))
        },
        Err(error) => after == before && (reliable ==> due == Err::<DetailedView, TaskErrorView>(
            error@,
        )),
    }
}

/// Sees to a task of a caller's.
pub fn perform_task_op<S: TaskStore>(
    manager: &mut TaskManager<S>,
    owner: &TaskOwner,
    op: TaskOp,
    task_id: &TaskId,
) -> (outcome: Result<DetailedTask, TaskError>)
    requires
        old(manager).well_formed(),
    ensures
        final(manager).well_formed(),
        final(manager).settings() == old(manager).settings(),
        final(manager).reliable() == old(manager).reliable(),
        final(manager).streams() == match outcome {
            Ok(task) if op != TaskOp::Get => streams_told(old(manager).streams(), owner@, task@),
            _ => old(manager).streams(),
        },
        exists|now: Timestamp, stamp: Seq<char>|
            (op == TaskOp::Get || is_stamp(stamp)) && op_done(
                old(manager).tasks(),
                final(manager).tasks(),
                owner@,
                op,
                #[trigger] op_due(old(manager).tasks(), owner@, op, task_id@, now, stamp),
                old(manager).reliable(),
                outcome,
            ),
{
    match op {
        TaskOp::Get => {
            let now = utc_now();
            let found = manager.get_at(owner, task_id, now);
            assert(op_done(
                old(manager).tasks(),
                manager.tasks(),
                owner@,
                op,
                op_due(old(manager).tasks(), owner@, op, task_id@, now, Seq::empty()),
                old(manager).reliable(),
                found,
            ));
            found
        },
        TaskOp::Update => {
            let now = utc_now();
            let stamp = current_timestamp();
            let outcome = manager.apply_input_at(owner, task_id, now, stamp.as_str());
            assert(op_done(
                old(manager).tasks(),
                manager.tasks(),
                owner@,
                op,
                op_due(old(manager).tasks(), owner@, op, task_id@, now, stamp@),
                old(manager).reliable(),
                outcome,
            ));
            outcome
        },
        TaskOp::Cancel => {
            let now = utc_now();
            let stamp = current_timestamp();
            let outcome = manager.transition_at(
                owner,
                task_id,
                TaskPayload::Cancelled,
                now,
                stamp.as_str(),
            );
            assert(op_done(
                old(manager).tasks(),
                manager.tasks(),
                owner@,
                op,
                op_due(old(manager).tasks(), owner@, op, task_id@, now, stamp@),
                old(manager).reliable(),
                outcome,
            ));
            outcome
        },
    }
}

/// Why a stream of task notifications is not opened, or nothing when it is.
pub open spec fn subscription_refusal<H>(config: Config<H>, request: RequestView) -> Option<
    ResponseView,
> {
    if !config.tasks {
        Some(error_view(request.id, METHOD_NOT_FOUND, "Method not found: "@ + request.method))
    } else {
        match era_of(request.params) {
            EraView::Legacy => Some(
                error_view(
                    request.id,
                    INVALID_PARAMS,
                    "subscriptions/listen needs per-request metadata"@,
                ),
            ),
            EraView::Malformed(reason) => Some(error_view(request.id, INVALID_PARAMS, reason)),
            EraView::Modern(meta) => if !config.versions.contains(meta.protocol_version) {
                Some(version_missing(request.id, config.versions, meta.protocol_version))
            } else if !names_extension(Some(meta.client_capabilities), TASKS_EXTENSION_ID@) {
                Some(capability_missing(request.id))
            } else {
                None
            },
        }
    }
}

impl<H> McpServer<H> {
    /// A stream of notifications about the caller's tasks, or why it is not opened.
    pub fn open_task_subscription(&self, request: &JsonRpcRequest, ctx: &ToolContext) -> (opened:
        Result<TaskSubscription, Box<JsonRpcResponse>>)
        ensures
            match opened {
                Ok(stream) => subscription_refusal(self.config(), request@) is None
                    && stream.follows() == owner_view(ctx@) && stream.pending()
                    == Seq::<RequestView>::empty(),
                Err(refusal) => subscription_refusal(self.config(), request@) == Some((*refusal)@),
            },
    {
        let id = dup_option(&request.id);
        if !self.has_task_manager {
            return Err(
                Box::new(
                    JsonRpcResponse::error(
                        id,
                        METHOD_NOT_FOUND,
                        "Method not found: ".to_owned().concat(request.method.as_str()).as_str(),
                    ),
                ),
            );
        }
        match ModernRequestMeta::from_params(request.params.as_ref()) {
            ModernMeta::Legacy => Err(
                Box::new(
                    JsonRpcResponse::error(
                        id,
                        INVALID_PARAMS,
                        "subscriptions/listen needs per-request metadata",
                    ),
                ),
            ),
            ModernMeta::Malformed(reason) => Err(
                Box::new(JsonRpcResponse::error(id, INVALID_PARAMS, reason.as_str())),
            ),
            ModernMeta::Modern(meta) => {
                if !self.accepts_protocol_version(meta.protocol_version.as_str()) {
                    return Err(
                        Box::new(
                            unsupported_version_error(
                                id,
                                &self.supported_versions,
                                meta.protocol_version.as_str(),
                            ),
                        ),
                    );
                }
                if !declares(&Some(meta.client_capabilities), TASKS_EXTENSION_ID) {
                    return Err(Box::new(missing_capability_error(id)));
                }
                Ok(TaskSubscription::new(owner_of(ctx)))
            },
        }
    }
}

// ---------------------------------------------------------------------------
// Laws
// ---------------------------------------------------------------------------

/// A notification is never answered, and everything else always is.
pub proof fn only_notifications_go_unanswered<H>(
    config: Config<H>,
    request: RequestView,
    is_admin: bool,
)
    ensures
        request_step(config, request, is_admin) is Silent <==> request.id is None,
{
}

/// The id that the answer to a step will carry.
pub open spec fn answered_id<H>(step: StepView<H>) -> Option<JsonView> {
    match step {
        StepView::Silent => None,
        StepView::Reply(response) => response.id,
        StepView::ListTools(pending) => pending.id,
        StepView::CallTool(pending, _, _) => pending.id,
        StepView::RunTool(pending, _, _) => pending.id,
        StepView::AskHost(pending, _, _) => pending.id,
        StepView::Task(pending, _, _) => pending.id,
    }
}

/// Every answer carries the id of its request.
pub proof fn answers_carry_the_request_id<H>(
    config: Config<H>,
    request: RequestView,
    is_admin: bool,
)
    ensures
        !(request_step(config, request, is_admin) is Silent) ==> answered_id(
            request_step(config, request, is_admin),
        ) == request.id,
{
}

/// Every answer the server gives by itself is a success or an error, never both.
pub proof fn replies_are_success_or_error<H>(
    config: Config<H>,
    request: RequestView,
    is_admin: bool,
)
    ensures
        request_step(config, request, is_admin) matches StepView::Reply(response)
            ==> response.well_formed(),
{
}

/// So is every answer made of what the host did.
pub proof fn finished_answers_are_success_or_error(
    pending: PendingView,
    tools: Seq<JsonView>,
    tasks: bool,
    outcome: CallToolOutcome,
    op: TaskOp,
    task: Result<DetailedView, TaskErrorView>,
    method: Seq<char>,
    answer: ResponseView,
)
    requires
        answer.well_formed(),
    ensures
        tools_answer(pending, tools).well_formed(),
        outcome_answer(pending, tasks, outcome).well_formed(),
        task_answer(pending, op, task).well_formed(),
        method_missing(pending, method).well_formed(),
        framed(pending.modern, answer).well_formed(),
        tools_answer(pending, tools).id == pending.id,
        outcome_answer(pending, tasks, outcome).id == pending.id,
        task_answer(pending, op, task).id == pending.id,
        framed(pending.modern, answer).id == answer.id,
{
}

/// A result that is an object always says what kind it is, in the answer to a modern
/// request; and what it says itself is kept.
pub proof fn modern_results_say_their_kind(response: ResponseView, members: Seq<
    (Seq<char>, JsonView),
>)
    requires
        response.result == Some(JsonView::Object(members)),
    ensures
        ({
            let kind = framed(true, response).result->0.member("resultType"@);
            &&& kind is Some
            &&& find_member(members, "resultType"@) is Some ==> kind == find_member(
                members,
                "resultType"@,
            )
            &&& find_member(members, "resultType"@) is None ==> kind == Some(
                JsonView::Text("complete"@),
            )
        }),
        framed(false, response) == response,
{
    broadcast use group_find_member;

}

/// A client that named the extension gets the handle of its task, from a server that keeps
/// tasks; no server that keeps none hands one out.
pub proof fn declaring_clients_get_their_handles(pending: PendingView, task: Box<Task>)
    requires
        names_extension(pending.client_capabilities, TASKS_EXTENSION_ID@),
    ensures
        outcome_answer(pending, true, CallToolOutcome::Task(task)) == framed(
            pending.modern,
            success_view(pending.id, handle_json((*task)@)),
        ),
        outcome_answer(pending, false, CallToolOutcome::Task(task)).error is Some,
{
}

/// A task handle reaches nobody who did not ask for it: without the extension named
/// for this very request, a call that became a task is answered with an error.
pub proof fn handles_reach_only_declaring_clients(
    pending: PendingView,
    tasks: bool,
    task: Box<Task>,
)
    requires
        !names_extension(pending.client_capabilities, TASKS_EXTENSION_ID@),
    ensures
        outcome_answer(pending, tasks, CallToolOutcome::Task(task)) == capability_missing(
            pending.id,
        ),
{
}

/// A legacy request never names the extension, so it never gets a handle.
pub proof fn legacy_requests_never_name_extensions<H>(
    config: Config<H>,
    request: RequestView,
    is_admin: bool,
)
    ensures
        legacy_step(config, request, is_admin) matches StepView::CallTool(pending, _, _)
            ==> !names_extension(pending.client_capabilities, TASKS_EXTENSION_ID@),
        legacy_step(config, request, is_admin) matches StepView::RunTool(pending, _, _)
            ==> !names_extension(pending.client_capabilities, TASKS_EXTENSION_ID@),
{
}

/// Tasks are not found among extensions that do not name them.
proof fn lemma_tasks_unnamed(members: Seq<(Seq<char>, JsonView)>)
    ensures
        find_member(with_tasks_unnamed(members), TASKS_EXTENSION_ID@) is None,
    decreases members.len(),
{
    broadcast use group_find_member;

    if members.len() > 0 {
        lemma_tasks_unnamed(members.drop_last());
    } else {
        assert(members =~= fields());
    }
}

/// A server that keeps no tasks never sees to one and does not name them among its
/// extensions, whatever it was given; a server that keeps tasks does name them.
pub proof fn tasks_are_advertised_when_served<H>(
    config: Config<H>,
    request: RequestView,
    is_admin: bool,
)
    ensures
        !config.tasks ==> !(request_step(config, request, is_admin) is Task),
        config.tasks ==> (config.advertised_extensions() matches Some(extensions)
            && extensions.member(TASKS_EXTENSION_ID@) is Some),
        !config.tasks ==> (config.advertised_extensions() matches Some(extensions)
            ==> extensions.member(TASKS_EXTENSION_ID@) is None),
{
    broadcast use group_find_member;

    match config.extensions {
        Some(JsonView::Object(members)) => {
            lemma_tasks_unnamed(members);
        },
        _ => {},
    }
}

/// A modern request in a revision that the server does not speak is refused, whatever
/// its method, and told which revisions the server speaks.
pub proof fn foreign_revisions_are_refused<H>(
    config: Config<H>,
    request: RequestView,
    meta: MetaView,
    is_admin: bool,
)
    requires
        request.jsonrpc == JSONRPC_VERSION@,
        request.id is Some,
        era_of(request.params) == EraView::Modern(meta),
        !config.versions.contains(meta.protocol_version),
    ensures
        request_step(config, request, is_admin) == StepView::<H>::Reply(
            version_missing(request.id, config.versions, meta.protocol_version),
        ),
{
}

} // verus!
