//! What MCP messages are made of, and the JSON each becomes.
//!
//! Every type has a spec function `wire`, the JSON that stands for it, and a
//! function `to_json` that builds it. Absent optional members are left out.

use vstd::prelude::*;

use crate::decode::{
    excess_refusal, field, field_view, read_string, record_refusal, refuse_excess, refuse_record,
    string_field, view_of,
};
use crate::json::{
    and_some, dup_option, fields, group_find_member, item_views, member_views, no_members,
    option_view, put, put_some, put_some_bool, put_some_text, put_text, some_bool, some_text,
    text_view, Float, Json, JsonView,
};
use crate::mcp::capabilities::{
    check_record, is_optional_bool, is_optional_text, is_record, is_text, optional_bool,
    optional_text, read_optional_text, read_text, text_of,
};
use crate::mcp::protocol::{optional, JsonRpcError, JsonRpcRequest, JsonRpcResponse};
use crate::text::same;

pub use crate::mcp::capabilities::{
    AuthCapability, ClientCapabilities, ClientInfo, CompletionCapability, InitializeRequest,
    InitializeResponse, LoggingCapability, OAuth2Capability, PromptsCapability,
    ResourcesCapability, RootsCapability, SamplingCapability, ServerCapabilities, ToolsCapability,
};
pub use crate::mcp::json_schema::{JsonSchema, PropertySchema, SchemaMap, ToolSchema};
pub use crate::mcp::messages::{
    ArgumentValue, CompleteRequest, CompleteResult, Completion, CompletionReference,
    CreateMessageRequest, CreateMessageResult, MessageContent, ModelHint, ModelPreferences,
    OAuthCompletedNotification, OAuthCompletedParams, ProgressNotification, ProgressParams,
    PromptMessage, Root,
};

verus! {

/// MCP request wire frame.
pub type McpRequest = JsonRpcRequest;

/// MCP response wire frame.
pub type McpResponse = JsonRpcResponse;

/// MCP error object.
pub type McpError = JsonRpcError;

/// A copy of an optional text.
pub fn dup_text(text: &Option<String>) -> (copy: Option<String>)
    ensures
        text_view(copy) == text_view(*text),
{
    match text {
        Some(text) => Some(text.clone()),
        None => None,
    }
}

/// MCP protocol information.
#[derive(Debug, Clone)]
pub struct ProtocolInfo {
    /// MCP protocol version.
    pub protocol_version: String,
}

impl ProtocolInfo {
    /// The JSON that stands for it.
    pub open spec fn wire(self) -> JsonView {
        JsonView::Object(fields().push(("protocolVersion"@, JsonView::Text(self.protocol_version@))))
    }

    /// The JSON that stands for it.
    pub fn to_json(&self) -> (json: Json)
        ensures
            json@ == self.wire(),
    {
        let mut members = no_members();
        put_text(&mut members, "protocolVersion", self.protocol_version.as_str());
        Json::object(members)
    }
}

/// Who a server is.
#[derive(Debug, Clone)]
pub struct ServerInfo {
    /// Server name, machine-readable.
    pub name: String,
    /// Server version.
    pub version: String,
    /// Display title.
    pub title: Option<String>,
    /// Description.
    pub description: Option<String>,
    /// Website.
    pub website_url: Option<String>,
}

/// The JSON of a name and a version with optional display metadata.
pub open spec fn identity_json(
    name: Seq<char>,
    version: Seq<char>,
    title: Option<Seq<char>>,
    description: Option<Seq<char>>,
    website_url: Option<Seq<char>>,
) -> JsonView {
    let base = fields().push(("name"@, JsonView::Text(name))).push(
        ("version"@, JsonView::Text(version)),
    );
    JsonView::Object(
        and_some(
            and_some(
                and_some(base, "title"@, some_text(title)),
                "description"@,
                some_text(description),
            ),
            "websiteUrl"@,
            some_text(website_url),
        ),
    )
}

impl ServerInfo {
    /// The JSON that stands for it.
    pub open spec fn wire(self) -> JsonView {
        identity_json(
            self.name@,
            self.version@,
            text_view(self.title),
            text_view(self.description),
            text_view(self.website_url),
        )
    }

    /// A name and a version, without display metadata.
    pub fn new(name: &str, version: &str) -> (info: Self)
        ensures
            info.name@ == name@,
            info.version@ == version@,
            info.title is None,
            info.description is None,
            info.website_url is None,
    {
        ServerInfo {
            name: name.to_owned(),
            version: version.to_owned(),
            title: None,
            description: None,
            website_url: None,
        }
    }

    /// The JSON that stands for it.
    pub fn to_json(&self) -> (json: Json)
        ensures
            json@ == self.wire(),
    {
        let mut members = no_members();
        put_text(&mut members, "name", self.name.as_str());
        put_text(&mut members, "version", self.version.as_str());
        put_some_text(&mut members, "title", &self.title);
        put_some_text(&mut members, "description", &self.description);
        put_some_text(&mut members, "websiteUrl", &self.website_url);
        Json::object(members)
    }
}

// ---------------------------------------------------------------------------
// Tools
// ---------------------------------------------------------------------------

/// Hints about how a tool behaves.
#[derive(Debug, Clone, Default)]
pub struct ToolAnnotations {
    /// Display title.
    pub title: Option<String>,
    /// The tool only reads.
    pub read_only_hint: Option<bool>,
    /// The tool may delete or overwrite.
    pub destructive_hint: Option<bool>,
    /// Repeating a call has no further effect.
    pub idempotent_hint: Option<bool>,
    /// The tool reaches beyond the server.
    pub open_world_hint: Option<bool>,
}

impl ToolAnnotations {
    /// The JSON that stands for it.
    pub open spec fn wire(self) -> JsonView {
        let a = and_some(fields(), "title"@, some_text(text_view(self.title)));
        let b = and_some(a, "readOnlyHint"@, some_bool(self.read_only_hint));
        let c = and_some(b, "destructiveHint"@, some_bool(self.destructive_hint));
        let d = and_some(c, "idempotentHint"@, some_bool(self.idempotent_hint));
        JsonView::Object(and_some(d, "openWorldHint"@, some_bool(self.open_world_hint)))
    }

    /// The JSON that stands for it.
    pub fn to_json(&self) -> (json: Json)
        ensures
            json@ == self.wire(),
    {
        let mut members = no_members();
        put_some_text(&mut members, "title", &self.title);
        put_some_bool(&mut members, "readOnlyHint", self.read_only_hint);
        put_some_bool(&mut members, "destructiveHint", self.destructive_hint);
        put_some_bool(&mut members, "idempotentHint", self.idempotent_hint);
        put_some_bool(&mut members, "openWorldHint", self.open_world_hint);
        Json::object(members)
    }

    /// A copy that stands for the same JSON.
    pub fn dup(&self) -> (copy: Self)
        ensures
            copy.wire() == self.wire(),
    {
        ToolAnnotations {
            title: dup_text(&self.title),
            read_only_hint: self.read_only_hint,
            destructive_hint: self.destructive_hint,
            idempotent_hint: self.idempotent_hint,
            open_world_hint: self.open_world_hint,
        }
    }
}

/// Whether calls to a tool may be answered with a task handle.
#[derive(Debug, Clone, Copy, PartialEq, Eq, Structural)]
pub struct ToolExecution {
    /// The level of support.
    pub task_support: TaskSupport,
}

/// The levels of task support a tool can declare.
#[derive(Debug, Clone, Copy, PartialEq, Eq, Structural)]
pub enum TaskSupport {
    /// The tool never returns a task handle.
    Forbidden,
    /// The tool may return a handle to a declaring client.
    Optional,
    /// Every call to this tool is answered with a handle.
    Required,
}

impl TaskSupport {
    /// The word that stands for the level.
    pub open spec fn word(self) -> Seq<char> {
        match self {
            TaskSupport::Forbidden => "forbidden"@,
            TaskSupport::Optional => "optional"@,
            TaskSupport::Required => "required"@,
        }
    }

    /// The word that stands for the level.
    pub fn as_str(&self) -> (word: &'static str)
        ensures
            word@ == self.word(),
    {
        match self {
            TaskSupport::Forbidden => "forbidden",
            TaskSupport::Optional => "optional",
            TaskSupport::Required => "required",
        }
    }
}

impl ToolExecution {
    /// The JSON that stands for it.
    pub open spec fn wire(self) -> JsonView {
        JsonView::Object(fields().push(("taskSupport"@, JsonView::Text(self.task_support.word()))))
    }

    /// The JSON that stands for it.
    pub fn to_json(&self) -> (json: Json)
        ensures
            json@ == self.wire(),
    {
        let mut members = no_members();
        put_text(&mut members, "taskSupport", self.task_support.as_str());
        Json::object(members)
    }
}

/// The annotations of a tool as JSON, where there are some.
pub open spec fn some_annotations(annotations: Option<ToolAnnotations>) -> Option<JsonView> {
    match annotations {
        Some(annotations) => Some(annotations.wire()),
        None => None,
    }
}

/// The task declaration of a tool as JSON, where there is one.
pub open spec fn some_execution(execution: Option<ToolExecution>) -> Option<JsonView> {
    match execution {
        Some(execution) => Some(execution.wire()),
        None => None,
    }
}

/// The annotations of a tool as JSON, where there are some.
pub fn annotations_json(annotations: &Option<ToolAnnotations>) -> (json: Option<Json>)
    ensures
        option_view(json) == some_annotations(*annotations),
{
    match annotations {
        Some(annotations) => Some(annotations.to_json()),
        None => None,
    }
}

/// The task declaration of a tool as JSON, where there is one.
pub fn execution_json(execution: &Option<ToolExecution>) -> (json: Option<Json>)
    ensures
        option_view(json) == some_execution(*execution),
{
    match execution {
        Some(execution) => Some(execution.to_json()),
        None => None,
    }
}

/// A tool as `tools/list` shows it.
#[derive(Debug)]
pub struct Tool {
    /// Unique tool name.
    pub name: String,
    /// What the tool does.
    pub description: String,
    /// JSON Schema of the input.
    pub input_schema: Json,
    /// JSON Schema of the structured output, when the tool declares one.
    pub output_schema: Option<Json>,
    /// Behavioural hints.
    pub annotations: Option<ToolAnnotations>,
    /// Task declaration.
    pub execution: Option<ToolExecution>,
}

impl Tool {
    /// The JSON that stands for it.
    pub open spec fn wire(self) -> JsonView {
        let base = fields().push(("name"@, JsonView::Text(self.name@))).push(
            ("description"@, JsonView::Text(self.description@)),
        ).push(("inputSchema"@, self.input_schema@));
        let out = and_some(base, "outputSchema"@, option_view(self.output_schema));
        let hints = and_some(out, "annotations"@, some_annotations(self.annotations));
        JsonView::Object(and_some(hints, "execution"@, some_execution(self.execution)))
    }

    /// The JSON that stands for it.
    pub fn to_json(&self) -> (json: Json)
        ensures
            json@ == self.wire(),
    {
        let mut members = no_members();
        put_text(&mut members, "name", self.name.as_str());
        put_text(&mut members, "description", self.description.as_str());
        put(&mut members, "inputSchema", self.input_schema.dup());
        put_some(&mut members, "outputSchema", dup_option(&self.output_schema));
        put_some(&mut members, "annotations", annotations_json(&self.annotations));
        put_some(&mut members, "execution", execution_json(&self.execution));
        Json::object(members)
    }

    /// A copy that stands for the same JSON.
    pub fn dup(&self) -> (copy: Self)
        ensures
            copy.wire() == self.wire(),
            copy.name@ == self.name@,
    {
        Tool {
            name: self.name.clone(),
            description: self.description.clone(),
            input_schema: self.input_schema.dup(),
            output_schema: dup_option(&self.output_schema),
            annotations: match &self.annotations {
                Some(annotations) => Some(annotations.dup()),
                None => None,
            },
            execution: self.execution,
        }
    }
}

// --- reading a tool ------------------------------------------------------------

/// Whether a document says how a tool behaves.
pub open spec fn is_annotations(json: JsonView) -> bool {
    &&& is_record(json, 5, 5)
    &&& is_optional_text(field_view(json, "title"@, 0))
    &&& is_optional_bool(field_view(json, "readOnlyHint"@, 1))
    &&& is_optional_bool(field_view(json, "destructiveHint"@, 2))
    &&& is_optional_bool(field_view(json, "idempotentHint"@, 3))
    &&& is_optional_bool(field_view(json, "openWorldHint"@, 4))
}

/// What a document says of how a tool behaves, and nothing besides.
pub open spec fn annotations_read(json: JsonView) -> JsonView {
    let a = and_some(fields(), "title"@, some_text(optional_text(field_view(json, "title"@, 0))));
    let b = and_some(
        a,
        "readOnlyHint"@,
        some_bool(optional_bool(field_view(json, "readOnlyHint"@, 1))),
    );
    let c = and_some(
        b,
        "destructiveHint"@,
        some_bool(optional_bool(field_view(json, "destructiveHint"@, 2))),
    );
    let d = and_some(
        c,
        "idempotentHint"@,
        some_bool(optional_bool(field_view(json, "idempotentHint"@, 3))),
    );
    JsonView::Object(
        and_some(
            d,
            "openWorldHint"@,
            some_bool(optional_bool(field_view(json, "openWorldHint"@, 4))),
        ),
    )
}

/// The level of task support that a word names.
pub open spec fn support_named(word: Seq<char>) -> Option<TaskSupport> {
    if word == TaskSupport::Forbidden.word() {
        Some(TaskSupport::Forbidden)
    } else if word == TaskSupport::Optional.word() {
        Some(TaskSupport::Optional)
    } else if word == TaskSupport::Required.word() {
        Some(TaskSupport::Required)
    } else {
        None
    }
}

/// The level of task support that a document declares: by its word, or as an object with
/// that word for its one member, which is `null`.
pub open spec fn declared_support(json: JsonView) -> Option<TaskSupport> {
    if !is_record(json, 1, 1) {
        None
    } else {
        match field_view(json, "taskSupport"@, 0) {
            Some(JsonView::Text(word)) => support_named(word),
            Some(JsonView::Object(members)) => if members.len() == 1 && members[0].1 is Null {
                support_named(members[0].0)
            } else {
                None
            },
            _ => None,
        }
    }
}

/// Whether a document shows a tool.
pub open spec fn is_tool(json: JsonView) -> bool {
    &&& is_record(json, 5, 6)
    &&& is_text(field_view(json, "name"@, 0))
    &&& is_text(field_view(json, "description"@, 1))
    &&& field_view(json, "inputSchema"@, 2) is Some
    &&& optional(field_view(json, "annotations"@, 4)) matches Some(hints) ==> is_annotations(hints)
    &&& optional(field_view(json, "execution"@, 5)) matches Some(execution) ==> declared_support(
        execution,
    ) is Some
}

/// What a document shows of a tool, and nothing besides.
pub open spec fn tool_read(json: JsonView) -> JsonView {
    let base = fields().push(("name"@, JsonView::Text(text_of(field_view(json, "name"@, 0))))).push(
        ("description"@, JsonView::Text(text_of(field_view(json, "description"@, 1)))),
    ).push(("inputSchema"@, field_view(json, "inputSchema"@, 2)->0));
    let out = and_some(base, "outputSchema"@, optional(field_view(json, "outputSchema"@, 3)));
    let hints = and_some(
        out,
        "annotations"@,
        match optional(field_view(json, "annotations"@, 4)) {
            Some(hints) => Some(annotations_read(hints)),
            None => None,
        },
    );
    JsonView::Object(
        and_some(
            hints,
            "execution"@,
            match optional(field_view(json, "execution"@, 5)) {
                Some(execution) => match declared_support(execution) {
                    Some(task_support) => Some((ToolExecution { task_support }).wire()),
                    None => None,
                },
                None => None,
            },
        ),
    )
}

pub(crate) fn read_flag(member: Option<&Json>) -> (flag: Option<Option<bool>>)
    ensures
        match flag {
            Some(flag) => is_optional_bool(view_of(member)) && flag == optional_bool(
                view_of(member),
            ),
            None => !is_optional_bool(view_of(member)),
        },
{
    match member {
        None => Some(None),
        Some(json) => match json {
            Json::Null => Some(None),
            Json::Bool(b) => Some(Some(*b)),
            _ => None,
        },
    }
}

impl ToolAnnotations {
    /// Reads how a tool behaves.
    pub fn from_json(json: &Json) -> (hints: Option<Self>)
        ensures
            match hints {
                Some(hints) => is_annotations(json@) && hints.wire() == annotations_read(json@),
                None => !is_annotations(json@),
            },
    {
        if !check_record(json, 5, 5) {
            return None;
        }
        match (
            read_optional_text(field(json, "title", 0)),
            read_flag(field(json, "readOnlyHint", 1)),
            read_flag(field(json, "destructiveHint", 2)),
            read_flag(field(json, "idempotentHint", 3)),
            read_flag(field(json, "openWorldHint", 4)),
        ) {
            (
                Some(title),
                Some(read_only_hint),
                Some(destructive_hint),
                Some(idempotent_hint),
                Some(open_world_hint),
            ) => Some(
                ToolAnnotations {
                    title,
                    read_only_hint,
                    destructive_hint,
                    idempotent_hint,
                    open_world_hint,
                },
            ),
            _ => None,
        }
    }
}

impl ToolExecution {
    /// Reads a task declaration.
    pub fn from_json(json: &Json) -> (execution: Option<Self>)
        ensures
            execution == match declared_support(json@) {
                Some(task_support) => Some(ToolExecution { task_support }),
                None => None,
            },
    {
        if !check_record(json, 1, 1) {
            return None;
        }
        let word = match field(json, "taskSupport", 0) {
            Some(member) => match member {
                Json::Text(word) => word.as_str(),
                Json::Object(members) => {
                    assert(member@->Object_0 =~= member_views(members@));
                    if members.len() != 1 {
                        return None;
                    }
                    match &members[0].value {
                        Json::Null => members[0].key.as_str(),
                        _ => {
                            return None;
                        },
                    }
                },
                _ => {
                    return None;
                },
            },
            None => {
                return None;
            },
        };
        if same(word, TaskSupport::Forbidden.as_str()) {
            Some(ToolExecution { task_support: TaskSupport::Forbidden })
        } else if same(word, TaskSupport::Optional.as_str()) {
            Some(ToolExecution { task_support: TaskSupport::Optional })
        } else if same(word, TaskSupport::Required.as_str()) {
            Some(ToolExecution { task_support: TaskSupport::Required })
        } else {
            None
        }
    }
}

impl Tool {
    /// Reads a tool.
    pub fn from_json(json: &Json) -> (tool: Option<Self>)
        ensures
            match tool {
                Some(tool) => is_tool(json@) && tool.wire() == tool_read(json@),
                None => !is_tool(json@),
            },
    {
        if !check_record(json, 5, 6) {
            return None;
        }
        let name = match read_text(field(json, "name", 0)) {
            Some(name) => name,
            None => {
                return None;
            },
        };
        let description = match read_text(field(json, "description", 1)) {
            Some(description) => description,
            None => {
                return None;
            },
        };
        let input_schema = match field(json, "inputSchema", 2) {
            Some(schema) => schema.dup(),
            None => {
                return None;
            },
        };
        let output_schema = match field(json, "outputSchema", 3) {
            None => None,
            Some(member) => match member {
                Json::Null => None,
                other => Some(other.dup()),
            },
        };
        let annotations = match field(json, "annotations", 4) {
            None => None,
            Some(member) => match member {
                Json::Null => None,
                other => match ToolAnnotations::from_json(other) {
                    Some(hints) => Some(hints),
                    None => {
                        return None;
                    },
                },
            },
        };
        let execution = match field(json, "execution", 5) {
            None => None,
            Some(member) => match member {
                Json::Null => None,
                other => match ToolExecution::from_json(other) {
                    Some(execution) => Some(execution),
                    None => {
                        return None;
                    },
                },
            },
        };
        Some(Tool { name, description, input_schema, output_schema, annotations, execution })
    }
}

/// The names of a tool's members are distinct.
pub(crate) proof fn lemma_tool_keys_differ()
    ensures
        "name"@ != "description"@,
        "name"@ != "inputSchema"@,
        "name"@ != "outputSchema"@,
        "name"@ != "annotations"@,
        "name"@ != "execution"@,
        "description"@ != "inputSchema"@,
        "description"@ != "outputSchema"@,
        "description"@ != "annotations"@,
        "description"@ != "execution"@,
        "inputSchema"@ != "outputSchema"@,
        "inputSchema"@ != "annotations"@,
        "inputSchema"@ != "execution"@,
        "outputSchema"@ != "annotations"@,
        "outputSchema"@ != "execution"@,
        "annotations"@ != "execution"@,
{
    reveal_strlit("name");
    reveal_strlit("description");
    reveal_strlit("inputSchema");
    reveal_strlit("outputSchema");
    reveal_strlit("annotations");
    reveal_strlit("execution");
    assert("name"@.len() == 4);
    assert("description"@.len() == 11);
    assert("inputSchema"@.len() == 11);
    assert("outputSchema"@.len() == 12);
    assert("annotations"@.len() == 11);
    assert("execution"@.len() == 9);
    assert("description"@[0] != "inputSchema"@[0]);
    assert("description"@[0] != "annotations"@[0]);
    assert("inputSchema"@[0] != "annotations"@[0]);
}

/// The names of the members of a tool's hints are distinct.
proof fn lemma_hint_keys_differ()
    ensures
        "title"@ != "readOnlyHint"@,
        "title"@ != "destructiveHint"@,
        "title"@ != "idempotentHint"@,
        "title"@ != "openWorldHint"@,
        "readOnlyHint"@ != "destructiveHint"@,
        "readOnlyHint"@ != "idempotentHint"@,
        "readOnlyHint"@ != "openWorldHint"@,
        "destructiveHint"@ != "idempotentHint"@,
        "destructiveHint"@ != "openWorldHint"@,
        "idempotentHint"@ != "openWorldHint"@,
{
    reveal_strlit("title");
    reveal_strlit("readOnlyHint");
    reveal_strlit("destructiveHint");
    reveal_strlit("idempotentHint");
    reveal_strlit("openWorldHint");
    assert("title"@.len() == 5);
    assert("readOnlyHint"@.len() == 12);
    assert("destructiveHint"@.len() == 15);
    assert("idempotentHint"@.len() == 14);
    assert("openWorldHint"@.len() == 13);
}

/// The words for the levels of task support are distinct.
pub(crate) proof fn lemma_support_words_differ()
    ensures
        "forbidden"@ != "optional"@,
        "forbidden"@ != "required"@,
        "optional"@ != "required"@,
{
    reveal_strlit("forbidden");
    reveal_strlit("optional");
    reveal_strlit("required");
    assert("forbidden"@.len() == 9);
    assert("optional"@.len() == 8);
    assert("required"@.len() == 8);
    assert("optional"@[0] != "required"@[0]);
}

/// Reading what was written gives a tool back that shows the same.
pub proof fn written_tool_reads_back(tool: Tool)
    requires
        option_view(tool.output_schema) != Some(JsonView::Null),
    ensures
        is_tool(tool.wire()),
        tool_read(tool.wire()) == tool.wire(),
{
    broadcast use group_find_member;

    lemma_tool_keys_differ();
    let json = tool.wire();
    assert(json.member("name"@) == Some(JsonView::Text(tool.name@)));
    assert(json.member("description"@) == Some(JsonView::Text(tool.description@)));
    assert(json.member("inputSchema"@) == Some(tool.input_schema@));
    assert(json.member("outputSchema"@) == option_view(tool.output_schema));
    assert(json.member("annotations"@) == some_annotations(tool.annotations));
    assert(json.member("execution"@) == some_execution(tool.execution));
    match tool.annotations {
        Some(hints) => {
            written_hints_read_back(hints);
        },
        None => {},
    }
    match tool.execution {
        Some(execution) => {
            lemma_support_words_differ();
            assert(execution.wire().member("taskSupport"@) == Some(
                JsonView::Text(execution.task_support.word()),
            ));
        },
        None => {},
    }
}

/// Reading what was written gives hints back that say the same.
pub proof fn written_hints_read_back(hints: ToolAnnotations)
    ensures
        is_annotations(hints.wire()),
        annotations_read(hints.wire()) == hints.wire(),
{
    broadcast use group_find_member;

    lemma_hint_keys_differ();
    let json = hints.wire();
    assert(json.member("title"@) == some_text(text_view(hints.title)));
    assert(json.member("readOnlyHint"@) == some_bool(hints.read_only_hint));
    assert(json.member("destructiveHint"@) == some_bool(hints.destructive_hint));
    assert(json.member("idempotentHint"@) == some_bool(hints.idempotent_hint));
    assert(json.member("openWorldHint"@) == some_bool(hints.open_world_hint));
}

/// What a `tools/call` request asks for.
#[derive(Debug)]
pub struct ToolCall {
    /// Name of the tool to invoke.
    pub name: String,
    /// Arguments.
    pub arguments: Option<Json>,
}

/// What a `tools/call` request asks for.
pub struct ToolCallView {
    /// Name of the tool to invoke.
    pub name: Seq<char>,
    /// Arguments.
    pub arguments: Option<JsonView>,
}

impl View for ToolCall {
    type V = ToolCallView;

    open spec fn view(&self) -> ToolCallView {
        ToolCallView { name: self.name@, arguments: option_view(self.arguments) }
    }
}

/// The call that a document denotes, or why it denotes none.
pub open spec fn tool_call_of(json: JsonView) -> Result<ToolCallView, Seq<char>> {
    match record_refusal(json, "ToolCall"@, 1, 2) {
        Some(words) => Err(words),
        None => match string_field(field_view(json, "name"@, 0), "name"@) {
            Err(words) => Err(words),
            Ok(name) => match excess_refusal(json, 2) {
                Some(words) => Err(words),
                None => Ok(
                    ToolCallView { name, arguments: optional(field_view(json, "arguments"@, 1)) },
                ),
            },
        },
    }
}

impl ToolCall {
    /// Reads a call out of a document.
    pub fn from_json(json: &Json) -> (call: Result<Self, String>)
        ensures
            match call {
                Ok(call) => tool_call_of(json@) == Ok::<ToolCallView, Seq<char>>(call@),
                Err(words) => tool_call_of(json@) == Err::<ToolCallView, Seq<char>>(words@),
            },
    {
        match refuse_record(json, "ToolCall", 1, 2) {
            Some(words) => {
                return Err(words);
            },
            None => {},
        }
        let name = match read_string(field(json, "name", 0), "name") {
            Ok(name) => name,
            Err(words) => {
                return Err(words);
            },
        };
        match refuse_excess(json, 2) {
            Some(words) => {
                return Err(words);
            },
            None => {},
        }
        let arguments = match field(json, "arguments", 1) {
            None => None,
            Some(member) => match member {
                Json::Null => None,
                other => Some(other.dup()),
            },
        };
        Ok(ToolCall { name, arguments })
    }
}

/// One item of a message or a tool's result.
#[allow(inconsistent_fields)]
#[derive(Debug, Clone)]
pub enum Content {
    /// Plain text.
    Text {
        /// The text.
        text: String,
    },
    /// An image.
    Image {
        /// The image in base64.
        data: String,
        /// MIME type of the image.
        mime_type: String,
    },
    /// A reference to a resource.
    Resource {
        /// URI of the resource.
        uri: String,
        /// Description of the resource.
        text: Option<String>,
        /// MIME type of the resource.
        mime_type: Option<String>,
    },
    /// Progress of a long operation.
    Progress {
        /// Token identifying the operation.
        progress_token: String,
        /// How far it got.
        progress: Float,
        /// How far it will go.
        total: Option<Float>,
    },
}

/// An optional number that is written as `null` when absent.
pub open spec fn float_or_null(value: Option<Float>) -> JsonView {
    match value {
        Some(value) => value.wire(),
        None => JsonView::Null,
    }
}

/// An optional number that is written as `null` when absent.
pub fn float_or_null_json(value: &Option<Float>) -> (json: Json)
    ensures
        json@ == float_or_null(*value),
{
    match value {
        Some(value) => value.to_json(),
        None => Json::Null,
    }
}

impl Content {
    /// The JSON that stands for it: the kind under `type`, the fields beside it.
    pub open spec fn wire(self) -> JsonView {
        match self {
            Content::Text { text } => JsonView::Object(
                fields().push(("type"@, JsonView::Text("text"@))).push(
                    ("text"@, JsonView::Text(text@)),
                ),
            ),
            Content::Image { data, mime_type } => JsonView::Object(
                fields().push(("type"@, JsonView::Text("image"@))).push(
                    ("data"@, JsonView::Text(data@)),
                ).push(("mimeType"@, JsonView::Text(mime_type@))),
            ),
            Content::Resource { uri, text, mime_type } => JsonView::Object(
                and_some(
                    and_some(
                        fields().push(("type"@, JsonView::Text("resource"@))).push(
                            ("uri"@, JsonView::Text(uri@)),
                        ),
                        "text"@,
                        some_text(text_view(text)),
                    ),
                    "mimeType"@,
                    some_text(text_view(mime_type)),
                ),
            ),
            Content::Progress { progress_token, progress, total } => JsonView::Object(
                fields().push(("type"@, JsonView::Text("progress"@))).push(
                    ("progressToken"@, JsonView::Text(progress_token@)),
                ).push(("progress"@, progress.wire())).push(("total"@, float_or_null(total))),
            ),
        }
    }

    /// The text of a text item.
    pub fn as_text(&self) -> (text: Option<&str>)
        ensures
            match text {
                Some(s) => self matches Content::Text { text } && text@ == s@,
                None => !(self is Text),
            },
    {
        match self {
            Content::Text { text } => Some(text.as_str()),
            _ => None,
        }
    }

    /// The JSON that stands for it.
    pub fn to_json(&self) -> (json: Json)
        ensures
            json@ == self.wire(),
    {
        let mut members = no_members();
        match self {
            Content::Text { text } => {
                put_text(&mut members, "type", "text");
                put_text(&mut members, "text", text.as_str());
            },
            Content::Image { data, mime_type } => {
                put_text(&mut members, "type", "image");
                put_text(&mut members, "data", data.as_str());
                put_text(&mut members, "mimeType", mime_type.as_str());
            },
            Content::Resource { uri, text, mime_type } => {
                put_text(&mut members, "type", "resource");
                put_text(&mut members, "uri", uri.as_str());
                put_some_text(&mut members, "text", text);
                put_some_text(&mut members, "mimeType", mime_type);
            },
            Content::Progress { progress_token, progress, total } => {
                put_text(&mut members, "type", "progress");
                put_text(&mut members, "progressToken", progress_token.as_str());
                put(&mut members, "progress", progress.to_json());
                put(&mut members, "total", float_or_null_json(total));
            },
        }
        Json::object(members)
    }
}

/// What a tool answered.
#[derive(Debug)]
pub struct ToolResponse {
    /// The items of the answer.
    pub content: Vec<Content>,
    /// Whether the tool failed.
    pub is_error: bool,
    /// Structured data beside the items.
    pub structured_content: Option<Json>,
}

/// The JSON of a list of items.
pub open spec fn content_list(content: Seq<Content>) -> JsonView {
    JsonView::Array(Seq::new(content.len(), |i: int| content[i].wire()))
}

/// The JSON of an answer.
pub open spec fn tool_response_json(
    content: JsonView,
    is_error: bool,
    structured: Option<JsonView>,
) -> JsonView {
    JsonView::Object(
        and_some(
            fields().push(("content"@, content)).push(("isError"@, JsonView::Bool(is_error))),
            "structuredContent"@,
            structured,
        ),
    )
}

/// The JSON of an answer that is one text.
pub open spec fn text_answer(text: Seq<char>, is_error: bool) -> JsonView {
    let item = JsonView::Object(
        fields().push(("type"@, JsonView::Text("text"@))).push(("text"@, JsonView::Text(text))),
    );
    tool_response_json(JsonView::Array(Seq::empty().push(item)), is_error, None)
}

impl ToolResponse {
    /// The JSON that stands for it.
    pub open spec fn wire(self) -> JsonView {
        tool_response_json(
            content_list(self.content@),
            self.is_error,
            option_view(self.structured_content),
        )
    }

    fn one_text(text: String, is_error: bool) -> (response: Self)
        ensures
            response.wire() == text_answer(text@, is_error),
            response.is_error == is_error,
            response.content@.len() == 1,
            response.content@[0] == (Content::Text { text }),
            response.structured_content is None,
    {
        let mut content: Vec<Content> = Vec::new();
        content.push(Content::Text { text });
        assert(content_list(content@)->Array_0 =~= Seq::empty().push(content@[0].wire()));
        ToolResponse { content, is_error, structured_content: None }
    }

    /// A successful answer that is one text.
    pub fn text(content: String) -> (response: Self)
        ensures
            response.wire() == text_answer(content@, false),
            !response.is_error,
            response.content@.len() == 1,
            response.content@[0] == (Content::Text { text: content }),
            response.structured_content is None,
    {
        ToolResponse::one_text(content, false)
    }

    /// A failure with a message.
    pub fn error(message: String) -> (response: Self)
        ensures
            response.wire() == text_answer(message@, true),
            response.is_error,
            response.content@.len() == 1,
            response.content@[0] == (Content::Text { text: message }),
            response.structured_content is None,
    {
        ToolResponse::one_text(message, true)
    }

    /// The JSON that stands for it.
    pub fn to_json(&self) -> (json: Json)
        ensures
            json@ == self.wire(),
    {
        let mut items: Vec<Json> = Vec::new();
        let mut i: usize = 0;
        while i < self.content.len()
            invariant
                i <= self.content.len(),
                items.len() == i,
                forall|k: int| 0 <= k < i ==> (#[trigger] items@[k])@ == self.content@[k].wire(),
            decreases self.content.len() - i,
        {
            items.push(self.content[i].to_json());
            i += 1;
        }
        assert(item_views(items@) =~= content_list(self.content@)->Array_0);
        let mut members = no_members();
        put(&mut members, "content", Json::array(items));
        put(&mut members, "isError", Json::Bool(self.is_error));
        put_some(&mut members, "structuredContent", dup_option(&self.structured_content));
        Json::object(members)
    }
}

} // verus!
