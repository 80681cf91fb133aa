//! What holds of every request and task that is read, of every registry of tools, and of what a
//! server says it can do.

use vstd::prelude::*;

use crate::json::{find_member, group_find_member, JsonView, NumberView};
use crate::mcp::auth::escaped;
use crate::mcp::computation::{computation_answer, Computed};
use crate::mcp::laws::says_failure;
use crate::mcp::protocol::{
    metadata_of, posted_body, redaction, request_in, request_json, request_of, RequestView,
};
use crate::mcp::reading::laws::unless_null;
use crate::mcp::server::{default_versions, with_tasks_unnamed, Config};
use crate::mcp::tasks::{
    detailed_of, payload_of, task_error_text, task_of, PayloadView, TaskErrorView, TaskStatus,
};
use crate::mcp::tool::{
    anonymous, call_refusal, category_index, category_tools, lemma_tool_index, tool_index,
    tool_named, with_category, with_tool, CategoryView, ToolCapabilities, ToolEntry,
};
use crate::string_map::{distinct_keys, lookup, lookup_after_insert, text_members};
use crate::text_laws::{between, holds};

verus! {

// ---------------------------------------------------------------------------
// Requests
// ---------------------------------------------------------------------------

/// Whether every member is a text.
pub open spec fn all_texts(members: Seq<(Seq<char>, JsonView)>) -> bool {
    forall|i: int| 0 <= i < members.len() ==> (#[trigger] members[i]).1 is Text
}

/// A request is read when it has a version and a method, and a credential, headers and metadata
/// of their kind where it has any; and as it stands.
pub proof fn requests_are_read_as_they_stand(json: JsonView)
    requires
        json is Object,
    ensures
        request_of(json) is Ok <==> {
            &&& (json.member("jsonrpc"@) matches Some(JsonView::Text(_)))
            &&& (json.member("method"@) matches Some(JsonView::Text(_)))
            &&& (json.member("auth"@) matches Some(value) ==> value is Null || value is Text)
            &&& (json.member("headers"@) matches Some(value) ==> value is Null || value is Object)
            &&& (json.member("metadata"@) matches Some(value) ==> (value matches JsonView::Object(
                members,
            ) && all_texts(members)))
        },
        request_of(json) matches Ok(request) ==> {
            &&& json.member("jsonrpc"@) == Some(JsonView::Text(request.jsonrpc))
            &&& json.member("method"@) == Some(JsonView::Text(request.method))
            &&& request.params == unless_null(json.member("params"@))
            &&& request.id == unless_null(json.member("id"@))
            &&& request.auth_token == match json.member("auth"@) {
                Some(JsonView::Text(token)) => Some(token),
                _ => None,
            }
            &&& request.headers == match json.member("headers"@) {
                Some(JsonView::Object(members)) => Some(members),
                _ => None,
            }
            &&& json.member("metadata"@) is None ==> request.metadata.len() == 0
            &&& json.member("metadata"@) matches Some(JsonView::Object(members)) ==> request.metadata
                == metadata_of(members)->Ok_0
        },
{
    match json.member("metadata"@) {
        Some(JsonView::Object(members)) => {
            lemma_metadata(members, Seq::empty());
        },
        _ => {},
    }
}

/// Metadata are read when they are texts, each under its own name, the last where a name stands
/// twice.
pub proof fn metadata_are_found_under_their_name(
    members: Seq<(Seq<char>, JsonView)>,
    key: Seq<char>,
)
    ensures
        metadata_of(members) is Ok <==> all_texts(members),
        metadata_of(members) matches Ok(pairs) ==> distinct_keys(pairs) && (forall|i: int|
            0 <= i < members.len() && (#[trigger] members[i]).0 == key && (forall|k: int|
                i < k < members.len() ==> (#[trigger] members[k]).0 != key) ==> Some(members[i].1)
                == match lookup(pairs, key) {
                Some(value) => Some(JsonView::Text(value)),
                None => None,
            }),
        metadata_of(members) matches Ok(pairs) ==> ((forall|i: int|
            0 <= i < members.len() ==> (#[trigger] members[i]).0 != key) ==> lookup(pairs, key) is None),
{
    lemma_metadata(members, key);
}

proof fn lemma_metadata(members: Seq<(Seq<char>, JsonView)>, key: Seq<char>)
    ensures
        metadata_of(members) is Ok <==> all_texts(members),
        metadata_of(members) matches Ok(pairs) ==> distinct_keys(pairs),
        metadata_of(members) matches Ok(pairs) ==> forall|i: int|
            0 <= i < members.len() && (#[trigger] members[i]).0 == key && (forall|k: int|
                i < k < members.len() ==> (#[trigger] members[k]).0 != key) ==> Some(members[i].1)
                == match lookup(pairs, key) {
                Some(value) => Some(JsonView::Text(value)),
                None => None,
            },
        metadata_of(members) matches Ok(pairs) ==> ((forall|i: int|
            0 <= i < members.len() ==> (#[trigger] members[i]).0 != key) ==> lookup(pairs, key) is None),
    decreases members.len(),
{
    if members.len() > 0 {
        let front = members.drop_last();
        let last = members.last();
        lemma_metadata(front, key);
        assert(members[members.len() - 1] == last);
        if all_texts(members) {
            assert forall|i: int| 0 <= i < front.len() implies (#[trigger] front[i]).1 is Text by {
                assert(front[i] == members[i]);
            }
            let before = metadata_of(front)->Ok_0;
            let value = last.1->Text_0;
            lookup_after_insert(before, last.0, value, key);
            crate::string_map::lemma_inserted_distinct(before, last.0, value);
            let pairs = metadata_of(members)->Ok_0;
            assert forall|i: int|
                0 <= i < members.len() && (#[trigger] members[i]).0 == key && (forall|k: int|
                    i < k < members.len() ==> (#[trigger] members[k]).0 != key) implies Some(
                members[i].1,
            ) == match lookup(pairs, key) {
                Some(value) => Some(JsonView::Text(value)),
                None => None,
            } by {
                if i < front.len() {
                    assert(members[members.len() - 1].0 != key);
                    assert(front[i] == members[i]);
                    assert forall|k: int| i < k < front.len() implies (#[trigger] front[k]).0
                        != key by {
                        assert(front[k] == members[k]);
                    }
                }
            }
            if forall|i: int| 0 <= i < members.len() ==> (#[trigger] members[i]).0 != key {
                assert forall|i: int| 0 <= i < front.len() implies (#[trigger] front[i]).0 != key by {
                    assert(front[i] == members[i]);
                }
                assert(members[members.len() - 1].0 != key);
            }
        } else if all_texts(front) {
            if last.1 is Text {
                assert forall|i: int| 0 <= i < members.len() implies (#[trigger] members[i]).1 is Text by {
                    if i < front.len() {
                        assert(front[i] == members[i]);
                    }
                }
            }
        }
    }
}

/// A posted body is a request when it is an object whose id, where it has one, is a text or a
/// whole number, and when it can be read as a request; what it says is kept, but for a
/// credential.
pub proof fn posted_bodies_are_requests(body: Seq<char>, json: JsonView)
    requires
        crate::json::parsed_text(body) == Ok::<JsonView, Seq<char>>(json),
    ensures
        posted_body(body) is Ok <==> json is Object && (json.member("id"@) matches Some(id)
            ==> id is Text || (id matches JsonView::Number(number) && !(number is Float)))
            && request_in(body) is Ok,
        posted_body(body) matches Ok(posted) ==> {
            let read = request_in(body)->Ok_0;
            &&& posted.auth_token is None
            &&& posted.jsonrpc == read.jsonrpc
            &&& posted.method == read.method
            &&& posted.params == read.params
            &&& posted.id == read.id
            &&& posted.headers == read.headers
            &&& posted.metadata == read.metadata
        },
        posted_body(body) matches Err(refusal) ==> (refusal.error matches Some(error) && error.code
            == -32_600) && refusal.id is None,
{
}

/// A body that is no JSON is refused as such.
pub proof fn bodies_that_are_no_json_are_refused(body: Seq<char>)
    requires
        crate::json::parsed_text(body) is Err,
    ensures
        posted_body(body) matches Err(refusal) && (refusal.error matches Some(error) && error.code
            == -32_700) && refusal.id is None,
{
}

/// A request is written with all that it holds.
pub proof fn requests_are_written_whole(request: RequestView)
    ensures
        ({
            let json = request_json(request);
            &&& json.member("jsonrpc"@) == Some(JsonView::Text(request.jsonrpc))
            &&& json.member("method"@) == Some(JsonView::Text(request.method))
            &&& json.member("params"@) == request.params
            &&& json.member("id"@) == request.id
            &&& json.member("auth"@) == match request.auth_token {
                Some(token) => Some(JsonView::Text(token)),
                None => None,
            }
            &&& json.member("headers"@) == match request.headers {
                Some(members) => Some(JsonView::Object(members)),
                None => None,
            }
            &&& json.member("metadata"@) == if request.metadata.len() == 0 {
                None
            } else {
                Some(JsonView::Object(text_members(request.metadata)))
            }
        }),
{
    broadcast use group_find_member;

    lemma_request_names();
}

/// The names of a request's members are distinct.
proof fn lemma_request_names()
    ensures
        "jsonrpc"@ != "method"@,
        "jsonrpc"@ != "params"@,
        "jsonrpc"@ != "id"@,
        "jsonrpc"@ != "auth"@,
        "jsonrpc"@ != "headers"@,
        "jsonrpc"@ != "metadata"@,
        "method"@ != "params"@,
        "method"@ != "id"@,
        "method"@ != "auth"@,
        "method"@ != "headers"@,
        "method"@ != "metadata"@,
        "params"@ != "id"@,
        "params"@ != "auth"@,
        "params"@ != "headers"@,
        "params"@ != "metadata"@,
        "id"@ != "auth"@,
        "id"@ != "headers"@,
        "id"@ != "metadata"@,
        "auth"@ != "headers"@,
        "auth"@ != "metadata"@,
        "headers"@ != "metadata"@,
{
    reveal_strlit("jsonrpc");
    reveal_strlit("method");
    reveal_strlit("params");
    reveal_strlit("id");
    reveal_strlit("auth");
    reveal_strlit("headers");
    reveal_strlit("metadata");
    assert("jsonrpc"@.len() == 7);
    assert("method"@.len() == 6);
    assert("params"@.len() == 6);
    assert("id"@.len() == 2);
    assert("auth"@.len() == 4);
    assert("headers"@.len() == 7);
    assert("metadata"@.len() == 8);
    assert("jsonrpc"@[0] != "headers"@[0]);
    assert("method"@[0] != "params"@[0]);
}

/// A long credential shows its first ten characters and its last eight, with dots between; a
/// short one shows nothing.
pub proof fn credentials_are_hidden(token: Seq<char>)
    ensures
        token.len() <= 20 ==> redaction(token) == "[REDACTED]"@,
        token.len() > 20 ==> redaction(token).len() == 21 && token.take(10).is_prefix_of(
            redaction(token),
        ) && token.skip(token.len() - 8).is_suffix_of(redaction(token)) && redaction(
            token,
        ).subrange(10, 13) == "..."@,
{
    reveal_strlit("...");
    if token.len() > 20 {
        let shown = redaction(token);
        assert(shown.len() == 21);
        assert(shown.take(10) =~= token.take(10));
        assert(shown.skip(13) =~= token.skip(token.len() - 8));
        assert(shown.subrange(10, 13) =~= "..."@);
    }
}

// ---------------------------------------------------------------------------
// Tasks
// ---------------------------------------------------------------------------

/// Whether a word is that of a state.
pub open spec fn is_state(word: Seq<char>) -> bool {
    word == "working"@ || word == "input_required"@ || word == "completed"@ || word == "failed"@
        || word == "cancelled"@
}

/// Whether a member is a count, or left out.
pub open spec fn is_count(member: Option<JsonView>) -> bool {
    member matches Some(value) ==> value is Null || (value matches JsonView::Number(
        NumberView::Unsigned(_),
    ))
}

/// A task is read from its id, its state and its times; and as it stands.
pub proof fn tasks_are_read_as_they_stand(json: JsonView, word: Seq<char>)
    requires
        json is Object,
        json.member("status"@) == Some(JsonView::Text(word)),
    ensures
        task_of(json) is Ok <==> {
            &&& is_state(word)
            &&& (json.member("taskId"@) matches Some(JsonView::Text(_)))
            &&& (json.member("statusMessage"@) matches Some(value) ==> value is Null
                || value is Text)
            &&& (json.member("createdAt"@) matches Some(JsonView::Text(_)))
            &&& (json.member("lastUpdatedAt"@) matches Some(JsonView::Text(_)))
            &&& is_count(json.member("ttlMs"@))
            &&& is_count(json.member("pollIntervalMs"@))
        },
        task_of(json) matches Ok(task) ==> {
            &&& task.status.word() == word
            &&& json.member("taskId"@) == Some(JsonView::Text(task.task_id))
            &&& json.member("createdAt"@) == Some(JsonView::Text(task.created_at))
            &&& json.member("lastUpdatedAt"@) == Some(JsonView::Text(task.last_updated_at))
            &&& task.status_message == match json.member("statusMessage"@) {
                Some(JsonView::Text(text)) => Some(text),
                _ => None,
            }
            &&& task.ttl_ms == match json.member("ttlMs"@) {
                Some(JsonView::Number(NumberView::Unsigned(ms))) => Some(ms),
                _ => None,
            }
            &&& task.poll_interval_ms == match json.member("pollIntervalMs"@) {
                Some(JsonView::Number(NumberView::Unsigned(ms))) => Some(ms),
                _ => None,
            }
        },
{
}

/// States are written as their words.
pub proof fn states_are_written_as_words(status: TaskStatus)
    ensures
        status.word() == match status {
            TaskStatus::Working => "working"@,
            TaskStatus::InputRequired => "input_required"@,
            TaskStatus::Completed => "completed"@,
            TaskStatus::Failed => "failed"@,
            TaskStatus::Cancelled => "cancelled"@,
        },
        status.terminal() <==> !(status is Working || status is InputRequired),
{
}

/// What a task carries is what its state calls for, and it must be there.
pub proof fn states_call_for_what_tasks_carry(
    status: TaskStatus,
    asked: Option<Seq<(Seq<char>, JsonView)>>,
    result: Option<Seq<(Seq<char>, JsonView)>>,
    error: Option<Seq<(Seq<char>, JsonView)>>,
)
    ensures
        payload_of(status, asked, result, error) is Ok <==> (status is InputRequired
            ==> asked is Some) && (status is Completed ==> result is Some) && (status is Failed
            ==> error is Some),
        payload_of(status, asked, result, error) matches Ok(payload) ==> {
            &&& payload.status() == status
            &&& payload matches PayloadView::InputRequired(members) ==> asked == Some(members)
            &&& payload matches PayloadView::Completed(members) ==> result == Some(members)
            &&& payload matches PayloadView::Failed(members) ==> error == Some(members)
        },
{
}

/// A task with what it carries is read from the task and from the member that its state calls
/// for.
pub proof fn tasks_are_read_with_what_they_carry(json: JsonView)
    requires
        json is Object,
        detailed_of(json) is Ok,
    ensures
        ({
            let read = detailed_of(json)->Ok_0;
            &&& task_of(json) matches Ok(task) && read.task == task
            &&& read.payload.status() == read.task.status
            &&& read.payload matches PayloadView::Completed(members) ==> json.member("result"@)
                == Some(JsonView::Object(members))
            &&& read.payload matches PayloadView::Failed(members) ==> json.member("error"@) == Some(
                JsonView::Object(members),
            )
            &&& read.payload matches PayloadView::InputRequired(members) ==> json.member(
                "inputRequests"@,
            ) == Some(JsonView::Object(members))
        }),
{
}

/// A failure of a task names the task, and says where it stands or what the store says.
pub proof fn failures_name_their_task(id: Seq<char>, status: TaskStatus, reason: Seq<char>)
    ensures
        holds(task_error_text(TaskErrorView::NotFound(id)), id),
        holds(task_error_text(TaskErrorView::InvalidState(id, status)), id),
        holds(task_error_text(TaskErrorView::InvalidState(id, status)), status.name()),
        reason.is_suffix_of(task_error_text(TaskErrorView::Store(reason))),
{
    assert(task_error_text(TaskErrorView::NotFound(id)) =~= between("task '"@, id, "' not found"@));
    let wrong = task_error_text(TaskErrorView::InvalidState(id, status));
    let tail = " and cannot accept this operation"@;
    assert(wrong =~= between("task '"@, id, "' is "@ + status.name() + tail));
    assert(wrong =~= between("task '"@ + id + "' is "@, status.name(), tail));
    let lost = task_error_text(TaskErrorView::Store(reason));
    assert(lost.skip(lost.len() - reason.len()) =~= reason);
}

// ---------------------------------------------------------------------------
// Tools
// ---------------------------------------------------------------------------

/// A tool is found under its name: the first that has it, and none where no tool has it.
pub proof fn tools_are_found_by_name<H>(tools: Seq<ToolEntry<H>>, name: Seq<char>, at: int)
    ensures
        0 <= at < tools.len() && tools[at].name == name && (forall|k: int|
            0 <= k < at ==> (#[trigger] tools[k]).name != name) ==> tool_named(tools, name) == Some(
            tools[at],
        ),
        tool_named(tools, name) is None <==> forall|k: int|
            0 <= k < tools.len() ==> (#[trigger] tools[k]).name != name,
{
    lemma_tool_index(tools, name);
}

/// A tool that is registered is found under its name, and every other as before; a new one
/// comes last, and one that was there keeps its place.
pub proof fn registered_tools_are_found<H>(
    tools: Seq<ToolEntry<H>>,
    tool: ToolEntry<H>,
    other: Seq<char>,
)
    ensures
        tool_named(with_tool(tools, tool), tool.name) == Some(tool),
        other != tool.name ==> tool_named(with_tool(tools, tool), other) == tool_named(
            tools,
            other,
        ),
        with_tool(tools, tool).len() == tools.len() + if tool_named(tools, tool.name) is None {
            1int
        } else {
            0
        },
        tool_named(tools, tool.name) is None ==> with_tool(tools, tool).last() == tool,
        forall|i: int|
            0 <= i < tools.len() && (#[trigger] tools[i]).name != tool.name ==> with_tool(
                tools,
                tool,
            )[i] == tools[i],
{
    let after = with_tool(tools, tool);
    lemma_tool_index(tools, tool.name);
    lemma_tool_index(after, tool.name);
    let at = tool_index(tools, tool.name);
    let found = tool_index(after, tool.name);
    assert(after[at] == tool);
    if found < at {
        assert(after[found] == tools[found]);
    }
    if other != tool.name {
        lemma_tool_index(tools, other);
        lemma_tool_index(after, other);
        let spot = tool_index(tools, other);
        let there = tool_index(after, other);
        if spot < tools.len() {
            assert(after[spot] == tools[spot]);
            if there < spot {
                assert(after[there] == tools[there]);
            }
        } else if there < after.len() {
            assert(there != at);
            assert(after[there] == tools[there]);
        }
    }
}

/// A call is refused when there is no such tool, or when the tool is for administrators and the
/// caller is none; and only then. The refusal names the tool.
pub proof fn calls_are_refused_by_name<H>(
    tools: Seq<ToolEntry<H>>,
    name: Seq<char>,
    is_admin: bool,
)
    ensures
        call_refusal(tools, name, is_admin) is None <==> (tool_named(tools, name) matches Some(tool)
            && (is_admin || tool.capabilities.bits & 0b0010_0000 != 0b0010_0000)),
        call_refusal(tools, name, is_admin) matches Some(words) ==> holds(words, name),
        tool_named(tools, name) is None ==> call_refusal(tools, name, true) == call_refusal(
            tools,
            name,
            false,
        ),
{
    let unknown = "Unknown tool: "@ + name;
    assert(unknown =~= between("Unknown tool: "@, name, Seq::empty()));
    let guarded = "Tool '"@ + name + "' requires admin privileges"@;
    assert(guarded =~= between("Tool '"@, name, "' requires admin privileges"@));
}

/// A tool that is put under a category is the last there, and no other category changes.
pub proof fn categories_list_their_tools(
    categories: Seq<CategoryView>,
    name: Seq<char>,
    tool: Seq<char>,
    other: Seq<char>,
)
    ensures
        category_tools(with_category(categories, name, tool), name) == category_tools(
            categories,
            name,
        ).push(tool),
        other != name ==> category_tools(with_category(categories, name, tool), other)
            == category_tools(categories, other),
{
    let after = with_category(categories, name, tool);
    lemma_category(categories, name);
    lemma_category(after, name);
    let at = category_index(categories, name);
    let found = category_index(after, name);
    assert(after[at].0 == name);
    if found < at {
        assert(after[found] == categories[found]);
    }
    assert(category_tools(after, name) =~= category_tools(categories, name).push(tool));
    if other != name {
        lemma_category(categories, other);
        lemma_category(after, other);
        let spot = category_index(categories, other);
        let there = category_index(after, other);
        if spot < categories.len() {
            assert(after[spot] == categories[spot]);
            if there < spot {
                assert(after[there] == categories[there]);
            }
        } else if there < after.len() {
            assert(there != at);
            assert(after[there] == categories[there]);
        }
    }
}

proof fn lemma_category(categories: Seq<CategoryView>, name: Seq<char>)
    ensures
        0 <= category_index(categories, name) <= categories.len(),
        category_index(categories, name) < categories.len() ==> categories[category_index(
            categories,
            name,
        )].0 == name,
        forall|k: int|
            0 <= k < category_index(categories, name) ==> (#[trigger] categories[k]).0 != name,
    decreases categories.len(),
{
    if categories.len() > 0 && categories[0].0 != name {
        lemma_category(categories.skip(1), name);
        assert forall|k: int| 0 <= k < category_index(categories, name) implies (
        #[trigger] categories[k]).0 != name by {
            if k > 0 {
                assert(categories.skip(1)[k - 1] == categories[k]);
            }
        }
    }
}

/// A set of flags has another exactly when it has each of its bits.
pub proof fn flags_are_had_bit_by_bit(whole: ToolCapabilities, part: ToolCapabilities, bit: u16)
    requires
        whole.has(part),
        part.bits & bit == bit,
    ensures
        whole.bits & bit == bit,
        whole.has(ToolCapabilities { bits: 0 }),
        whole.has(whole),
{
    let w = whole.bits;
    let p = part.bits;
    assert(w & p == p && p & bit == bit ==> w & bit == bit) by (bit_vector);
    assert(w & 0 == 0) by (bit_vector);
    assert(w & w == w) by (bit_vector);
}

/// What a computation gave is the answer; whatever went wrong is a failure that names the tool
/// and says what.
pub proof fn computations_answer_what_they_gave(name: Seq<char>, words: String)
    ensures
        ({
            let answer = computation_answer(name, Computed::Rendered(words));
            &&& answer.member("isError"@) == Some(JsonView::Bool(false))
            &&& answer.member("content"@) matches Some(JsonView::Array(items)) && items.len() == 1
                && items[0].member("text"@) == Some(JsonView::Text(words@))
        }),
        says_failure(
            computation_answer(name, Computed::BadArguments(words)),
            name + ": invalid arguments: "@ + words@,
        ),
        says_failure(
            computation_answer(name, Computed::Refused(words)),
            name + ": "@ + words@,
        ),
        says_failure(
            computation_answer(name, Computed::Unrenderable(words)),
            name + ": could not render the result: "@ + words@,
        ),
{
    broadcast use group_find_member;

    lemma_answer_names();
}

/// The names of an answer's members are distinct.
proof fn lemma_answer_names()
    ensures
        "content"@ != "isError"@,
        "content"@ != "type"@,
        "content"@ != "text"@,
        "isError"@ != "type"@,
        "isError"@ != "text"@,
        "type"@ != "text"@,
{
    reveal_strlit("content");
    reveal_strlit("isError");
    reveal_strlit("type");
    reveal_strlit("text");
    assert("content"@.len() == 7);
    assert("isError"@.len() == 7);
    assert("type"@.len() == 4);
    assert("text"@.len() == 4);
    assert("content"@[0] != "isError"@[0]);
    assert("type"@[1] != "text"@[1]);
}

// ---------------------------------------------------------------------------
// What a server says it can do
// ---------------------------------------------------------------------------

/// What a server was given to say of itself it says, under the same names; and the extensions
/// it was given, but for tasks, which it names when and only when it keeps them.
pub proof fn servers_say_what_they_were_given<H>(
    config: Config<H>,
    given: Seq<(Seq<char>, JsonView)>,
    name: Seq<char>,
)
    requires
        config.extensions == Some(JsonView::Object(given)),
        find_member(config.capabilities, "extensions"@) is None,
    ensures
        name != "extensions"@ ==> config.advertised().member(name) == find_member(
            config.capabilities,
            name,
        ),
        config.advertised().member("extensions"@) matches Some(extensions) && {
            &&& name != "io.modelcontextprotocol/tasks"@ ==> extensions.member(name) == find_member(
                given,
                name,
            )
            &&& extensions.member("io.modelcontextprotocol/tasks"@) is Some <==> config.tasks
            &&& config.tasks && find_member(given, "io.modelcontextprotocol/tasks"@) is Some
                ==> extensions.member("io.modelcontextprotocol/tasks"@) == find_member(
                given,
                "io.modelcontextprotocol/tasks"@,
            )
        },
{
    broadcast use group_find_member;

    lemma_unnamed(given, name);
}

proof fn lemma_unnamed(given: Seq<(Seq<char>, JsonView)>, name: Seq<char>)
    ensures
        name != "io.modelcontextprotocol/tasks"@ ==> find_member(with_tasks_unnamed(given), name)
            == find_member(given, name),
        find_member(with_tasks_unnamed(given), "io.modelcontextprotocol/tasks"@) is None,
    decreases given.len(),
{
    broadcast use group_find_member;

    if given.len() > 0 {
        lemma_unnamed(given.drop_last(), name);
        assert(given =~= given.drop_last().push(given.last()));
    } else {
        assert(given =~= crate::json::fields());
    }
}

/// Escaping puts a backslash before each quote and each backslash, and leaves the rest.
pub proof fn escaping_marks_quotes(s: Seq<char>, c: char)
    ensures
        escaped(s.push(c)) == if c == '"' || c == '\\' {
            escaped(s) + seq!['\\', c]
        } else {
            escaped(s) + seq![c]
        },
        escaped(Seq::empty()) == Seq::<char>::empty(),
{
    assert(s.push(c).drop_last() =~= s);
    assert(escaped(s.push(c)) =~= if c == '"' || c == '\\' {
        escaped(s) + seq!['\\', c]
    } else {
        escaped(s) + seq![c]
    });
}

/// A failed task is told with the name of its state, and no two states share one.
pub proof fn states_have_names_of_their_own(a: TaskStatus, b: TaskStatus)
    ensures
        a.name() == b.name() ==> a == b,
        a.word() == b.word() ==> a == b,
        a.name().len() > 0,
{
    reveal_strlit("Working");
    reveal_strlit("InputRequired");
    reveal_strlit("Completed");
    reveal_strlit("Failed");
    reveal_strlit("Cancelled");
    reveal_strlit("working");
    reveal_strlit("input_required");
    reveal_strlit("completed");
    reveal_strlit("failed");
    reveal_strlit("cancelled");
    assert("Completed"@[1] != "Cancelled"@[1]);
    assert("completed"@[1] != "cancelled"@[1]);
    assert("Working"@[0] == 'W' && "InputRequired"@[0] == 'I' && "Completed"@[0] == 'C'
        && "Failed"@[0] == 'F' && "Cancelled"@[0] == 'C');
    assert("working"@[0] == 'w' && "input_required"@[0] == 'i' && "completed"@[0] == 'c'
        && "failed"@[0] == 'f' && "cancelled"@[0] == 'c');
}

/// Whoever is not known is no administrator and nobody's owner, and may call what is not guarded
/// and nothing else.
pub proof fn strangers_call_what_is_not_guarded<H>(tools: Seq<ToolEntry<H>>, name: Seq<char>)
    ensures
        call_refusal(tools, name, anonymous().is_admin) is None <==> (tool_named(
            tools,
            name,
        ) matches Some(tool) && tool.capabilities.bits & 0b0010_0000 != 0b0010_0000),
        anonymous().user_id is None,
        anonymous().tenant_id is None,
        anonymous().auth_method is None,
        anonymous().client_capabilities is None,
        anonymous().scopes.len() == 0,
{
}

/// Unless it is told otherwise, a server speaks the modern revision and the legacy one, and no
/// other.
pub proof fn servers_speak_both_eras(version: Seq<char>)
    ensures
        default_versions().contains(version) <==> version == "2026-07-28"@ || version
            == "2025-11-25"@,
        default_versions().len() == 2,
{
    let versions = default_versions();
    assert(versions[0] == "2026-07-28"@);
    assert(versions[1] == "2025-11-25"@);
}

} // verus!
