//! Durable task handles: what a task is, and the JSON it becomes.
//!
//! A server may answer a tool call with a task instead of a result. The client
//! then asks for the task's state until it is settled.

use vstd::prelude::*;

use crate::clock::{
    current_timestamp, is_stamp, nanos_between, stamped_at, to_the_millisecond, nanos_since, parse_rfc3339, rfc3339_instant, Timestamp,
};
use crate::decode::{
    describe_found, excess_refusal, field, field_view, found_words, missing, missing_words,
    read_string, record_refusal, refuse_excess, refuse_record, string_field, view_of, wrong_type,
    wrong_type_words,
};
use crate::json::{
    and_some, dup_members, fields, group_find_member, member_views, no_members, put, put_some_text,
    put_some_unsigned, put_text, some_text, some_unsigned, text_view, Json, JsonView, Member, Number,
    NumberView,
};
use crate::mcp::protocol::{optional_object, optional, optional_string};
use crate::mcp::schema::dup_text;
use crate::text::same;

pub mod laws;
pub mod manager;
pub mod method_names;
pub mod store;
pub mod subscription;

pub use manager::{TaskManager, TaskOptions};
pub use store::{InMemoryTaskStore, TaskStore};
pub use subscription::{task_notification, TaskSubscription};

verus! {

/// Identifier of the tasks extension.
pub const TASKS_EXTENSION_ID: &'static str = "io.modelcontextprotocol/tasks";

/// How long a task is kept by default, in milliseconds.
pub const DEFAULT_TASK_TTL_MS: u64 = 300_000;

/// How often clients are asked to poll by default, in milliseconds.
pub const DEFAULT_POLL_INTERVAL_MS: u64 = 1_000;

/// An opaque task identifier.
#[derive(Debug, Clone)]
pub struct TaskId {
    id: String,
}

impl View for TaskId {
    type V = Seq<char>;

    closed spec fn view(&self) -> Seq<char> {
        self.id@
    }
}

impl TaskId {
    /// The identifier with the given text.
    pub fn new(id: &str) -> (task_id: Self)
        ensures
            task_id@ == id@,
    {
        TaskId { id: id.to_owned() }
    }

    /// The identifier's text.
    pub fn as_str(&self) -> (id: &str)
        ensures
            id@ == self@,
    {
        self.id.as_str()
    }

    /// A copy of the identifier.
    pub fn dup(&self) -> (copy: Self)
        ensures
            copy@ == self@,
    {
        TaskId { id: self.id.clone() }
    }
}

/// Where a task stands.
#[derive(Debug, Clone, Copy, PartialEq, Eq, Structural)]
pub enum TaskStatus {
    /// The work goes on.
    Working,
    /// The work waits for the client.
    InputRequired,
    /// The result is there. A tool result that reports an error is a result.
    Completed,
    /// The work ended in a JSON-RPC error.
    Failed,
    /// The work was called off.
    Cancelled,
}

impl TaskStatus {
    /// Whether nothing follows this state.
    pub open spec fn terminal(self) -> bool {
        self is Completed || self is Failed || self is Cancelled
    }

    /// Whether nothing follows this state.
    pub fn is_terminal(self) -> (terminal: bool)
        ensures
            terminal == self.terminal(),
    {
        match self {
            TaskStatus::Completed => true,
            TaskStatus::Failed => true,
            TaskStatus::Cancelled => true,
            _ => false,
        }
    }

    /// The word that stands for the state in JSON.
    pub open spec fn word(self) -> Seq<char> {
        match self {
            TaskStatus::Working => "working"@,
            TaskStatus::InputRequired => "input_required"@,
            TaskStatus::Completed => "completed"@,
            TaskStatus::Failed => "failed"@,
            TaskStatus::Cancelled => "cancelled"@,
        }
    }

    /// The word that stands for the state in JSON.
    pub fn as_str(self) -> (word: &'static str)
        ensures
            word@ == self.word(),
    {
        match self {
            TaskStatus::Working => "working",
            TaskStatus::InputRequired => "input_required",
            TaskStatus::Completed => "completed",
            TaskStatus::Failed => "failed",
            TaskStatus::Cancelled => "cancelled",
        }
    }

    /// The state's own name.
    pub open spec fn name(self) -> Seq<char> {
        match self {
            TaskStatus::Working => "Working"@,
            TaskStatus::InputRequired => "InputRequired"@,
            TaskStatus::Completed => "Completed"@,
            TaskStatus::Failed => "Failed"@,
            TaskStatus::Cancelled => "Cancelled"@,
        }
    }

    fn own_name(self) -> (name: &'static str)
        ensures
            name@ == self.name(),
    {
        match self {
            TaskStatus::Working => "Working",
            TaskStatus::InputRequired => "InputRequired",
            TaskStatus::Completed => "Completed",
            TaskStatus::Failed => "Failed",
            TaskStatus::Cancelled => "Cancelled",
        }
    }
}

/// What every message about a task carries.
#[derive(Debug, Clone)]
pub struct Task {
    /// The task's identifier.
    pub task_id: TaskId,
    /// Where the task stands.
    pub status: TaskStatus,
    /// Where it stands, in words.
    pub status_message: Option<String>,
    /// When the task was created.
    pub created_at: String,
    /// When its state last changed.
    pub last_updated_at: String,
    /// How long it is kept from its creation, in milliseconds; without limit when absent.
    pub ttl_ms: Option<u64>,
    /// How often the client should poll, in milliseconds.
    pub poll_interval_ms: Option<u64>,
}

/// What a task is.
pub struct TaskView {
    /// The task's identifier.
    pub task_id: Seq<char>,
    /// Where the task stands.
    pub status: TaskStatus,
    /// Where it stands, in words.
    pub status_message: Option<Seq<char>>,
    /// When the task was created.
    pub created_at: Seq<char>,
    /// When its state last changed.
    pub last_updated_at: Seq<char>,
    /// How long it is kept.
    pub ttl_ms: Option<u64>,
    /// How often the client should poll.
    pub poll_interval_ms: Option<u64>,
}

impl View for Task {
    type V = TaskView;

    open spec fn view(&self) -> TaskView {
        TaskView {
            task_id: self.task_id@,
            status: self.status,
            status_message: text_view(self.status_message),
            created_at: self.created_at@,
            last_updated_at: self.last_updated_at@,
            ttl_ms: self.ttl_ms,
            poll_interval_ms: self.poll_interval_ms,
        }
    }
}

/// A task as it starts.
pub open spec fn fresh_task(
    task_id: Seq<char>,
    ttl_ms: Option<u64>,
    poll_interval_ms: Option<u64>,
    now: Seq<char>,
) -> TaskView {
    TaskView {
        task_id,
        status: TaskStatus::Working,
        status_message: None,
        created_at: now,
        last_updated_at: now,
        ttl_ms,
        poll_interval_ms,
    }
}

/// `members` and those of a task's JSON. `ttlMs` is always there, `null` when unlimited.
pub open spec fn with_task(members: Seq<(Seq<char>, JsonView)>, task: TaskView) -> Seq<
    (Seq<char>, JsonView),
> {
    and_some(
        and_some(
            members.push(("taskId"@, JsonView::Text(task.task_id))).push(
                ("status"@, JsonView::Text(task.status.word())),
            ),
            "statusMessage"@,
            some_text(task.status_message),
        ).push(("createdAt"@, JsonView::Text(task.created_at))).push(
            ("lastUpdatedAt"@, JsonView::Text(task.last_updated_at)),
        ).push(
            (
                "ttlMs"@,
                match task.ttl_ms {
                    Some(ttl) => JsonView::Number(NumberView::Unsigned(ttl)),
                    None => JsonView::Null,
                },
            ),
        ),
        "pollIntervalMs"@,
        some_unsigned(task.poll_interval_ms),
    )
}

impl Task {
    /// A task that starts at a given time.
    pub fn starting(
        task_id: TaskId,
        ttl_ms: Option<u64>,
        poll_interval_ms: Option<u64>,
        now: &str,
    ) -> (task: Self)
        ensures
            task@ == fresh_task(task_id@, ttl_ms, poll_interval_ms, now@),
    {
        Task {
            task_id,
            status: TaskStatus::Working,
            status_message: None,
            created_at: now.to_owned(),
            last_updated_at: now.to_owned(),
            ttl_ms,
            poll_interval_ms,
        }
    }

    /// A task that starts now.
    pub fn new(task_id: TaskId, ttl_ms: Option<u64>, poll_interval_ms: Option<u64>) -> (task: Self)
        ensures
            task@ == fresh_task(task_id@, ttl_ms, poll_interval_ms, task@.created_at),
            is_stamp(task@.created_at),
    {
        let now = current_timestamp();
        Task::starting(task_id, ttl_ms, poll_interval_ms, now.as_str())
    }

    /// A copy of the task.
    pub fn dup(&self) -> (copy: Self)
        ensures
            copy@ == self@,
    {
        Task {
            task_id: self.task_id.dup(),
            status: self.status,
            status_message: dup_text(&self.status_message),
            created_at: self.created_at.clone(),
            last_updated_at: self.last_updated_at.clone(),
            ttl_ms: self.ttl_ms,
            poll_interval_ms: self.poll_interval_ms,
        }
    }

    /// Adds the members of the task's JSON.
    fn put_fields(&self, members: &mut Vec<Member>)
        ensures
            member_views(final(members)@) == with_task(member_views(old(members)@), self@),
    {
        put_text(members, "taskId", self.task_id.as_str());
        put_text(members, "status", self.status.as_str());
        put_some_text(members, "statusMessage", &self.status_message);
        put_text(members, "createdAt", self.created_at.as_str());
        put_text(members, "lastUpdatedAt", self.last_updated_at.as_str());
        let ttl = match self.ttl_ms {
            Some(ttl) => Json::unsigned(ttl),
            None => Json::Null,
        };
        put(members, "ttlMs", ttl);
        put_some_unsigned(members, "pollIntervalMs", self.poll_interval_ms);
    }

    /// The JSON that stands for the task.
    pub fn to_json(&self) -> (json: Json)
        ensures
            json@ == JsonView::Object(with_task(fields(), self@)),
    {
        let mut members = no_members();
        self.put_fields(&mut members);
        Json::object(members)
    }
}

// ---------------------------------------------------------------------------
// Payloads
// ---------------------------------------------------------------------------

/// What a task carries beside its metadata, by its state.
#[derive(Debug)]
pub enum TaskPayload {
    /// Nothing.
    Working,
    /// What the client is asked for.
    InputRequired {
        /// Requests that wait for an answer.
        input_requests: Vec<Member>,
    },
    /// The result of the request that the task stands for.
    Completed {
        /// The result.
        result: Vec<Member>,
    },
    /// The error that ended the task.
    Failed {
        /// The error.
        error: Vec<Member>,
    },
    /// Nothing.
    Cancelled,
}

/// What a payload is.
pub enum PayloadView {
    /// Nothing.
    Working,
    /// What the client is asked for.
    InputRequired(Seq<(Seq<char>, JsonView)>),
    /// The result.
    Completed(Seq<(Seq<char>, JsonView)>),
    /// The error.
    Failed(Seq<(Seq<char>, JsonView)>),
    /// Nothing.
    Cancelled,
}

impl View for TaskPayload {
    type V = PayloadView;

    open spec fn view(&self) -> PayloadView {
        match *self {
            TaskPayload::Working => PayloadView::Working,
            TaskPayload::InputRequired { input_requests } => PayloadView::InputRequired(
                member_views(input_requests@),
            ),
            TaskPayload::Completed { result } => PayloadView::Completed(member_views(result@)),
            TaskPayload::Failed { error } => PayloadView::Failed(member_views(error@)),
            TaskPayload::Cancelled => PayloadView::Cancelled,
        }
    }
}

impl PayloadView {
    /// The state that the payload goes with.
    pub open spec fn status(self) -> TaskStatus {
        match self {
            PayloadView::Working => TaskStatus::Working,
            PayloadView::InputRequired(_) => TaskStatus::InputRequired,
            PayloadView::Completed(_) => TaskStatus::Completed,
            PayloadView::Failed(_) => TaskStatus::Failed,
            PayloadView::Cancelled => TaskStatus::Cancelled,
        }
    }

    /// The member that the payload adds to the task's JSON.
    pub open spec fn add_to(self, members: Seq<(Seq<char>, JsonView)>) -> Seq<
        (Seq<char>, JsonView),
    > {
        match self {
            PayloadView::InputRequired(m) => members.push(("inputRequests"@, JsonView::Object(m))),
            PayloadView::Completed(m) => members.push(("result"@, JsonView::Object(m))),
            PayloadView::Failed(m) => members.push(("error"@, JsonView::Object(m))),
            _ => members,
        }
    }
}

impl TaskPayload {
    /// The state that the payload goes with.
    pub fn status(&self) -> (status: TaskStatus)
        ensures
            status == self@.status(),
    {
        match self {
            TaskPayload::Working => TaskStatus::Working,
            TaskPayload::InputRequired { .. } => TaskStatus::InputRequired,
            TaskPayload::Completed { .. } => TaskStatus::Completed,
            TaskPayload::Failed { .. } => TaskStatus::Failed,
            TaskPayload::Cancelled => TaskStatus::Cancelled,
        }
    }

    /// A copy of the payload.
    pub fn dup(&self) -> (copy: Self)
        ensures
            copy@ == self@,
    {
        match self {
            TaskPayload::Working => TaskPayload::Working,
            TaskPayload::InputRequired { input_requests } => TaskPayload::InputRequired {
                input_requests: dup_members(input_requests),
            },
            TaskPayload::Completed { result } => TaskPayload::Completed {
                result: dup_members(result),
            },
            TaskPayload::Failed { error } => TaskPayload::Failed { error: dup_members(error) },
            TaskPayload::Cancelled => TaskPayload::Cancelled,
        }
    }
}

// ---------------------------------------------------------------------------
// Tasks with their payload
// ---------------------------------------------------------------------------

/// A task with what it carries by its state.
#[derive(Debug)]
pub struct DetailedTask {
    /// Metadata. Its state agrees with the payload.
    pub task: Task,
    /// What the task carries.
    pub payload: TaskPayload,
}

/// What a detailed task is.
pub struct DetailedView {
    /// Metadata.
    pub task: TaskView,
    /// What the task carries.
    pub payload: PayloadView,
}

impl View for DetailedTask {
    type V = DetailedView;

    open spec fn view(&self) -> DetailedView {
        DetailedView { task: self.task@, payload: self.payload@ }
    }
}

impl DetailedView {
    /// The state of the metadata is that of the payload.
    pub open spec fn consistent(self) -> bool {
        self.task.status == self.payload.status()
    }
}

/// A task paired with a payload: its state becomes the payload's.
pub open spec fn paired(task: TaskView, payload: PayloadView) -> DetailedView {
    DetailedView { task: TaskView { status: payload.status(), ..task }, payload }
}

/// `members` and those of a detailed task's JSON: the task's own, and the payload
/// beside them.
pub open spec fn with_detailed(members: Seq<(Seq<char>, JsonView)>, detailed: DetailedView) -> Seq<
    (Seq<char>, JsonView),
> {
    detailed.payload.add_to(with_task(members, detailed.task))
}

impl DetailedTask {
    /// Pairs a task with a payload.
    pub fn new(task: Task, payload: TaskPayload) -> (detailed: Self)
        ensures
            detailed@ == paired(task@, payload@),
            detailed@.consistent(),
    {
        let status = payload.status();
        let mut task = task;
        task.status = status;
        DetailedTask { task, payload }
    }

    /// Where the task stands.
    pub fn status(&self) -> (status: TaskStatus)
        ensures
            status == self@.task.status,
    {
        self.task.status
    }

    /// A copy of the task.
    pub fn dup(&self) -> (copy: Self)
        ensures
            copy@ == self@,
    {
        DetailedTask { task: self.task.dup(), payload: self.payload.dup() }
    }

    fn put_detailed(&self, members: &mut Vec<Member>)
        ensures
            member_views(final(members)@) == with_detailed(member_views(old(members)@), self@),
    {
        self.task.put_fields(members);
        match &self.payload {
            TaskPayload::Working => {},
            TaskPayload::Cancelled => {},
            TaskPayload::InputRequired { input_requests } => {
                put(members, "inputRequests", Json::object(dup_members(input_requests)));
            },
            TaskPayload::Completed { result } => {
                put(members, "result", Json::object(dup_members(result)));
            },
            TaskPayload::Failed { error } => {
                put(members, "error", Json::object(dup_members(error)));
            },
        }
    }

    /// The JSON that stands for the task.
    pub fn to_json(&self) -> (json: Json)
        ensures
            json@ == JsonView::Object(with_detailed(fields(), self@)),
    {
        let mut members = no_members();
        self.put_detailed(&mut members);
        Json::object(members)
    }
}

// --- reading -----------------------------------------------------------------

/// The state that a word names.
pub open spec fn status_named(word: Seq<char>) -> Result<TaskStatus, Seq<char>> {
    if word == TaskStatus::Working.word() {
        Ok(TaskStatus::Working)
    } else if word == TaskStatus::InputRequired.word() {
        Ok(TaskStatus::InputRequired)
    } else if word == TaskStatus::Completed.word() {
        Ok(TaskStatus::Completed)
    } else if word == TaskStatus::Failed.word() {
        Ok(TaskStatus::Failed)
    } else if word == TaskStatus::Cancelled.word() {
        Ok(TaskStatus::Cancelled)
    } else {
        Err(
            "unknown variant `"@ + word
                + "`, expected one of `working`, `input_required`, `completed`, `failed`, `cancelled`"@,
        )
    }
}

/// The state that a member denotes: by its word, or as an object with that word for its one
/// member, which is `null`.
pub open spec fn status_member(member: Option<JsonView>) -> Result<TaskStatus, Seq<char>> {
    match member {
        None => Err(missing_words("status"@)),
        Some(JsonView::Text(word)) => status_named(word),
        Some(JsonView::Object(members)) => if members.len() != 1 {
            Err("invalid value: map, expected map with a single key"@)
        } else {
            match status_named(members[0].0) {
                Err(words) => Err(words),
                Ok(status) => if members[0].1 is Null {
                    Ok(status)
                } else {
                    Err(wrong_type_words(members[0].1, "unit"@))
                },
            }
        },
        Some(other) => Err(wrong_type_words(other, "string or map"@)),
    }
}

/// An optional member that is a non-negative integer.
pub open spec fn optional_unsigned(member: Option<JsonView>) -> Result<Option<u64>, Seq<char>> {
    match optional(member) {
        None => Ok(None),
        Some(JsonView::Number(NumberView::Unsigned(n))) => Ok(Some(n)),
        Some(JsonView::Number(NumberView::Negative(n))) => Err(
            "invalid value: "@ + found_words(JsonView::Number(NumberView::Negative(n)))
                + ", expected u64"@,
        ),
        Some(other) => Err(wrong_type_words(other, "u64"@)),
    }
}

/// The metadata that the fields of a record denote.
pub open spec fn task_fields(json: JsonView) -> Result<TaskView, Seq<char>> {
    match string_field(field_view(json, "taskId"@, 0), "taskId"@) {
        Err(words) => Err(words),
        Ok(task_id) => match status_member(field_view(json, "status"@, 1)) {
            Err(words) => Err(words),
            Ok(status) => match optional_string(field_view(json, "statusMessage"@, 2)) {
                Err(words) => Err(words),
                Ok(status_message) => match string_field(field_view(json, "createdAt"@, 3), "createdAt"@) {
                    Err(words) => Err(words),
                    Ok(created_at) => match string_field(
                        field_view(json, "lastUpdatedAt"@, 4),
                        "lastUpdatedAt"@,
                    ) {
                        Err(words) => Err(words),
                        Ok(last_updated_at) => match optional_unsigned(field_view(json, "ttlMs"@, 5)) {
                            Err(words) => Err(words),
                            Ok(ttl_ms) => match optional_unsigned(field_view(json, "pollIntervalMs"@, 6)) {
                                Err(words) => Err(words),
                                Ok(poll_interval_ms) => Ok(
                                    TaskView {
                                        task_id,
                                        status,
                                        status_message,
                                        created_at,
                                        last_updated_at,
                                        ttl_ms,
                                        poll_interval_ms,
                                    },
                                ),
                            },
                        },
                    },
                },
            },
        },
    }
}

/// The metadata that a document denotes, or why it denotes none.
pub open spec fn task_of(json: JsonView) -> Result<TaskView, Seq<char>> {
    match record_refusal(json, "Task"@, 6, 7) {
        Some(words) => Err(words),
        None => match task_fields(json) {
            Err(words) => Err(words),
            Ok(task) => match excess_refusal(json, 7) {
                Some(words) => Err(words),
                None => Ok(task),
            },
        },
    }
}

/// The payload that goes with a state, out of the members that may carry it.
pub open spec fn payload_of(
    status: TaskStatus,
    input_requests: Option<Seq<(Seq<char>, JsonView)>>,
    result: Option<Seq<(Seq<char>, JsonView)>>,
    error: Option<Seq<(Seq<char>, JsonView)>>,
) -> Result<PayloadView, Seq<char>> {
    match status {
        TaskStatus::Working => Ok(PayloadView::Working),
        TaskStatus::Cancelled => Ok(PayloadView::Cancelled),
        TaskStatus::InputRequired => match input_requests {
            Some(members) => Ok(PayloadView::InputRequired(members)),
            None => Err("input_required task is missing `inputRequests`"@),
        },
        TaskStatus::Completed => match result {
            Some(members) => Ok(PayloadView::Completed(members)),
            None => Err("completed task is missing `result`"@),
        },
        TaskStatus::Failed => match error {
            Some(members) => Ok(PayloadView::Failed(members)),
            None => Err("failed task is missing `error`"@),
        },
    }
}

/// The detailed task that a document denotes, or why it denotes none.
pub open spec fn detailed_of(json: JsonView) -> Result<DetailedView, Seq<char>> {
    match json {
        JsonView::Object(_) => match optional_object(json.member("inputRequests"@)) {
            Err(words) => Err(words),
            Ok(input_requests) => match optional_object(json.member("result"@)) {
                Err(words) => Err(words),
                Ok(result) => match optional_object(json.member("error"@)) {
                    Err(words) => Err(words),
                    Ok(error) => match task_of(json) {
                        Err(words) => Err(words),
                        Ok(task) => match payload_of(task.status, input_requests, result, error) {
                            Err(words) => Err(words),
                            Ok(payload) => Ok(DetailedView { task, payload }),
                        },
                    },
                },
            },
        },
        other => Err(wrong_type_words(other, "struct DetailedTaskWire"@)),
    }
}

fn read_status_word(word: &str) -> (status: Result<TaskStatus, String>)
    ensures
        match status {
            Ok(status) => status_named(word@) == Ok::<TaskStatus, Seq<char>>(status),
            Err(words) => status_named(word@) == Err::<TaskStatus, Seq<char>>(words@),
        },
{
    if same(word, TaskStatus::Working.as_str()) {
        Ok(TaskStatus::Working)
    } else if same(word, TaskStatus::InputRequired.as_str()) {
        Ok(TaskStatus::InputRequired)
    } else if same(word, TaskStatus::Completed.as_str()) {
        Ok(TaskStatus::Completed)
    } else if same(word, TaskStatus::Failed.as_str()) {
        Ok(TaskStatus::Failed)
    } else if same(word, TaskStatus::Cancelled.as_str()) {
        Ok(TaskStatus::Cancelled)
    } else {
        Err(
            "unknown variant `".to_owned().concat(word).concat(
                "`, expected one of `working`, `input_required`, `completed`, `failed`, `cancelled`",
            ),
        )
    }
}

fn read_status(member: Option<&Json>) -> (status: Result<TaskStatus, String>)
    ensures
        match status {
            Ok(status) => status_member(view_of(member)) == Ok::<TaskStatus, Seq<char>>(status),
            Err(words) => status_member(view_of(member)) == Err::<TaskStatus, Seq<char>>(words@),
        },
{
    match member {
        None => Err(missing("status")),
        Some(json) => match json {
            Json::Text(word) => read_status_word(word.as_str()),
            Json::Object(members) => {
                assert(json@->Object_0 =~= member_views(members@));
                if members.len() != 1 {
                    return Err("invalid value: map, expected map with a single key".to_owned());
                }
                match read_status_word(members[0].key.as_str()) {
                    Err(words) => Err(words),
                    Ok(status) => match &members[0].value {
                        Json::Null => Ok(status),
                        other => Err(wrong_type(other, "unit")),
                    },
                }
            },
            other => Err(wrong_type(other, "string or map")),
        },
    }
}

fn read_unsigned_member(member: Option<&Json>) -> (value: Result<Option<u64>, String>)
    ensures
        match value {
            Ok(value) => optional_unsigned(view_of(member)) == Ok::<Option<u64>, Seq<char>>(value),
            Err(words) => optional_unsigned(view_of(member)) == Err::<Option<u64>, Seq<char>>(
                words@,
            ),
        },
{
    match member {
        None => Ok(None),
        Some(json) => match json {
            Json::Null => Ok(None),
            Json::Number(Number::Unsigned(n)) => Ok(Some(*n)),
            Json::Number(Number::Negative(_)) => Err(
                "invalid value: ".to_owned().concat(describe_found(json).as_str()).concat(
                    ", expected u64",
                ),
            ),
            other => Err(wrong_type(other, "u64")),
        },
    }
}

/// An optional text as a member denotes it.
pub open spec fn texts_agree(read: Result<Option<String>, String>, denoted: Result<Option<Seq<char>>, Seq<char>>) -> bool {
    match read {
        Ok(text) => denoted == Ok::<Option<Seq<char>>, Seq<char>>(text_view(text)),
        Err(words) => denoted == Err::<Option<Seq<char>>, Seq<char>>(words@),
    }
}

fn read_optional_string(member: Option<&Json>) -> (value: Result<Option<String>, String>)
    ensures
        texts_agree(value, optional_string(view_of(member))),
{
    match member {
        None => Ok(None),
        Some(json) => match json {
            Json::Null => Ok(None),
            Json::Text(s) => Ok(Some(s.clone())),
            other => Err(wrong_type(other, "a string")),
        },
    }
}

/// What an optional list of members is.
pub open spec fn some_members(members: Option<Vec<Member>>) -> Option<Seq<(Seq<char>, JsonView)>> {
    match members {
        Some(members) => Some(member_views(members@)),
        None => None,
    }
}

fn read_optional_object(member: Option<&Json>) -> (value: Result<Option<Vec<Member>>, String>)
    ensures
        match value {
            Ok(members) => optional_object(view_of(member)) == Ok::<
                Option<Seq<(Seq<char>, JsonView)>>,
                Seq<char>,
            >(some_members(members)),
            Err(words) => optional_object(view_of(member)) == Err::<
                Option<Seq<(Seq<char>, JsonView)>>,
                Seq<char>,
            >(words@),
        },
{
    match member {
        None => Ok(None),
        Some(json) => match json {
            Json::Null => Ok(None),
            Json::Object(members) => {
                assert(json@->Object_0 =~= member_views(members@));
                Ok(Some(dup_members(members)))
            },
            other => Err(wrong_type(other, "a map")),
        },
    }
}

impl Task {
    /// Reads a task's metadata out of a document.
    pub fn from_json(json: &Json) -> (task: Result<Self, String>)
        ensures
            match task {
                Ok(task) => task_of(json@) == Ok::<TaskView, Seq<char>>(task@),
                Err(words) => task_of(json@) == Err::<TaskView, Seq<char>>(words@),
            },
    {
        match refuse_record(json, "Task", 6, 7) {
            Some(words) => {
                return Err(words);
            },
            None => {},
        }
        match Task::read_fields(json) {
            Err(words) => Err(words),
            Ok(task) => match refuse_excess(json, 7) {
                Some(words) => Err(words),
                None => Ok(task),
            },
        }
    }

    fn read_fields(json: &Json) -> (task: Result<Self, String>)
        ensures
            match task {
                Ok(task) => task_fields(json@) == Ok::<TaskView, Seq<char>>(task@),
                Err(words) => task_fields(json@) == Err::<TaskView, Seq<char>>(words@),
            },
    {
        let task_id = match read_string(field(json, "taskId", 0), "taskId") {
            Ok(id) => TaskId::new(id.as_str()),
            Err(words) => {
                return Err(words);
            },
        };
        let status = match read_status(field(json, "status", 1)) {
            Ok(status) => status,
            Err(words) => {
                return Err(words);
            },
        };
        let status_message = match read_optional_string(field(json, "statusMessage", 2)) {
            Ok(message) => message,
            Err(words) => {
                return Err(words);
            },
        };
        let created_at = match read_string(field(json, "createdAt", 3), "createdAt") {
            Ok(at) => at,
            Err(words) => {
                return Err(words);
            },
        };
        let last_updated_at = match read_string(field(json, "lastUpdatedAt", 4), "lastUpdatedAt") {
            Ok(at) => at,
            Err(words) => {
                return Err(words);
            },
        };
        let ttl_ms = match read_unsigned_member(field(json, "ttlMs", 5)) {
            Ok(ttl) => ttl,
            Err(words) => {
                return Err(words);
            },
        };
        let poll_interval_ms = match read_unsigned_member(field(json, "pollIntervalMs", 6)) {
            Ok(interval) => interval,
            Err(words) => {
                return Err(words);
            },
        };
        Ok(
            Task {
                task_id,
                status,
                status_message,
                created_at,
                last_updated_at,
                ttl_ms,
                poll_interval_ms,
            },
        )
    }
}

impl DetailedTask {
    /// Reads a detailed task out of a document.
    pub fn from_json(json: &Json) -> (detailed: Result<Self, String>)
        ensures
            match detailed {
                Ok(detailed) => detailed_of(json@) == Ok::<DetailedView, Seq<char>>(detailed@),
                Err(words) => detailed_of(json@) == Err::<DetailedView, Seq<char>>(words@),
            },
    {
        match json {
            Json::Object(_) => {},
            other => {
                return Err(wrong_type(other, "struct DetailedTaskWire"));
            },
        }
        let input_requests = match read_optional_object(json.get("inputRequests")) {
            Ok(members) => members,
            Err(words) => {
                return Err(words);
            },
        };
        let result = match read_optional_object(json.get("result")) {
            Ok(members) => members,
            Err(words) => {
                return Err(words);
            },
        };
        let error = match read_optional_object(json.get("error")) {
            Ok(members) => members,
            Err(words) => {
                return Err(words);
            },
        };
        let task = match Task::from_json(json) {
            Ok(task) => task,
            Err(words) => {
                return Err(words);
            },
        };
        let payload = match task.status {
            TaskStatus::Working => TaskPayload::Working,
            TaskStatus::Cancelled => TaskPayload::Cancelled,
            TaskStatus::InputRequired => match input_requests {
                Some(input_requests) => TaskPayload::InputRequired { input_requests },
                None => {
                    return Err("input_required task is missing `inputRequests`".to_owned());
                },
            },
            TaskStatus::Completed => match result {
                Some(result) => TaskPayload::Completed { result },
                None => {
                    return Err("completed task is missing `result`".to_owned());
                },
            },
            TaskStatus::Failed => match error {
                Some(error) => TaskPayload::Failed { error },
                None => {
                    return Err("failed task is missing `error`".to_owned());
                },
            },
        };
        Ok(DetailedTask { task, payload })
    }
}

/// The names of a task's members are distinct.
proof fn lemma_task_keys_differ()
    ensures
        "taskId"@ != "status"@,
        "taskId"@ != "statusMessage"@,
        "taskId"@ != "createdAt"@,
        "taskId"@ != "lastUpdatedAt"@,
        "taskId"@ != "ttlMs"@,
        "taskId"@ != "pollIntervalMs"@,
        "taskId"@ != "inputRequests"@,
        "taskId"@ != "result"@,
        "taskId"@ != "error"@,
        "status"@ != "statusMessage"@,
        "status"@ != "createdAt"@,
        "status"@ != "lastUpdatedAt"@,
        "status"@ != "ttlMs"@,
        "status"@ != "pollIntervalMs"@,
        "status"@ != "inputRequests"@,
        "status"@ != "result"@,
        "status"@ != "error"@,
        "statusMessage"@ != "createdAt"@,
        "statusMessage"@ != "lastUpdatedAt"@,
        "statusMessage"@ != "ttlMs"@,
        "statusMessage"@ != "pollIntervalMs"@,
        "statusMessage"@ != "inputRequests"@,
        "statusMessage"@ != "result"@,
        "statusMessage"@ != "error"@,
        "createdAt"@ != "lastUpdatedAt"@,
        "createdAt"@ != "ttlMs"@,
        "createdAt"@ != "pollIntervalMs"@,
        "createdAt"@ != "inputRequests"@,
        "createdAt"@ != "result"@,
        "createdAt"@ != "error"@,
        "lastUpdatedAt"@ != "ttlMs"@,
        "lastUpdatedAt"@ != "pollIntervalMs"@,
        "lastUpdatedAt"@ != "inputRequests"@,
        "lastUpdatedAt"@ != "result"@,
        "lastUpdatedAt"@ != "error"@,
        "ttlMs"@ != "pollIntervalMs"@,
        "ttlMs"@ != "inputRequests"@,
        "ttlMs"@ != "result"@,
        "ttlMs"@ != "error"@,
        "pollIntervalMs"@ != "inputRequests"@,
        "pollIntervalMs"@ != "result"@,
        "pollIntervalMs"@ != "error"@,
        "inputRequests"@ != "result"@,
        "inputRequests"@ != "error"@,
        "result"@ != "error"@,
{
    reveal_strlit("taskId");
    reveal_strlit("status");
    reveal_strlit("statusMessage");
    reveal_strlit("createdAt");
    reveal_strlit("lastUpdatedAt");
    reveal_strlit("ttlMs");
    reveal_strlit("pollIntervalMs");
    reveal_strlit("inputRequests");
    reveal_strlit("result");
    reveal_strlit("error");
    assert("taskId"@.len() == 6);
    assert("status"@.len() == 6);
    assert("statusMessage"@.len() == 13);
    assert("createdAt"@.len() == 9);
    assert("lastUpdatedAt"@.len() == 13);
    assert("ttlMs"@.len() == 5);
    assert("pollIntervalMs"@.len() == 14);
    assert("inputRequests"@.len() == 13);
    assert("result"@.len() == 6);
    assert("error"@.len() == 5);
    assert("taskId"@[0] != "status"@[0]);
    assert("taskId"@[0] != "result"@[0]);
    assert("status"@[0] != "result"@[0]);
    assert("statusMessage"@[0] != "lastUpdatedAt"@[0]);
    assert("statusMessage"@[0] != "inputRequests"@[0]);
    assert("lastUpdatedAt"@[0] != "inputRequests"@[0]);
    assert("ttlMs"@[0] != "error"@[0]);
}

/// The words for the states are distinct.
proof fn lemma_status_words_differ()
    ensures
        "working"@ != "input_required"@,
        "working"@ != "completed"@,
        "working"@ != "failed"@,
        "working"@ != "cancelled"@,
        "input_required"@ != "completed"@,
        "input_required"@ != "failed"@,
        "input_required"@ != "cancelled"@,
        "completed"@ != "failed"@,
        "completed"@ != "cancelled"@,
        "failed"@ != "cancelled"@,
{
    reveal_strlit("working");
    reveal_strlit("input_required");
    reveal_strlit("completed");
    reveal_strlit("failed");
    reveal_strlit("cancelled");
    assert("working"@.len() == 7);
    assert("input_required"@.len() == 14);
    assert("completed"@.len() == 9);
    assert("failed"@.len() == 6);
    assert("cancelled"@.len() == 9);
    assert("completed"@[1] != "cancelled"@[1]);
}

/// Reading what was written gives the task back.
pub proof fn written_task_reads_back(detailed: DetailedView)
    requires
        detailed.consistent(),
    ensures
        detailed_of(JsonView::Object(with_detailed(fields(), detailed))) == Ok::<
            DetailedView,
            Seq<char>,
        >(detailed),
{
    broadcast use group_find_member;

    lemma_task_keys_differ();
    lemma_status_words_differ();
    let json = JsonView::Object(with_detailed(fields(), detailed));
    assert(json.member("taskId"@) == Some(JsonView::Text(detailed.task.task_id)));
    assert(json.member("status"@) == Some(JsonView::Text(detailed.task.status.word())));
    assert(status_member(json.member("status"@)) == Ok::<TaskStatus, Seq<char>>(
        detailed.task.status,
    ));
    assert(json.member("statusMessage"@) == some_text(detailed.task.status_message));
    assert(json.member("createdAt"@) == Some(JsonView::Text(detailed.task.created_at)));
    assert(json.member("lastUpdatedAt"@) == Some(JsonView::Text(detailed.task.last_updated_at)));
    assert(json.member("pollIntervalMs"@) == some_unsigned(detailed.task.poll_interval_ms));
    assert(optional_unsigned(json.member("ttlMs"@)) == Ok::<Option<u64>, Seq<char>>(
        detailed.task.ttl_ms,
    ));
    assert(task_of(json) == Ok::<TaskView, Seq<char>>(detailed.task));
}

// ---------------------------------------------------------------------------
// Results
// ---------------------------------------------------------------------------

/// A task handle, returned in place of a result.
#[derive(Debug, Clone)]
pub struct CreateTaskResult {
    /// Always `"task"`.
    pub result_type: &'static str,
    /// The task as it starts.
    pub task: Task,
}

/// The JSON of a task handle: the task's members beside `resultType`.
pub open spec fn handle_json(task: TaskView) -> JsonView {
    JsonView::Object(with_task(fields().push(("resultType"@, JsonView::Text("task"@))), task))
}

impl CreateTaskResult {
    /// The handle of a task.
    pub fn new(task: Task) -> (result: Self)
        ensures
            result.task == task,
            result.result_type@ == "task"@,
    {
        CreateTaskResult { result_type: "task", task }
    }

    /// The JSON that stands for it.
    pub fn to_json(&self) -> (json: Json)
        ensures
            json@ == JsonView::Object(
                with_task(
                    fields().push(("resultType"@, JsonView::Text(self.result_type@))),
                    self.task@,
                ),
            ),
    {
        let mut members = no_members();
        put_text(&mut members, "resultType", self.result_type);
        self.task.put_fields(&mut members);
        Json::object(members)
    }
}

/// The answer to `tasks/get`.
#[derive(Debug)]
pub struct GetTaskResult {
    /// Always `"complete"`.
    pub result_type: &'static str,
    /// The task.
    pub task: DetailedTask,
}

/// The JSON of an answer to `tasks/get`: the task's members beside `resultType`.
pub open spec fn get_task_json(detailed: DetailedView) -> JsonView {
    JsonView::Object(
        with_detailed(fields().push(("resultType"@, JsonView::Text("complete"@))), detailed),
    )
}

impl GetTaskResult {
    /// The answer that shows a task.
    pub fn new(task: DetailedTask) -> (result: Self)
        ensures
            result.task == task,
            result.result_type@ == "complete"@,
    {
        GetTaskResult { result_type: "complete", task }
    }

    /// The JSON that stands for it.
    pub fn to_json(&self) -> (json: Json)
        ensures
            json@ == JsonView::Object(
                with_detailed(
                    fields().push(("resultType"@, JsonView::Text(self.result_type@))),
                    self.task@,
                ),
            ),
    {
        let mut members = no_members();
        put_text(&mut members, "resultType", self.result_type);
        self.task.put_detailed(&mut members);
        Json::object(members)
    }
}

/// The acknowledgement of `tasks/update` and `tasks/cancel`.
#[derive(Debug, Clone, Copy)]
pub struct TaskAck {
    /// Always `"complete"`.
    pub result_type: &'static str,
}

/// The JSON of the acknowledgement.
pub open spec fn ack_json() -> JsonView {
    JsonView::Object(fields().push(("resultType"@, JsonView::Text("complete"@))))
}

impl TaskAck {
    /// The acknowledgement.
    pub fn new() -> (ack: Self)
        ensures
            ack.result_type@ == "complete"@,
    {
        TaskAck { result_type: "complete" }
    }

    /// The JSON that stands for it.
    pub fn to_json(&self) -> (json: Json)
        ensures
            json@ == JsonView::Object(
                fields().push(("resultType"@, JsonView::Text(self.result_type@))),
            ),
    {
        let mut members = no_members();
        put_text(&mut members, "resultType", self.result_type);
        Json::object(members)
    }
}

impl Default for TaskAck {
    fn default() -> (ack: Self)
        ensures
            ack.result_type@ == "complete"@,
    {
        TaskAck::new()
    }
}

// ---------------------------------------------------------------------------
// Owners, errors, expiry
// ---------------------------------------------------------------------------

/// Whom a task belongs to.
#[derive(Debug, Clone, Default)]
pub struct TaskOwner {
    /// The authenticated caller.
    pub user_id: Option<String>,
    /// The tenant.
    pub tenant_id: Option<String>,
}

/// What an owner is.
pub struct OwnerView {
    /// The authenticated caller.
    pub user_id: Option<Seq<char>>,
    /// The tenant.
    pub tenant_id: Option<Seq<char>>,
}

impl View for TaskOwner {
    type V = OwnerView;

    open spec fn view(&self) -> OwnerView {
        OwnerView { user_id: text_view(self.user_id), tenant_id: text_view(self.tenant_id) }
    }
}

fn same_option(a: &Option<String>, b: &Option<String>) -> (equal: bool)
    ensures
        equal == (text_view(*a) == text_view(*b)),
{
    match (a, b) {
        (Some(a), Some(b)) => same(a.as_str(), b.as_str()),
        (None, None) => true,
        _ => false,
    }
}

impl TaskOwner {
    /// Whether two owners are the same.
    pub fn is(&self, other: &TaskOwner) -> (equal: bool)
        ensures
            equal == (self@ == other@),
    {
        same_option(&self.user_id, &other.user_id) && same_option(&self.tenant_id, &other.tenant_id)
    }

    /// A copy of the owner.
    pub fn dup(&self) -> (copy: Self)
        ensures
            copy@ == self@,
    {
        TaskOwner { user_id: dup_text(&self.user_id), tenant_id: dup_text(&self.tenant_id) }
    }
}

/// Why a task operation failed.
#[derive(Debug, Clone)]
pub enum TaskError {
    /// The owner sees no such task. A task of somebody else is reported so too.
    NotFound(TaskId),
    /// The task is in a state that forbids the operation.
    InvalidState {
        /// The task.
        task_id: TaskId,
        /// Its state.
        status: TaskStatus,
    },
    /// The store failed.
    Store(String),
}

/// What an error is.
pub enum TaskErrorView {
    /// The owner sees no such task.
    NotFound(Seq<char>),
    /// The task is in a state that forbids the operation.
    InvalidState(Seq<char>, TaskStatus),
    /// The store failed.
    Store(Seq<char>),
}

impl View for TaskError {
    type V = TaskErrorView;

    open spec fn view(&self) -> TaskErrorView {
        match *self {
            TaskError::NotFound(id) => TaskErrorView::NotFound(id@),
            TaskError::InvalidState { task_id, status } => TaskErrorView::InvalidState(
                task_id@,
                status,
            ),
            TaskError::Store(reason) => TaskErrorView::Store(reason@),
        }
    }
}

/// What an error says.
pub open spec fn task_error_text(error: TaskErrorView) -> Seq<char> {
    match error {
        TaskErrorView::NotFound(id) => "task '"@ + id + "' not found"@,
        TaskErrorView::InvalidState(id, status) => "task '"@ + id + "' is "@ + status.name()
            + " and cannot accept this operation"@,
        TaskErrorView::Store(reason) => "task store failure: "@ + reason,
    }
}

impl TaskError {
    /// What the error says.
    pub fn message(&self) -> (text: String)
        ensures
            text@ == task_error_text(self@),
    {
        match self {
            TaskError::NotFound(id) => "task '".to_owned().concat(id.as_str()).concat("' not found"),
            TaskError::InvalidState { task_id, status } => "task '".to_owned().concat(
                task_id.as_str(),
            ).concat("' is ").concat(status.own_name()).concat(" and cannot accept this operation"),
            TaskError::Store(reason) => "task store failure: ".to_owned().concat(reason.as_str()),
        }
    }
}

/// The whole milliseconds of a span of nanoseconds, towards zero.
pub open spec fn whole_millis(nanos: int) -> int {
    if nanos >= 0 {
        nanos / 1_000_000
    } else {
        -((-nanos) / 1_000_000)
    }
}

/// Whether a task's time is up: it has a limit and a readable creation time, and
/// more milliseconds than the limit lie between that time and now. A limit that
/// does not fit in a signed number counts as the largest that does.
pub open spec fn expired(task: TaskView, now: Timestamp) -> bool {
    match (task.ttl_ms, rfc3339_instant(task.created_at)) {
        (Some(ttl), Some(created)) => whole_millis(nanos_between(created, now)) > if ttl
            > i64::MAX {
            i64::MAX as int
        } else {
            ttl as int
        },
        _ => false,
    }
}

/// Whether a task's time is up.
pub fn is_expired(task: &Task, now: Timestamp) -> (up: bool)
    ensures
        up == expired(task@, now),
{
    let ttl: u64 = match task.ttl_ms {
        Some(ttl) => ttl,
        None => {
            return false;
        },
    };
    let created = match parse_rfc3339(task.created_at.as_str()) {
        Some(created) => created,
        None => {
            return false;
        },
    };
    let limit: i128 = if ttl > i64::MAX as u64 { i64::MAX as i128 } else { ttl as i128 };
    let elapsed: i128 = nanos_since(created, now);
    elapsed >= (limit + 1) * 1_000_000
}

/// A task without a limit is kept for ever.
pub proof fn unlimited_tasks_never_expire(task: TaskView, now: Timestamp)
    requires
        task.ttl_ms is None,
    ensures
        !expired(task, now),
{
}

/// A task that starts at a time, outside leap seconds and before the year 10000, lives as long
/// as it was given, counted from the millisecond at which it started.
pub proof fn fresh_tasks_live_their_time(
    task_id: Seq<char>,
    ttl_ms: u64,
    poll_interval_ms: Option<u64>,
    at: Timestamp,
    stamp: Seq<char>,
    later: Timestamp,
)
    requires
        stamped_at(stamp, at),
        0 <= at.secs < 253_402_300_800,
        at.nanos < 1_000_000_000,
        ttl_ms <= i64::MAX,
    ensures
        expired(fresh_task(task_id, Some(ttl_ms), poll_interval_ms, stamp), later) <==> whole_millis(
            nanos_between(to_the_millisecond(at), later),
        ) > ttl_ms,
        !expired(fresh_task(task_id, None, poll_interval_ms, stamp), later),
{
}

} // verus!
