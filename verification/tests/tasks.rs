use dravr_tronc::clock::Timestamp;
use dravr_tronc::json::{Json, Member};
use dravr_tronc::mcp::host::CallToolOutcome;
use dravr_tronc::mcp::protocol::{JsonRpcRequest, JsonRpcResponse};
use dravr_tronc::mcp::schema::ToolResponse;
use dravr_tronc::mcp::server::{
    finish_list, finish_method, finish_task, owner_of, perform_task_op, McpServer, Step, TaskOp,
};
use dravr_tronc::mcp::tasks::manager::{TaskManager, TaskOptions};
use dravr_tronc::mcp::tasks::store::{InMemoryTaskStore, TaskStore};
use dravr_tronc::mcp::tasks::{
    is_expired, task_notification, CreateTaskResult, DetailedTask, Task, TaskError, TaskId,
    TaskOwner, TaskPayload, TaskStatus, TaskSubscription,
};
use dravr_tronc::mcp::tool::{ToolContext, ToolRegistry};

type Manager = TaskManager<InMemoryTaskStore>;
type Server = McpServer<()>;

fn json(text: &str) -> Json {
    Json::parse(text).expect("json")
}

fn at<'a>(json: &'a Json, path: &[&str]) -> &'a Json {
    let mut here = json;
    for key in path {
        here = here.get(key).expect("member");
    }
    here
}

fn first(json: &Json) -> &Json {
    match json {
        Json::Array(items) => &items[0],
        other => panic!("not an array: {other:?}"),
    }
}

fn members(text: &str) -> Vec<Member> {
    match json(text) {
        Json::Object(members) => members,
        other => panic!("not an object: {other:?}"),
    }
}

fn manager() -> Manager {
    TaskManager::new(InMemoryTaskStore::new())
}

fn server_with_tasks() -> Server {
    McpServer::new("test-server", "0.1.0", ToolRegistry::new())
        .with_tool_dispatcher()
        .with_task_manager()
}

/// Answers a request: the host's tool always starts a task.
fn answer(server: &Server, manager: &mut Manager, raw: &str) -> Option<JsonRpcResponse> {
    let ctx = ToolContext::new();
    match server.handle_raw(raw) {
        Step::Silent => None,
        Step::Reply(response) => Some(response),
        Step::ListTools(pending) => Some(finish_list(pending, Vec::new())),
        Step::CallTool { pending, .. } => {
            let outcome = match manager.create(&owner_of(&ctx), TaskId::new("task-1")) {
                Ok(task) => CallToolOutcome::Task(Box::new(task)),
                Err(error) => {
                    CallToolOutcome::Immediate(Box::new(ToolResponse::error(error.message())))
                }
            };
            Some(server.finish_call(pending, outcome))
        }
        Step::RunTool { .. } => panic!("no tool is registered"),
        Step::AskHost { pending, method, .. } => Some(finish_method(pending, &method, None)),
        Step::Task { pending, op, task_id } => {
            let outcome = perform_task_op(manager, &owner_of(&ctx), op, &task_id);
            Some(finish_task(pending, op, outcome))
        }
    }
}

fn meta(declare_tasks: bool) -> String {
    let extensions =
        if declare_tasks { r#"{ "io.modelcontextprotocol/tasks": {} }"# } else { "{}" };
    format!(
        r#"{{
            "io.modelcontextprotocol/protocolVersion": "2026-07-28",
            "io.modelcontextprotocol/clientInfo": {{ "name": "c", "version": "1" }},
            "io.modelcontextprotocol/clientCapabilities": {{ "extensions": {extensions} }}
        }}"#
    )
}

fn call(declare_tasks: bool) -> String {
    format!(
        r#"{{"jsonrpc":"2.0","id":1,"method":"tools/call",
            "params":{{"name":"slow","arguments":{{}},"_meta":{}}}}}"#,
        meta(declare_tasks)
    )
}

fn task_request(method: &str, id: &str, declare_tasks: bool) -> String {
    format!(
        r#"{{"jsonrpc":"2.0","id":2,"method":"{method}",
            "params":{{"taskId":"{id}","_meta":{}}}}}"#,
        meta(declare_tasks)
    )
}

fn owner(user: &str, tenant: &str) -> TaskOwner {
    TaskOwner { user_id: Some(user.to_owned()), tenant_id: Some(tenant.to_owned()) }
}

// Wire shapes

#[test]
fn create_task_result_is_flat_not_nested() {
    let task = Task::new(TaskId::new("abc"), Some(1_000), Some(500));
    let value = CreateTaskResult::new(task).to_json();
    assert_eq!(value.get("resultType"), Some(&Json::text("task")));
    assert_eq!(value.get("taskId"), Some(&Json::text("abc")));
    assert_eq!(value.get("status"), Some(&Json::text("working")));
    assert!(
        value.get("task").is_none(),
        "task fields must be flat, not nested under `task`: {value:?}"
    );
}

#[test]
fn ttl_ms_is_always_present_and_null_means_unlimited() {
    let task = Task::new(TaskId::new("abc"), None, None);
    let value = task.to_json();
    assert_eq!(value.get("ttlMs"), Some(&Json::Null));
    assert!(value.get("pollIntervalMs").is_none());
}

#[test]
fn task_status_uses_snake_case_wire_values() {
    assert_eq!(TaskStatus::InputRequired.as_str(), "input_required");
    assert!(TaskStatus::Completed.is_terminal());
    assert!(TaskStatus::Failed.is_terminal());
    assert!(TaskStatus::Cancelled.is_terminal());
    assert!(!TaskStatus::Working.is_terminal());
    assert!(!TaskStatus::InputRequired.is_terminal());
}

#[test]
fn detailed_task_inlines_status_specific_payload() {
    let task = || Task::new(TaskId::new("t"), None, None);
    let completed = DetailedTask::new(
        task(),
        TaskPayload::Completed { result: members(r#"{"content":[]}"#) },
    );
    let value = completed.to_json();
    assert_eq!(value.get("status"), Some(&Json::text("completed")));
    assert_eq!(at(&value, &["result", "content"]), &json("[]"));
    assert!(value.get("error").is_none());

    let failed =
        DetailedTask::new(task(), TaskPayload::Failed { error: members(r#"{"code":-32603}"#) });
    let value = failed.to_json();
    assert_eq!(value.get("status"), Some(&Json::text("failed")));
    assert_eq!(at(&value, &["error", "code"]), &Json::signed(-32_603));
    assert!(value.get("result").is_none());

    let input_required = DetailedTask::new(
        task(),
        TaskPayload::InputRequired { input_requests: members(r#"{"content":[]}"#) },
    );
    let value = input_required.to_json();
    assert_eq!(value.get("status"), Some(&Json::text("input_required")));
    assert!(value.get("inputRequests").is_some());
}

#[test]
fn a_task_reads_back_as_it_was_written() {
    let written = DetailedTask::new(
        Task::new(TaskId::new("t"), Some(9), None),
        TaskPayload::Completed { result: members(r#"{"content":[]}"#) },
    );
    let wire = written.to_json();
    let back = DetailedTask::from_json(&wire).expect("reads back");
    assert_eq!(back.to_json(), wire);
    assert_eq!(back.status(), TaskStatus::Completed);
    assert!(Task::from_json(&json(r#"{"taskId":"t"}"#)).is_err());
}

// Which clients may use tasks

#[test]
fn tasks_get_without_declared_extension_is_refused_with_32021() {
    let server = server_with_tasks();
    let response =
        answer(&server, &mut manager(), &task_request("tasks/get", "task-1", false)).expect("response");
    let error = response.error.expect("must refuse a non-declaring client");
    assert_eq!(error.code, -32_021);
    let data = error.data.expect("names the missing capability");
    assert_eq!(
        first(at(&data, &["requiredCapabilities"])),
        &Json::text("io.modelcontextprotocol/tasks")
    );
}

#[test]
fn tools_call_returns_a_task_handle_only_when_declared() {
    let server = server_with_tasks();
    let response = answer(&server, &mut manager(), &call(true)).expect("response");
    let result = response.result.expect("success");
    assert_eq!(result.get("resultType"), Some(&Json::text("task")));
    assert_eq!(result.get("taskId"), Some(&Json::text("task-1")));
}

#[test]
fn tools_call_refuses_a_task_handle_when_extension_undeclared() {
    let server = server_with_tasks();
    let response = answer(&server, &mut manager(), &call(false)).expect("response");
    assert!(
        response.error.is_some(),
        "a task handle must not reach a non-declaring client"
    );
}

#[test]
fn legacy_request_never_receives_a_task_handle() {
    let server = server_with_tasks();
    let raw = r#"{"jsonrpc":"2.0","id":1,"method":"tools/call",
                  "params":{"name":"slow","arguments":{}}}"#;
    let response = answer(&server, &mut manager(), raw).expect("response");
    assert!(
        response.error.is_some(),
        "legacy era must not be answered with a task handle"
    );
}

#[test]
fn a_server_without_tasks_hands_no_handle_out() {
    let server: Server =
        McpServer::new("test-server", "0.1.0", ToolRegistry::new()).with_tool_dispatcher();
    let response = answer(&server, &mut manager(), &call(true)).expect("response");
    assert!(response.result.is_none());
    assert_eq!(response.error.expect("error").code, -32603);
}

#[test]
fn a_stamp_reads_as_the_time_it_stands_for() {
    let task = Task::new(TaskId::new("t"), Some(60_000), None);
    assert_eq!(task.created_at, task.last_updated_at);
    assert_eq!(task.created_at.len(), "2026-07-28T00:00:00.000Z".len());
    let started = chrono::DateTime::parse_from_rfc3339(&task.created_at).expect("a time");
    let at = |secs: i64| Timestamp { secs: started.timestamp() + secs, nanos: 999_000_000 };
    assert!(!is_expired(&task, at(58)));
    assert!(is_expired(&task, at(61)));
}

#[test]
fn discover_advertises_the_extension_only_when_a_manager_is_installed() {
    let raw = format!(
        r#"{{"jsonrpc":"2.0","id":1,"method":"server/discover","params":{{"_meta":{}}}}}"#,
        meta(true)
    );
    let with_tasks = server_with_tasks();
    let response = answer(&with_tasks, &mut manager(), &raw).expect("response");
    let result = response.result.expect("success");
    assert!(matches!(
        at(&result, &["capabilities", "extensions", "io.modelcontextprotocol/tasks"]),
        Json::Object(_)
    ));

    let without_tasks: Server = McpServer::new("test-server", "0.1.0", ToolRegistry::new());
    let response = answer(&without_tasks, &mut manager(), &raw).expect("response");
    let result = response.result.expect("success");
    assert!(
        at(&result, &["capabilities"]).get("extensions").is_none(),
        "must not advertise a capability it cannot serve: {result:?}"
    );
}

// Lifecycle and isolation

#[test]
fn a_task_is_invisible_to_a_different_owner() {
    let mut manager = manager();
    let alice = owner("alice", "t1");
    let mallory = owner("mallory", "t2");
    manager.create(&alice, TaskId::new("secret")).expect("created");
    assert!(
        manager.get(&alice, &TaskId::new("secret")).is_ok(),
        "the owner can read their own task"
    );
    assert!(
        manager.get(&mallory, &TaskId::new("secret")).is_err(),
        "a guessed task id must not resolve for another owner"
    );
    assert!(manager.cancel(&mallory, &TaskId::new("secret")).is_err());
    assert!(matches!(
        manager.create(&mallory, TaskId::new("secret")),
        Err(TaskError::NotFound(_))
    ));
    assert_eq!(
        manager.get(&alice, &TaskId::new("secret")).expect("unchanged").status(),
        TaskStatus::Working
    );
}

#[test]
fn a_store_keeps_owners_apart_on_every_write() {
    let mut store = InMemoryTaskStore::new();
    let alice = owner("alice", "t1");
    let mallory = owner("mallory", "t2");
    let task = || {
        let task = Task::starting(TaskId::new("id"), None, None, "2026-07-28T00:00:00Z");
        DetailedTask::new(task, TaskPayload::Working)
    };
    let cancelled = DetailedTask::new(task().task, TaskPayload::Cancelled);
    store.create(&alice, task()).expect("created");
    assert!(matches!(store.put(&mallory, cancelled.dup()), Err(TaskError::NotFound(_))));
    assert!(store.create(&mallory, cancelled.dup()).is_err());
    let now = Timestamp { secs: 0, nanos: 0 };
    let seen = store.get(&alice, &TaskId::new("id"), now).expect("get").expect("still there");
    assert_eq!(seen.status(), TaskStatus::Working);
    store.put(&alice, cancelled).expect("the owner may");
    let seen = store.get(&alice, &TaskId::new("id"), now).expect("get").expect("still there");
    assert_eq!(seen.status(), TaskStatus::Cancelled);
}

#[test]
fn a_terminal_task_refuses_further_transitions() {
    let mut manager = manager();
    let owner = TaskOwner::default();
    let id = TaskId::new("done");
    manager.create(&owner, id.dup()).expect("created");
    manager.complete(&owner, &id, Vec::new()).expect("completes");
    assert!(
        manager.cancel(&owner, &id).is_err(),
        "no transition may leave a terminal state"
    );
    assert!(manager.complete(&owner, &id, Vec::new()).is_err());
    match manager.fail(&owner, &id, Vec::new()) {
        Err(TaskError::InvalidState { status, .. }) => assert_eq!(status, TaskStatus::Completed),
        other => panic!("{other:?}"),
    }
}

#[test]
fn tasks_update_requires_the_task_to_be_awaiting_input() {
    let mut manager = manager();
    let owner = TaskOwner::default();
    let id = TaskId::new("working");
    manager.create(&owner, id.dup()).expect("created");
    assert!(
        manager.apply_input(&owner, &id).is_err(),
        "a working task has no outstanding input to answer"
    );
    manager.request_input(&owner, &id, Vec::new()).expect("blocks on input");
    assert_eq!(
        manager.apply_input(&owner, &id).expect("accepts input").status(),
        TaskStatus::Working,
        "answering input returns the task to working"
    );
}

#[test]
fn tasks_get_returns_the_result_inline_once_complete() {
    let mut manager = manager();
    let server = server_with_tasks();
    answer(&server, &mut manager, &call(true)).expect("created");
    let result = members(r#"{"content":[{"type":"text","text":"done"}]}"#);
    manager
        .complete(&TaskOwner::default(), &TaskId::new("task-1"), result)
        .expect("completes");
    let response =
        answer(&server, &mut manager, &task_request("tasks/get", "task-1", true)).expect("response");
    let value = response.result.expect("success");
    assert_eq!(value.get("resultType"), Some(&Json::text("complete")));
    assert_eq!(value.get("status"), Some(&Json::text("completed")));
    assert_eq!(
        first(at(&value, &["result", "content"])).get("text"),
        Some(&Json::text("done"))
    );
}

#[test]
fn tasks_cancel_moves_the_task_to_cancelled() {
    let mut manager = manager();
    let server = server_with_tasks();
    answer(&server, &mut manager, &call(true)).expect("created");
    let response =
        answer(&server, &mut manager, &task_request("tasks/cancel", "task-1", true)).expect("response");
    let result = response.result.expect("success");
    assert_eq!(result.get("resultType"), Some(&Json::text("complete")));
    assert_eq!(
        manager
            .get(&TaskOwner::default(), &TaskId::new("task-1"))
            .expect("still readable")
            .status(),
        TaskStatus::Cancelled
    );
}

#[test]
fn unknown_task_id_is_reported_as_absent() {
    let server = server_with_tasks();
    let response = answer(&server, &mut manager(), &task_request("tasks/get", "never-existed", true))
        .expect("response");
    assert!(response.error.is_some());
}

#[test]
fn a_transition_is_told_in_a_notification() {
    let mut manager = TaskManager::with_options(
        InMemoryTaskStore::new(),
        TaskOptions { ttl_ms: Some(60_000), poll_interval_ms: 10 },
    );
    let owner = owner("user-a", "tenant-a");
    let id = TaskId::new("pushed-task");
    manager.create(&owner, id.dup()).expect("create");
    let frame = task_notification(&manager.get(&owner, &id).expect("working"));
    assert_eq!(frame.method, "notifications/tasks");
    assert_eq!(frame.id, None);
    let params = frame.params.expect("params");
    assert_eq!(params.get("taskId"), Some(&Json::text("pushed-task")));
    assert_eq!(params.get("status"), Some(&Json::text("working")));
    assert_eq!(params.get("pollIntervalMs"), Some(&Json::unsigned(10)));
    let done = manager.complete(&owner, &id, Vec::new()).expect("complete");
    let params = task_notification(&done).params.expect("params");
    assert_eq!(params.get("status"), Some(&Json::text("completed")));
}

#[test]
fn subscription_pushes_transitions_for_the_owner_only() {
    let mut manager = TaskManager::with_options(
        InMemoryTaskStore::new(),
        TaskOptions { ttl_ms: Some(60_000), poll_interval_ms: 10 },
    );
    let owner = owner("user-a", "tenant-a");
    let stranger = TaskOwner {
        user_id: Some("user-b".to_owned()),
        tenant_id: Some("tenant-b".to_owned()),
    };
    let mine = manager.subscribe(&owner);
    let theirs = manager.subscribe(&stranger);
    assert_ne!(mine, theirs);

    let task_id = TaskId::new("pushed-task");
    manager.create(&owner, task_id.dup()).expect("create");

    let frame = manager.next_notification(mine).expect("a frame");
    assert_eq!(frame.method, "notifications/tasks");
    let params = frame.params.expect("params");
    assert_eq!(params.get("taskId"), Some(&Json::text("pushed-task")));
    assert_eq!(params.get("status"), Some(&Json::text("working")));

    let result = members(r#"{"content":[{"type":"text","text":"ok"}]}"#);
    manager.complete(&owner, &task_id, result).expect("complete");

    let frame = manager.next_notification(mine).expect("terminal frame");
    assert_eq!(frame.params.expect("params").get("status"), Some(&Json::text("completed")));
    assert!(manager.next_notification(mine).is_none());
    assert!(
        manager.next_notification(theirs).is_none(),
        "another owner's stream must stay silent"
    );
}

#[test]
fn a_stream_that_was_closed_is_told_nothing() {
    let mut manager = manager();
    let owner = owner("user-a", "tenant-a");
    let first = manager.subscribe(&owner);
    let second = manager.subscribe(&owner);
    manager.unsubscribe(first);
    manager.create(&owner, TaskId::new("t")).expect("create");
    assert!(manager.next_notification(first).is_none());
    assert!(manager.next_notification(second).is_some());
    let reopened = manager.follow(TaskSubscription::new(owner.dup()));
    assert_eq!(reopened, first, "the number is free again");
    assert!(manager.next_notification(reopened).is_none(), "it follows from here on");
    assert!(manager.complete(&owner, &TaskId::new("unknown"), Vec::new()).is_err());
    assert!(manager.next_notification(second).is_none(), "a failure is no change");
    perform_task_op(&mut manager, &owner, TaskOp::Get, &TaskId::new("t")).expect("seen");
    assert!(manager.next_notification(second).is_none(), "a look is no change");
    perform_task_op(&mut manager, &owner, TaskOp::Cancel, &TaskId::new("t")).expect("cancelled");
    for stream in [reopened, second] {
        let frame = manager.next_notification(stream).expect("a frame");
        assert_eq!(frame.params.expect("params").get("status"), Some(&Json::text("cancelled")));
    }
}

#[test]
fn listen_through_the_unary_path_is_refused_with_guidance() {
    let server = server_with_tasks();
    let raw = format!(
        r#"{{"jsonrpc":"2.0","id":9,"method":"subscriptions/listen","params":{{"_meta":{}}}}}"#,
        meta(true)
    );
    let response = answer(&server, &mut manager(), &raw).expect("response");
    let error = response.error.expect("error");
    assert!(error.message.contains("streaming transport"), "got: {}", error.message);
}

#[test]
fn open_task_subscription_gates_on_declaration_and_era() {
    let server = server_with_tasks();
    let ctx = ToolContext::new().with_user("u1").with_tenant("t1");
    let listen = |params: &str| -> JsonRpcRequest {
        let raw = format!(
            r#"{{"jsonrpc":"2.0","id":1,"method":"subscriptions/listen","params":{params}}}"#
        );
        JsonRpcRequest::from_json(&json(&raw)).ok().expect("request json")
    };

    let undeclared = listen(&format!(r#"{{"_meta":{}}}"#, meta(false)));
    let refusal =
        server.open_task_subscription(&undeclared, &ctx).err().expect("undeclared must be refused");
    assert_eq!(refusal.error.expect("error").code, -32021);

    let refusal =
        server.open_task_subscription(&listen("{}"), &ctx).err().expect("legacy shape must be refused");
    assert_eq!(refusal.error.expect("error").code, -32602);

    let declared = listen(&format!(r#"{{"_meta":{}}}"#, meta(true)));
    let stream = server.open_task_subscription(&declared, &ctx).ok().expect("opened");
    assert_eq!(stream.owner().user_id.as_deref(), Some("u1"));
    assert_eq!(stream.owner().tenant_id.as_deref(), Some("t1"));
}

// Time

#[test]
fn a_task_lives_as_long_as_it_was_given() {
    let task = Task::starting(TaskId::new("t"), Some(1_500), None, "2026-07-28T00:00:00Z");
    let start = 1_785_196_800;
    assert!(!is_expired(&task, Timestamp { secs: start + 1, nanos: 499_000_000 }));
    assert!(is_expired(&task, Timestamp { secs: start + 2, nanos: 0 }));
    let unlimited = Task::starting(TaskId::new("t"), None, None, "2026-07-28T00:00:00Z");
    assert!(!is_expired(&unlimited, Timestamp { secs: i64::MAX, nanos: 0 }));
    let offset = Task::starting(TaskId::new("t"), Some(1_500), None, "2026-07-28T02:00:00+02:00");
    assert!(!is_expired(&offset, Timestamp { secs: start + 1, nanos: 0 }));
    assert!(is_expired(&offset, Timestamp { secs: start + 2, nanos: 0 }));
}

#[test]
fn an_expired_task_is_gone() {
    let mut manager = TaskManager::with_options(
        InMemoryTaskStore::new(),
        TaskOptions { ttl_ms: Some(1_000), poll_interval_ms: 10 },
    );
    let owner = TaskOwner::default();
    let id = TaskId::new("old");
    manager.create_at(&owner, id.dup(), "2026-07-28T00:00:00Z").expect("created");
    let start = 1_785_196_800;
    assert!(manager.get_at(&owner, &id, Timestamp { secs: start, nanos: 1 }).is_ok());
    assert!(matches!(
        manager.get_at(&owner, &id, Timestamp { secs: start + 5, nanos: 0 }),
        Err(TaskError::NotFound(_))
    ));
    assert_eq!(manager.sweep_expired().expect("swept"), 1);
    assert_eq!(manager.sweep_expired().expect("swept"), 0);
}

#[test]
fn task_failures_are_told_in_words() {
    let id = || TaskId::new("t-1");
    assert!(TaskError::NotFound(id()).message().contains("t-1"));
    let state = TaskError::InvalidState { task_id: id(), status: TaskStatus::Cancelled };
    assert!(state.message().contains("t-1"));
    assert!(TaskError::Store("disk".to_owned()).message().contains("disk"));
}
