//! What holds of the life of every task.

use vstd::prelude::*;

use crate::clock::{nanos_between, rfc3339_instant, Timestamp};
use crate::json::{group_find_member, JsonView};
use crate::mcp::laws::lemma_task_names_differ;
use crate::mcp::server::{op_done, op_due, TaskOp};
use crate::mcp::tasks::manager::{changed, moved, pushed, resumed};
use crate::mcp::tasks::store::{may_write, unexpired, visible, written, TaskTable};
use crate::mcp::tasks::subscription::{notification_of, opened, stream_at, StreamView};
use crate::mcp::tasks::{
    expired, fresh_task, whole_millis, DetailedTask, DetailedView, OwnerView, PayloadView,
    TaskError, TaskErrorView, TaskStatus, TaskView,
};

verus! {

/// Whether an owner has a task under an identifier whose time is not up.
pub open spec fn has_live(tasks: TaskTable, owner: OwnerView, id: Seq<char>, now: Timestamp) -> bool {
    &&& tasks.contains_key(id)
    &&& tasks[id].0 == owner
    &&& !expired(tasks[id].1.task, now)
}

/// Whether a task is still open: it works, or waits for input.
pub open spec fn is_open(task: DetailedView) -> bool {
    task.task.status is Working || task.task.status is InputRequired
}

/// Whether a state is that of what a task carries.
pub open spec fn states(status: TaskStatus, payload: PayloadView) -> bool {
    &&& status is Working <==> payload is Working
    &&& status is InputRequired <==> payload is InputRequired
    &&& status is Completed <==> payload is Completed
    &&& status is Failed <==> payload is Failed
    &&& status is Cancelled <==> payload is Cancelled
}

/// An owner sees a task exactly when it is the owner's own and its time is not up, and sees it
/// as it is kept.
pub proof fn owners_see_their_live_tasks(
    tasks: TaskTable,
    owner: OwnerView,
    id: Seq<char>,
    now: Timestamp,
)
    ensures
        visible(tasks, owner, id, now) is Some <==> has_live(tasks, owner, id, now),
        visible(tasks, owner, id, now) matches Some(task) ==> task == tasks[id].1,
{
}

/// An open task that its owner sees can be moved to anything: it is then in the state of what
/// it was moved to and carries it, and the time of the change is noted.
pub proof fn open_tasks_can_be_moved_anywhere(
    tasks: TaskTable,
    owner: OwnerView,
    id: Seq<char>,
    payload: PayloadView,
    now: Timestamp,
    stamp: Seq<char>,
)
    requires
        has_live(tasks, owner, id, now),
        is_open(tasks[id].1),
    ensures
        moved(tasks, owner, id, payload, now, stamp) matches Ok(task) && task.payload == payload
            && states(task.task.status, payload) && task.task.last_updated_at == stamp
            && task.task.task_id == tasks[id].1.task.task_id && task.task.created_at
            == tasks[id].1.task.created_at && task.task.ttl_ms == tasks[id].1.task.ttl_ms,
{
}

/// A task is moved only when its owner sees it and it is open; a settled one is refused with
/// its state, and where there is none to see, none is found.
pub proof fn only_open_tasks_are_moved(
    tasks: TaskTable,
    owner: OwnerView,
    id: Seq<char>,
    payload: PayloadView,
    now: Timestamp,
    stamp: Seq<char>,
)
    ensures
        moved(tasks, owner, id, payload, now, stamp) is Ok <==> has_live(tasks, owner, id, now)
            && is_open(tasks[id].1),
        !has_live(tasks, owner, id, now) ==> moved(tasks, owner, id, payload, now, stamp) == Err::<
            DetailedView,
            TaskErrorView,
        >(TaskErrorView::NotFound(id)),
        has_live(tasks, owner, id, now) && !is_open(tasks[id].1) ==> moved(
            tasks,
            owner,
            id,
            payload,
            now,
            stamp,
        ) == Err::<DetailedView, TaskErrorView>(
            TaskErrorView::InvalidState(id, tasks[id].1.task.status),
        ),
{
}

/// A task goes on after its input arrived exactly when it waited for it; it then works again.
pub proof fn waiting_tasks_go_on(
    tasks: TaskTable,
    owner: OwnerView,
    id: Seq<char>,
    now: Timestamp,
    stamp: Seq<char>,
)
    ensures
        resumed(tasks, owner, id, now, stamp) is Ok <==> has_live(tasks, owner, id, now)
            && tasks[id].1.task.status is InputRequired,
        resumed(tasks, owner, id, now, stamp) matches Ok(task) ==> task.task.status is Working
            && task.payload is Working && task.task.last_updated_at == stamp && task.task.task_id
            == tasks[id].1.task.task_id,
        !has_live(tasks, owner, id, now) ==> resumed(tasks, owner, id, now, stamp) == Err::<
            DetailedView,
            TaskErrorView,
        >(TaskErrorView::NotFound(id)),
        has_live(tasks, owner, id, now) && !(tasks[id].1.task.status is InputRequired) ==> resumed(
            tasks,
            owner,
            id,
            now,
            stamp,
        ) == Err::<DetailedView, TaskErrorView>(
            TaskErrorView::InvalidState(id, tasks[id].1.task.status),
        ),
{
}

/// What is due is done: with a store that never fails, a change that is due succeeds and one
/// that is not fails with the error due. A change touches the one task and no other, and a
/// failure touches none.
pub proof fn due_changes_are_made(
    before: TaskTable,
    after: TaskTable,
    owner: OwnerView,
    due: Result<DetailedView, TaskErrorView>,
    outcome: Result<DetailedTask, TaskError>,
    other: Seq<char>,
)
    requires
        changed(before, after, owner, due, true, outcome),
    ensures
        outcome is Ok <==> due is Ok,
        due matches Ok(task) ==> (outcome matches Ok(made) && made@ == task) && after.contains_key(
            task.task.task_id,
        ) && after[task.task.task_id] == (owner, task) && (other != task.task.task_id ==> (
        after.contains_key(other) <==> before.contains_key(other)) && (before.contains_key(other)
            ==> after[other] == before[other])),
        due matches Err(error) ==> (outcome matches Err(told) && told@ == error) && after == before,
{
}

/// Whatever a store does, a success is the one that is due, and a failure changes nothing.
pub proof fn no_change_is_made_up(
    before: TaskTable,
    after: TaskTable,
    owner: OwnerView,
    due: Result<DetailedView, TaskErrorView>,
    reliable: bool,
    outcome: Result<DetailedTask, TaskError>,
)
    requires
        changed(before, after, owner, due, reliable, outcome),
    ensures
        outcome matches Ok(made) ==> due == Ok::<DetailedView, TaskErrorView>(made@)
            && after.contains_key(made@.task.task_id) && after[made@.task.task_id] == (owner, made@),
        outcome is Err ==> after == before,
{
}

/// A task that was completed, failed or called off is then seen as such by its owner, at every
/// time before its own is up.
pub proof fn changes_are_seen(
    before: TaskTable,
    after: TaskTable,
    owner: OwnerView,
    id: Seq<char>,
    payload: PayloadView,
    now: Timestamp,
    stamp: Seq<char>,
    outcome: Result<DetailedTask, TaskError>,
    later: Timestamp,
)
    requires
        has_live(before, owner, id, now),
        is_open(before[id].1),
        before[id].1.task.task_id == id,
        changed(before, after, owner, moved(before, owner, id, payload, now, stamp), true, outcome),
        !expired(before[id].1.task, later),
    ensures
        visible(after, owner, id, later) matches Some(task) && task.payload == payload && states(
            task.task.status,
            payload,
        ),
{
}

/// What a client asks for is what is due: a task as it is kept, or the change that the request
/// stands for; and looking changes nothing.
pub proof fn requests_do_what_they_stand_for(
    tasks: TaskTable,
    owner: OwnerView,
    id: Seq<char>,
    now: Timestamp,
    stamp: Seq<char>,
)
    ensures
        op_due(tasks, owner, TaskOp::Get, id, now, stamp) is Ok <==> has_live(tasks, owner, id, now),
        op_due(tasks, owner, TaskOp::Get, id, now, stamp) matches Ok(task) ==> task == tasks[id].1,
        op_due(tasks, owner, TaskOp::Update, id, now, stamp) is Ok <==> has_live(
            tasks,
            owner,
            id,
            now,
        ) && tasks[id].1.task.status is InputRequired,
        op_due(tasks, owner, TaskOp::Update, id, now, stamp) matches Ok(task)
            ==> task.task.status is Working,
        op_due(tasks, owner, TaskOp::Cancel, id, now, stamp) is Ok <==> has_live(
            tasks,
            owner,
            id,
            now,
        ) && is_open(tasks[id].1),
        op_due(tasks, owner, TaskOp::Cancel, id, now, stamp) matches Ok(task)
            ==> task.task.status is Cancelled,
        !has_live(tasks, owner, id, now) ==> forall|op: TaskOp| #[trigger]
            op_due(tasks, owner, op, id, now, stamp) == Err::<DetailedView, TaskErrorView>(
                TaskErrorView::NotFound(id),
            ),
{
}

/// With a store that never fails, a request succeeds exactly when it is due to; a look leaves
/// every task as it is, and so does a failure.
pub proof fn due_requests_succeed(
    before: TaskTable,
    after: TaskTable,
    owner: OwnerView,
    op: TaskOp,
    due: Result<DetailedView, TaskErrorView>,
    outcome: Result<DetailedTask, TaskError>,
)
    requires
        op_done(before, after, owner, op, due, true, outcome),
    ensures
        outcome is Ok <==> due is Ok,
        due matches Ok(task) ==> (outcome matches Ok(made) && made@ == task),
        due matches Err(error) ==> (outcome matches Err(told) && told@ == error),
        op is Get || due is Err ==> after == before,
        !(op is Get) ==> (due matches Ok(task) ==> after == before.insert(
            task.task.task_id,
            (owner, task),
        )),
{
}

/// With a store that never fails, a task is kept exactly when nobody else has one of its name.
pub proof fn free_names_can_be_had(
    before: TaskTable,
    after: TaskTable,
    owner: OwnerView,
    task: DetailedView,
    kept: Result<(), TaskError>,
)
    requires
        written(before, after, owner, task, true, kept),
    ensures
        kept is Err <==> before.contains_key(task.task.task_id) && before[task.task.task_id].0
            != owner,
        kept is Ok ==> after == before.insert(task.task.task_id, (owner, task)),
        kept matches Err(error) ==> after == before && error@ == TaskErrorView::NotFound(
            task.task.task_id,
        ),
        may_write(before, owner, task.task.task_id) <==> !(before.contains_key(task.task.task_id)
            && before[task.task.task_id].0 != owner),
{
}

/// A new task works, was last changed when it was created, and lives as long as it was given.
pub proof fn new_tasks_work(id: Seq<char>, ttl: Option<u64>, poll: Option<u64>, now: Seq<char>)
    ensures
        ({
            let task = fresh_task(id, ttl, poll, now);
            &&& task.task_id == id
            &&& task.status is Working
            &&& task.status_message is None
            &&& task.created_at == now
            &&& task.last_updated_at == now
            &&& task.ttl_ms == ttl
            &&& task.poll_interval_ms == poll
        }),
{
}

/// The time of a task is up once more than its lifetime has passed since it was created, in
/// whole milliseconds, and not before. Without a lifetime, or without a time of creation that
/// can be read, it is never up. Leap seconds aside.
pub proof fn lifetimes_are_counted_from_creation(task: TaskView, created: Timestamp, now: Timestamp)
    requires
        rfc3339_instant(task.created_at) == Some(created),
        created.nanos < 1_000_000_000,
        now.nanos < 1_000_000_000,
    ensures
        task.ttl_ms matches Some(ttl) ==> ttl <= i64::MAX ==> (expired(task, now) <==> (now.secs
            - created.secs) * 1_000_000_000 + now.nanos - created.nanos >= (ttl + 1) * 1_000_000),
        task.ttl_ms is None ==> !expired(task, now),
{
    let passed = nanos_between(created, now);
    assert(passed == (now.secs - created.secs) * 1_000_000_000 + now.nanos - created.nanos);
    match task.ttl_ms {
        Some(ttl) => {
            assert(passed >= 0 ==> (passed / 1_000_000 > ttl <==> passed >= (ttl + 1) * 1_000_000))
                by (nonlinear_arith);
            assert(passed < 0 ==> whole_millis(passed) <= 0);
        },
        None => {},
    }
}

/// A task of which it is not known when it was created never expires.
pub proof fn tasks_without_a_time_stay(task: TaskView, now: Timestamp)
    requires
        rfc3339_instant(task.created_at) is None,
    ensures
        !expired(task, now),
{
}

/// A sweep drops the tasks whose time is up and no others, and leaves the rest as they are.
pub proof fn sweeps_drop_what_is_expired(tasks: TaskTable, now: Timestamp, id: Seq<char>)
    ensures
        unexpired(tasks, now).contains_key(id) <==> tasks.contains_key(id) && !expired(
            tasks[id].1.task,
            now,
        ),
        unexpired(tasks, now).contains_key(id) ==> unexpired(tasks, now)[id] == tasks[id],
        forall|owner: OwnerView| #[trigger]
            visible(unexpired(tasks, now), owner, id, now) == visible(tasks, owner, id, now),
{
}

/// A stream is opened under a number that was free, and the others stay as they are.
pub proof fn streams_are_opened_apart(
    before: Seq<Option<StreamView>>,
    after: Seq<Option<StreamView>>,
    number: int,
    stream: StreamView,
    other: int,
)
    requires
        opened(before, after, number, stream),
    ensures
        stream_at(before, number) is None,
        stream_at(after, number) == Some(stream),
        other != number ==> stream_at(after, other) == stream_at(before, other),
{
}

/// Streams are told of a change that was made, each owner's of the owner's own, and of nothing
/// else.
pub proof fn streams_are_told_of_changes(
    before: Seq<Option<StreamView>>,
    after: Seq<Option<StreamView>>,
    owner: OwnerView,
    outcome: Result<DetailedTask, TaskError>,
    number: int,
)
    requires
        pushed(before, after, owner, outcome),
    ensures
        outcome is Err ==> after == before,
        after.len() == before.len(),
        stream_at(before, number) is None ==> stream_at(after, number) is None,
        stream_at(before, number) matches Some(stream) ==> (stream_at(after, number) matches Some(
            told,
        ) && told.owner == stream.owner && told.waiting == if outcome is Ok && stream.owner
            == owner {
            stream.waiting.push(notification_of(outcome->Ok_0@))
        } else {
            stream.waiting
        }),
{
}

/// A notification is one: it names its method and the task, says where the task stands, and
/// asks for no answer.
pub proof fn notifications_tell_the_task(task: DetailedView)
    ensures
        ({
            let frame = notification_of(task);
            &&& frame.jsonrpc == "2.0"@
            &&& frame.method == "notifications/tasks"@
            &&& frame.id is None
            &&& frame.params matches Some(params) && params.member("taskId"@) == Some(
                JsonView::Text(task.task.task_id),
            ) && params.member("status"@) == Some(JsonView::Text(task.task.status.word()))
            &&& task.payload matches PayloadView::Completed(members) ==> frame.params->0.member(
                "result"@,
            ) == Some(JsonView::Object(members))
            &&& task.payload matches PayloadView::Failed(members) ==> frame.params->0.member(
                "error"@,
            ) == Some(JsonView::Object(members))
            &&& task.payload matches PayloadView::InputRequired(members)
                ==> frame.params->0.member("inputRequests"@) == Some(JsonView::Object(members))
        }),
{
    broadcast use group_find_member;

    lemma_task_names_differ();
}

} // verus!
