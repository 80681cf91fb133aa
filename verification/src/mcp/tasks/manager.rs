//! The life of a task.

use vstd::prelude::*;

use crate::clock::{current_timestamp, is_stamp, utc_now, Timestamp};
use crate::json::{member_views, Member};
use crate::mcp::protocol::{JsonRpcRequest, RequestView};
use crate::mcp::tasks::store::{may_write, unexpired, visible, TaskStore, TaskTable};
use crate::mcp::tasks::subscription::{
    opened, stream_at, streams_told, StreamView, Subscribers, TaskSubscription,
};
use crate::mcp::tasks::{
    expired, fresh_task, paired, DetailedTask, DetailedView, OwnerView, PayloadView, Task, TaskError,
    TaskErrorView, TaskId, TaskOwner, TaskPayload, TaskStatus, TaskView, DEFAULT_POLL_INTERVAL_MS,
    DEFAULT_TASK_TTL_MS,
};

verus! {

/// How long new tasks are kept, and how often clients are asked to poll.
#[derive(Debug, Clone, Copy, PartialEq, Eq, Structural)]
pub struct TaskOptions {
    /// Lifetime in milliseconds; without limit when absent.
    pub ttl_ms: Option<u64>,
    /// Polling interval in milliseconds.
    pub poll_interval_ms: u64,
}

impl Default for TaskOptions {
    fn default() -> (options: Self)
        ensures
            options.ttl_ms == Some(DEFAULT_TASK_TTL_MS),
            options.poll_interval_ms == DEFAULT_POLL_INTERVAL_MS,
    {
        TaskOptions { ttl_ms: Some(DEFAULT_TASK_TTL_MS), poll_interval_ms: DEFAULT_POLL_INTERVAL_MS }
    }
}

/// Applies the rules of a task's life on top of a store.
pub struct TaskManager<S: TaskStore> {
    store: S,
    options: TaskOptions,
    subscribers: Subscribers,
}

/// What becomes of a task that is to be moved to a payload: nothing when the owner
/// sees no such task or it is settled; otherwise the payload, with the time of the
/// change noted.
pub open spec fn moved(
    tasks: TaskTable,
    owner: OwnerView,
    id: Seq<char>,
    payload: PayloadView,
    now: Timestamp,
    stamp: Seq<char>,
) -> Result<DetailedView, TaskErrorView> {
    match visible(tasks, owner, id, now) {
        None => Err(TaskErrorView::NotFound(id)),
        Some(current) => if current.task.status.terminal() {
            Err(TaskErrorView::InvalidState(id, current.task.status))
        } else {
            Ok(paired(TaskView { last_updated_at: stamp, ..current.task }, payload))
        },
    }
}

/// What becomes of a task whose input arrived: it works again, if it was waiting.
pub open spec fn resumed(
    tasks: TaskTable,
    owner: OwnerView,
    id: Seq<char>,
    now: Timestamp,
    stamp: Seq<char>,
) -> Result<DetailedView, TaskErrorView> {
    match visible(tasks, owner, id, now) {
        None => Err(TaskErrorView::NotFound(id)),
        Some(current) => if current.task.status != TaskStatus::InputRequired {
            Err(TaskErrorView::InvalidState(id, current.task.status))
        } else {
            moved(tasks, owner, id, PayloadView::Working, now, stamp)
        },
    }
}

/// The outcome of a change: on success the task is as it should become, and kept; on
/// failure nothing changed, and unless the store failed the error is the one due.
pub open spec fn changed(
    before: TaskTable,
    after: TaskTable,
    owner: OwnerView,
    due: Result<DetailedView, TaskErrorView>,
    reliable: bool,
    outcome: Result<DetailedTask, TaskError>,
) -> bool {
    match outcome {
        Ok(task) => due == Ok::<DetailedView, TaskErrorView>(task@) && after == before.insert(
            task@.task.task_id,
            (owner, task@),
        ),
        Err(error) => after == before && (reliable ==> due == Err::<DetailedView, TaskErrorView>(
            error@,
        )),
    }
}

/// What becomes of the open streams: they are told of a change that was made, and of nothing
/// else.
pub open spec fn pushed(
    before: Seq<Option<StreamView>>,
    after: Seq<Option<StreamView>>,
    owner: OwnerView,
    outcome: Result<DetailedTask, TaskError>,
) -> bool {
    after == match outcome {
        Ok(task) => streams_told(before, owner, task@),
        Err(_) => before,
    }
}

impl<S: TaskStore> TaskManager<S> {
    /// The tasks that are kept.
    pub closed spec fn tasks(&self) -> TaskTable {
        self.store.tasks()
    }

    /// The store is in order.
    pub closed spec fn well_formed(&self) -> bool {
        self.store.well_formed()
    }

    /// The store never fails.
    pub closed spec fn reliable(&self) -> bool {
        self.store.reliable()
    }

    /// How long new tasks are kept, and how often clients are asked to poll.
    pub closed spec fn settings(&self) -> TaskOptions {
        self.options
    }

    /// The store.
    pub closed spec fn backing(&self) -> S {
        self.store
    }

    /// The streams that are open, by their numbers.
    pub closed spec fn streams(&self) -> Seq<Option<StreamView>> {
        self.subscribers.streams()
    }

    /// All but the open streams is as it was.
    pub open spec fn same_but_for_streams(&self, before: Self) -> bool {
        &&& self.well_formed()
        &&& self.backing() == before.backing()
        &&& self.tasks() == before.tasks()
        &&& self.settings() == before.settings()
        &&& self.reliable() == before.reliable()
    }

    /// A manager with default retention.
    pub fn new(store: S) -> (manager: Self)
        requires
            store.well_formed(),
        ensures
            manager.well_formed(),
            manager.backing() == store,
            manager.tasks() == store.tasks(),
            manager.reliable() == store.reliable(),
            manager.settings().ttl_ms == Some(DEFAULT_TASK_TTL_MS),
            manager.settings().poll_interval_ms == DEFAULT_POLL_INTERVAL_MS,
            manager.streams() == Seq::<Option<StreamView>>::empty(),
    {
        TaskManager { store, options: TaskOptions::default(), subscribers: Subscribers::new() }
    }

    /// A manager with the given retention.
    pub fn with_options(store: S, options: TaskOptions) -> (manager: Self)
        requires
            store.well_formed(),
        ensures
            manager.well_formed(),
            manager.backing() == store,
            manager.tasks() == store.tasks(),
            manager.reliable() == store.reliable(),
            manager.settings() == options,
            manager.streams() == Seq::<Option<StreamView>>::empty(),
    {
        TaskManager { store, options, subscribers: Subscribers::new() }
    }

    /// How long new tasks are kept, and how often clients are asked to poll.
    pub fn options(&self) -> (options: TaskOptions)
        ensures
            options == self.settings(),
    {
        self.options
    }

    /// The store.
    pub fn store(&self) -> (store: &S)
        ensures
            *store == self.backing(),
    {
        &self.store
    }

    /// Opens a stream of what happens to the tasks of an owner from here on, under a number.
    pub fn subscribe(&mut self, owner: &TaskOwner) -> (number: usize)
        requires
            old(self).well_formed(),
        ensures
            final(self).same_but_for_streams(*old(self)),
            opened(
                old(self).streams(),
                final(self).streams(),
                number as int,
                StreamView { owner: owner@, waiting: Seq::<RequestView>::empty() },
            ),
    {
        self.follow(TaskSubscription::new(owner.dup()))
    }

    /// Has a stream told from here on, under a number.
    pub fn follow(&mut self, stream: TaskSubscription) -> (number: usize)
        requires
            old(self).well_formed(),
        ensures
            final(self).same_but_for_streams(*old(self)),
            opened(
                old(self).streams(),
                final(self).streams(),
                number as int,
                StreamView { owner: stream.follows(), waiting: stream.pending() },
            ),
    {
        self.subscribers.open(stream)
    }

    /// Closes a stream.
    pub fn unsubscribe(&mut self, number: usize)
        requires
            old(self).well_formed(),
        ensures
            final(self).same_but_for_streams(*old(self)),
            final(self).streams() == if number < old(self).streams().len() {
                old(self).streams().update(number as int, None)
            } else {
                old(self).streams()
            },
    {
        self.subscribers.close(number)
    }

    /// The oldest notification of a stream that nobody took yet.
    pub fn next_notification(&mut self, number: usize) -> (frame: Option<JsonRpcRequest>)
        requires
            old(self).well_formed(),
        ensures
            final(self).same_but_for_streams(*old(self)),
            match frame {
                Some(frame) => stream_at(old(self).streams(), number as int) matches Some(stream)
                    && stream.waiting.len() > 0 && frame@ == stream.waiting[0]
                    && final(self).streams() == old(self).streams().update(
                    number as int,
                    Some(StreamView { waiting: stream.waiting.skip(1), ..stream }),
                ),
                None => final(self).streams() == old(self).streams() && (stream_at(
                    old(self).streams(),
                    number as int,
                ) matches Some(stream) ==> stream.waiting.len() == 0),
            },
    {
        self.subscribers.next(number)
    }

    /// Creates a working task at a given time. A name that somebody else's task has cannot
    /// be had.
    pub fn create_at(&mut self, owner: &TaskOwner, task_id: TaskId, now: &str) -> (created: Result<
        Task,
        TaskError,
    >)
        requires
            old(self).well_formed(),
        ensures
            final(self).well_formed(),
            final(self).settings() == old(self).settings(),
            final(self).reliable() == old(self).reliable(),
            old(self).reliable() ==> (created is Ok <==> may_write(
                old(self).tasks(),
                owner@,
                task_id@,
            )),
            match created {
                Ok(task) => ({
                    &&& task@ == fresh_task(
                        task_id@,
                        old(self).settings().ttl_ms,
                        Some(old(self).settings().poll_interval_ms),
                        now@,
                    )
                    &&& final(self).tasks() == old(self).tasks().insert(
                        task_id@,
                        (owner@, paired(task@, PayloadView::Working)),
                    )
                    &&& may_write(old(self).tasks(), owner@, task_id@)
                    &&& final(self).streams() == streams_told(
                        old(self).streams(),
                        owner@,
                        paired(task@, PayloadView::Working),
                    )
                }),
                Err(error) => final(self).tasks() == old(self).tasks() && final(self).streams()
                    == old(self).streams() && (old(self).reliable()
                    ==> error@ == TaskErrorView::NotFound(task_id@)),
            },
    {
        let task = Task::starting(
            task_id,
            self.options.ttl_ms,
            Some(self.options.poll_interval_ms),
            now,
        );
        let detailed = DetailedTask::new(task.dup(), TaskPayload::Working);
        match self.store.create(owner, detailed.dup()) {
            Ok(()) => {
                self.subscribers.tell(owner, &detailed);
                Ok(task)
            },
            Err(error) => Err(error),
        }
    }

    /// Creates a working task. A name that somebody else's task has cannot be had.
    pub fn create(&mut self, owner: &TaskOwner, task_id: TaskId) -> (created: Result<
        Task,
        TaskError,
    >)
        requires
            old(self).well_formed(),
        ensures
            final(self).well_formed(),
            final(self).settings() == old(self).settings(),
            final(self).reliable() == old(self).reliable(),
            old(self).reliable() ==> (created is Ok <==> may_write(
                old(self).tasks(),
                owner@,
                task_id@,
            )),
            match created {
                Ok(task) => ({
                    &&& task@ == fresh_task(
                        task_id@,
                        old(self).settings().ttl_ms,
                        Some(old(self).settings().poll_interval_ms),
                        task@.created_at,
                    )
                    &&& is_stamp(task@.created_at)
                    &&& final(self).tasks() == old(self).tasks().insert(
                        task_id@,
                        (owner@, paired(task@, PayloadView::Working)),
                    )
                    &&& may_write(old(self).tasks(), owner@, task_id@)
                    &&& final(self).streams() == streams_told(
                        old(self).streams(),
                        owner@,
                        paired(task@, PayloadView::Working),
                    )
                }),
                Err(error) => final(self).tasks() == old(self).tasks() && final(self).streams()
                    == old(self).streams() && (old(self).reliable()
                    ==> error@ == TaskErrorView::NotFound(task_id@)),
            },
    {
        let now = current_timestamp();
        self.create_at(owner, task_id, now.as_str())
    }

    /// The task that an owner sees at a given time.
    pub fn get_at(&self, owner: &TaskOwner, id: &TaskId, now: Timestamp) -> (found: Result<
        DetailedTask,
        TaskError,
    >)
        requires
            self.well_formed(),
        ensures
            match found {
                Ok(task) => visible(self.tasks(), owner@, id@, now) == Some(task@)
                    && task@.task.task_id == id@,
                Err(error) => self.reliable() ==> visible(self.tasks(), owner@, id@, now) is None
                    && error@ == TaskErrorView::NotFound(id@),
            },
    {
        match self.store.get(owner, id, now) {
            Ok(Some(task)) => Ok(task),
            Ok(None) => Err(TaskError::NotFound(id.dup())),
            Err(error) => Err(error),
        }
    }

    /// The task that an owner sees.
    pub fn get(&self, owner: &TaskOwner, id: &TaskId) -> (found: Result<DetailedTask, TaskError>)
        requires
            self.well_formed(),
        ensures
            exists|now: Timestamp|
                match found {
                    Ok(task) => #[trigger] visible(self.tasks(), owner@, id@, now) == Some(task@),
                    Err(error) => self.reliable() ==> visible(self.tasks(), owner@, id@, now) is None
                        && error@ == TaskErrorView::NotFound(id@),
                },
    {
        let now = utc_now();
        self.get_at(owner, id, now)
    }

    /// Moves a task to a new payload at a given time.
    pub fn transition_at(
        &mut self,
        owner: &TaskOwner,
        id: &TaskId,
        payload: TaskPayload,
        now: Timestamp,
        stamp: &str,
    ) -> (outcome: Result<DetailedTask, TaskError>)
        requires
            old(self).well_formed(),
        ensures
            final(self).well_formed(),
            final(self).settings() == old(self).settings(),
            final(self).reliable() == old(self).reliable(),
            pushed(old(self).streams(), final(self).streams(), owner@, outcome),
            changed(
                old(self).tasks(),
                final(self).tasks(),
                owner@,
                moved(old(self).tasks(), owner@, id@, payload@, now, stamp@),
                old(self).reliable(),
                outcome,
            ),
    {
        let current = match self.get_at(owner, id, now) {
            Ok(current) => current,
            Err(error) => {
                return Err(error);
            },
        };
        if current.status().is_terminal() {
            return Err(TaskError::InvalidState { task_id: id.dup(), status: current.status() });
        }
        let mut task = current.task;
        task.last_updated_at = stamp.to_owned();
        let updated = DetailedTask::new(task, payload);
        match self.store.put(owner, updated.dup()) {
            Ok(()) => {
                self.subscribers.tell(owner, &updated);
                Ok(updated)
            },
            Err(error) => Err(error),
        }
    }

    /// Moves a task to a new payload. Nothing leaves a settled state.
    pub fn transition(&mut self, owner: &TaskOwner, id: &TaskId, payload: TaskPayload) -> (outcome:
        Result<DetailedTask, TaskError>)
        requires
            old(self).well_formed(),
        ensures
            final(self).well_formed(),
            final(self).settings() == old(self).settings(),
            final(self).reliable() == old(self).reliable(),
            pushed(old(self).streams(), final(self).streams(), owner@, outcome),
            exists|now: Timestamp, stamp: Seq<char>|
                is_stamp(stamp) && changed(
                    old(self).tasks(),
                    final(self).tasks(),
                    owner@,
                    #[trigger] moved(old(self).tasks(), owner@, id@, payload@, now, stamp),
                    old(self).reliable(),
                    outcome,
                ),
    {
        let now = utc_now();
        let stamp = current_timestamp();
        let outcome = self.transition_at(owner, id, payload, now, stamp.as_str());
        assert(changed(
            old(self).tasks(),
            self.tasks(),
            owner@,
            moved(old(self).tasks(), owner@, id@, payload@, now, stamp@),
            old(self).reliable(),
            outcome,
        ));
        outcome
    }

    /// Settles a task with its result.
    pub fn complete(&mut self, owner: &TaskOwner, id: &TaskId, result: Vec<Member>) -> (outcome:
        Result<DetailedTask, TaskError>)
        requires
            old(self).well_formed(),
        ensures
            final(self).well_formed(),
            final(self).settings() == old(self).settings(),
            final(self).reliable() == old(self).reliable(),
            pushed(old(self).streams(), final(self).streams(), owner@, outcome),
            exists|now: Timestamp, stamp: Seq<char>|
                is_stamp(stamp) && changed(
                    old(self).tasks(),
                    final(self).tasks(),
                    owner@,
                    #[trigger] moved(
                        old(self).tasks(),
                        owner@,
                        id@,
                        PayloadView::Completed(member_views(result@)),
                        now,
                        stamp,
                    ),
                    old(self).reliable(),
                    outcome,
                ),
    {
        self.transition(owner, id, TaskPayload::Completed { result })
    }

    /// Settles a task with an error.
    pub fn fail(&mut self, owner: &TaskOwner, id: &TaskId, error: Vec<Member>) -> (outcome: Result<
        DetailedTask,
        TaskError,
    >)
        requires
            old(self).well_formed(),
        ensures
            final(self).well_formed(),
            final(self).settings() == old(self).settings(),
            final(self).reliable() == old(self).reliable(),
            pushed(old(self).streams(), final(self).streams(), owner@, outcome),
            exists|now: Timestamp, stamp: Seq<char>|
                is_stamp(stamp) && changed(
                    old(self).tasks(),
                    final(self).tasks(),
                    owner@,
                    #[trigger] moved(
                        old(self).tasks(),
                        owner@,
                        id@,
                        PayloadView::Failed(member_views(error@)),
                        now,
                        stamp,
                    ),
                    old(self).reliable(),
                    outcome,
                ),
    {
        self.transition(owner, id, TaskPayload::Failed { error })
    }

    /// Lets a task wait for the client.
    pub fn request_input(
        &mut self,
        owner: &TaskOwner,
        id: &TaskId,
        input_requests: Vec<Member>,
    ) -> (outcome: Result<DetailedTask, TaskError>)
        requires
            old(self).well_formed(),
        ensures
            final(self).well_formed(),
            final(self).settings() == old(self).settings(),
            final(self).reliable() == old(self).reliable(),
            pushed(old(self).streams(), final(self).streams(), owner@, outcome),
            exists|now: Timestamp, stamp: Seq<char>|
                is_stamp(stamp) && changed(
                    old(self).tasks(),
                    final(self).tasks(),
                    owner@,
                    #[trigger] moved(
                        old(self).tasks(),
                        owner@,
                        id@,
                        PayloadView::InputRequired(member_views(input_requests@)),
                        now,
                        stamp,
                    ),
                    old(self).reliable(),
                    outcome,
                ),
    {
        self.transition(owner, id, TaskPayload::InputRequired { input_requests })
    }

    /// Lets a task that waited for the client work again, at a given time.
    pub fn apply_input_at(
        &mut self,
        owner: &TaskOwner,
        id: &TaskId,
        now: Timestamp,
        stamp: &str,
    ) -> (outcome: Result<DetailedTask, TaskError>)
        requires
            old(self).well_formed(),
        ensures
            final(self).well_formed(),
            final(self).settings() == old(self).settings(),
            final(self).reliable() == old(self).reliable(),
            pushed(old(self).streams(), final(self).streams(), owner@, outcome),
            changed(
                old(self).tasks(),
                final(self).tasks(),
                owner@,
                resumed(old(self).tasks(), owner@, id@, now, stamp@),
                old(self).reliable(),
                outcome,
            ),
    {
        let current = match self.get_at(owner, id, now) {
            Ok(current) => current,
            Err(error) => {
                return Err(error);
            },
        };
        if current.status() != TaskStatus::InputRequired {
            return Err(TaskError::InvalidState { task_id: id.dup(), status: current.status() });
        }
        self.transition_at(owner, id, TaskPayload::Working, now, stamp)
    }

    /// Lets a task that waited for the client work again.
    pub fn apply_input(&mut self, owner: &TaskOwner, id: &TaskId) -> (outcome: Result<
        DetailedTask,
        TaskError,
    >)
        requires
            old(self).well_formed(),
        ensures
            final(self).well_formed(),
            final(self).settings() == old(self).settings(),
            final(self).reliable() == old(self).reliable(),
            pushed(old(self).streams(), final(self).streams(), owner@, outcome),
            exists|now: Timestamp, stamp: Seq<char>|
                is_stamp(stamp) && changed(
                    old(self).tasks(),
                    final(self).tasks(),
                    owner@,
                    #[trigger] resumed(old(self).tasks(), owner@, id@, now, stamp),
                    old(self).reliable(),
                    outcome,
                ),
    {
        let now = utc_now();
        let stamp = current_timestamp();
        let outcome = self.apply_input_at(owner, id, now, stamp.as_str());
        assert(changed(
            old(self).tasks(),
            self.tasks(),
            owner@,
            resumed(old(self).tasks(), owner@, id@, now, stamp@),
            old(self).reliable(),
            outcome,
        ));
        outcome
    }

    /// Calls a task off. The work itself stops when it learns of it.
    pub fn cancel(&mut self, owner: &TaskOwner, id: &TaskId) -> (outcome: Result<
        DetailedTask,
        TaskError,
    >)
        requires
            old(self).well_formed(),
        ensures
            final(self).well_formed(),
            final(self).settings() == old(self).settings(),
            final(self).reliable() == old(self).reliable(),
            pushed(old(self).streams(), final(self).streams(), owner@, outcome),
            exists|now: Timestamp, stamp: Seq<char>|
                is_stamp(stamp) && changed(
                    old(self).tasks(),
                    final(self).tasks(),
                    owner@,
                    #[trigger] moved(
                        old(self).tasks(),
                        owner@,
                        id@,
                        PayloadView::Cancelled,
                        now,
                        stamp,
                    ),
                    old(self).reliable(),
                    outcome,
                ),
    {
        self.transition(owner, id, TaskPayload::Cancelled)
    }

    /// Drops the tasks whose time is up, and says how many.
    pub fn sweep_expired(&mut self) -> (dropped: Result<usize, TaskError>)
        requires
            old(self).well_formed(),
        ensures
            final(self).well_formed(),
            final(self).settings() == old(self).settings(),
            final(self).reliable() == old(self).reliable(),
            final(self).streams() == old(self).streams(),
            old(self).reliable() ==> dropped is Ok,
            dropped matches Ok(n) ==> exists|now: Timestamp|
                final(self).tasks() == #[trigger] unexpired(
                    old(self).tasks(),
                    now,
                ) && n == old(self).tasks().dom().len() - final(self).tasks().dom().len(),
    {
        let now = utc_now();
        let dropped = self.store.sweep_expired(now);
        assert(dropped is Ok ==> self.tasks() == unexpired(old(self).tasks(), now));
        dropped
    }
}

// ---------------------------------------------------------------------------
// Laws
// ---------------------------------------------------------------------------

/// Every task that is kept has a state that agrees with its payload.
pub open spec fn all_consistent(tasks: TaskTable) -> bool {
    forall|id: Seq<char>| #[trigger] tasks.contains_key(id) ==> tasks[id].1.consistent()
}

/// Nothing leaves a settled state: whatever a settled task is to become, the answer
/// is its state, and nothing is changed.
pub proof fn settled_tasks_stay_settled(
    tasks: TaskTable,
    owner: OwnerView,
    id: Seq<char>,
    payload: PayloadView,
    now: Timestamp,
    stamp: Seq<char>,
)
    requires
        tasks.contains_key(id),
        tasks[id].1.task.status.terminal(),
    ensures
        moved(tasks, owner, id, payload, now, stamp) is Err,
        resumed(tasks, owner, id, now, stamp) is Err,
{
}

/// Nobody but the owner can change a task or put another in its place, and nobody else
/// learns what it is.
pub proof fn others_change_nothing(
    tasks: TaskTable,
    other: OwnerView,
    id: Seq<char>,
    payload: PayloadView,
    now: Timestamp,
    stamp: Seq<char>,
)
    requires
        tasks.contains_key(id),
        tasks[id].0 != other,
    ensures
        moved(tasks, other, id, payload, now, stamp) == Err::<DetailedView, TaskErrorView>(
            TaskErrorView::NotFound(id),
        ),
        resumed(tasks, other, id, now, stamp) == Err::<DetailedView, TaskErrorView>(
            TaskErrorView::NotFound(id),
        ),
        !may_write(tasks, other, id),
{
}

/// A change keeps every state in agreement with its payload.
pub proof fn changes_keep_tasks_consistent(
    before: TaskTable,
    owner: OwnerView,
    id: Seq<char>,
    payload: PayloadView,
    now: Timestamp,
    stamp: Seq<char>,
)
    requires
        all_consistent(before),
    ensures
        moved(before, owner, id, payload, now, stamp) matches Ok(task) ==> all_consistent(
            before.insert(task.task.task_id, (owner, task)),
        ),
        all_consistent(
            before.insert(
                id,
                (owner, paired(fresh_task(id, None, None, stamp), PayloadView::Working)),
            ),
        ),
{
}

/// A change keeps who the task is and how long it lives: only its state, its payload
/// and the time of the last change are new.
pub proof fn changes_keep_identity(
    tasks: TaskTable,
    owner: OwnerView,
    id: Seq<char>,
    payload: PayloadView,
    now: Timestamp,
    stamp: Seq<char>,
)
    ensures
        moved(tasks, owner, id, payload, now, stamp) matches Ok(task) ==> ({
            let before = tasks[id].1.task;
            &&& task.task.task_id == before.task_id
            &&& task.task.created_at == before.created_at
            &&& task.task.ttl_ms == before.ttl_ms
            &&& task.task.poll_interval_ms == before.poll_interval_ms
            &&& task.task.status == payload.status()
            &&& task.task.status_message == before.status_message
            &&& task.task.last_updated_at == stamp
            &&& task.payload == payload
        }),
{
}

/// A task that was created is seen by its owner until its time is up, and by nobody
/// else.
pub proof fn created_tasks_are_seen(
    tasks: TaskTable,
    owner: OwnerView,
    other: OwnerView,
    task: TaskView,
    now: Timestamp,
)
    requires
        task.status == TaskStatus::Working,
        other != owner,
    ensures
        ({
            let after = tasks.insert(
                task.task_id,
                (owner, paired(task, PayloadView::Working)),
            );
            &&& !expired(task, now) ==> visible(after, owner, task.task_id, now) == Some(
                paired(task, PayloadView::Working),
            )
            &&& expired(task, now) ==> visible(after, owner, task.task_id, now) is None
            &&& visible(after, other, task.task_id, now) is None
        }),
{
}

} // verus!
