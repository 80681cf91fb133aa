//! Where tasks are kept.

use vstd::prelude::*;

use crate::clock::Timestamp;
use crate::mcp::tasks::{
    expired, is_expired, DetailedTask, DetailedView, OwnerView, TaskError, TaskErrorView,
    TaskId, TaskOwner,
};
use crate::text::same;

verus! {

/// Tasks by their identifier, each with its owner.
pub type TaskTable = Map<Seq<char>, (OwnerView, DetailedView)>;

/// The task that an owner sees under an identifier: theirs, and not expired.
pub open spec fn visible(
    tasks: TaskTable,
    owner: OwnerView,
    id: Seq<char>,
    now: Timestamp,
) -> Option<DetailedView> {
    if tasks.contains_key(id) && tasks[id].0 == owner && !expired(tasks[id].1.task, now) {
        Some(tasks[id].1)
    } else {
        None
    }
}

/// Whether an owner may write under an identifier: nobody else has a task of that name.
pub open spec fn may_write(tasks: TaskTable, owner: OwnerView, id: Seq<char>) -> bool {
    tasks.contains_key(id) ==> tasks[id].0 == owner
}

/// The outcome of a write: the task is kept for its owner, unless somebody else has a
/// task of that name, of which the writer learns nothing but that there is no task of the
/// writer's own. On failure nothing changed.
pub open spec fn written(
    before: TaskTable,
    after: TaskTable,
    owner: OwnerView,
    task: DetailedView,
    reliable: bool,
    kept: Result<(), TaskError>,
) -> bool {
    let id = task.task.task_id;
    match kept {
        Ok(_) => may_write(before, owner, id) && after == before.insert(id, (owner, task)),
        Err(error) => after == before && (reliable ==> !may_write(before, owner, id) && error@
            == TaskErrorView::NotFound(id)),
    }
}

/// The tasks whose time is not up.
pub open spec fn unexpired(tasks: TaskTable, now: Timestamp) -> TaskTable {
    tasks.restrict(Set::new(|id: Seq<char>| tasks.contains_key(id) && !expired(tasks[id].1.task, now)))
}

/// What an optional task is.
pub open spec fn detailed_view(task: Option<DetailedTask>) -> Option<DetailedView> {
    match task {
        Some(task) => Some(task@),
        None => None,
    }
}

/// Where tasks are kept. A host whose tasks outlive the process implements this over
/// its own database.
pub trait TaskStore: Sized {
    /// The tasks that the store holds.
    spec fn tasks(&self) -> TaskTable;

    /// The store's own data are in order.
    spec fn well_formed(&self) -> bool;

    /// The store never fails.
    spec fn reliable(&self) -> bool;

    /// Keeps a new task, in place of another of that name of the owner's own.
    fn create(&mut self, owner: &TaskOwner, task: DetailedTask) -> (kept: Result<(), TaskError>)
        requires
            old(self).well_formed(),
        ensures
            final(self).well_formed(),
            final(self).reliable() == old(self).reliable(),
            written(
                old(self).tasks(),
                final(self).tasks(),
                owner@,
                task@,
                old(self).reliable(),
                kept,
            ),
    ;

    /// The task that an owner sees under an identifier.
    fn get(&self, owner: &TaskOwner, id: &TaskId, now: Timestamp) -> (found: Result<
        Option<DetailedTask>,
        TaskError,
    >)
        requires
            self.well_formed(),
        ensures
            self.reliable() ==> found is Ok,
            found matches Ok(task) ==> detailed_view(task) == visible(
                self.tasks(),
                owner@,
                id@,
                now,
            ),
            found matches Ok(Some(task)) ==> task@.task.task_id == id@,
    ;

    /// Puts a task in place of the one with its identifier.
    fn put(&mut self, owner: &TaskOwner, task: DetailedTask) -> (kept: Result<(), TaskError>)
        requires
            old(self).well_formed(),
        ensures
            final(self).well_formed(),
            final(self).reliable() == old(self).reliable(),
            written(
                old(self).tasks(),
                final(self).tasks(),
                owner@,
                task@,
                old(self).reliable(),
                kept,
            ),
    ;

    /// Drops the tasks whose time is up, and says how many.
    fn sweep_expired(&mut self, now: Timestamp) -> (dropped: Result<usize, TaskError>)
        requires
            old(self).well_formed(),
        ensures
            final(self).well_formed(),
            final(self).reliable() == old(self).reliable(),
            old(self).reliable() ==> dropped is Ok,
            dropped matches Ok(n) ==> final(self).tasks() == unexpired(old(self).tasks(), now) && n
                == old(self).tasks().dom().len() - final(self).tasks().dom().len(),
    ;
}

/// A task with its owner.
#[derive(Debug)]
pub struct StoredTask {
    /// Whom the task belongs to.
    pub owner: TaskOwner,
    /// The task.
    pub task: DetailedTask,
}

/// A store that forgets its tasks when the process ends.
#[derive(Debug, Default)]
pub struct InMemoryTaskStore {
    entries: Vec<StoredTask>,
}

/// The identifier of an entry.
pub open spec fn entry_id(entry: StoredTask) -> Seq<char> {
    entry.task@.task.task_id
}

/// The first position of an identifier, or the number of entries.
pub open spec fn entry_index(entries: Seq<StoredTask>, id: Seq<char>) -> int
    decreases entries.len(),
{
    if entries.len() == 0 {
        0
    } else if entry_id(entries[0]) == id {
        0
    } else {
        1 + entry_index(entries.skip(1), id)
    }
}

proof fn lemma_entry_index(entries: Seq<StoredTask>, id: Seq<char>)
    ensures
        0 <= entry_index(entries, id) <= entries.len(),
        entry_index(entries, id) < entries.len() ==> entry_id(entries[entry_index(entries, id)])
            == id,
        forall|k: int| 0 <= k < entry_index(entries, id) ==> entry_id(entries[k]) != id,
    decreases entries.len(),
{
    if entries.len() > 0 && entry_id(entries[0]) != id {
        lemma_entry_index(entries.skip(1), id);
        assert forall|k: int| 0 <= k < entry_index(entries, id) implies entry_id(entries[k])
            != id by {
            if k > 0 {
                assert(entries.skip(1)[k - 1] == entries[k]);
            }
        }
    }
}

/// No identifier stands twice.
pub open spec fn distinct_ids(entries: Seq<StoredTask>) -> bool {
    forall|i: int, j: int|
        0 <= i < j < entries.len() ==> entry_id(entries[i]) != entry_id(entries[j])
}

/// The tasks that a run of entries holds.
pub open spec fn table_of(entries: Seq<StoredTask>) -> TaskTable {
    Map::new(
        |id: Seq<char>| 0 <= entry_index(entries, id) < entries.len(),
        |id: Seq<char>|
            (
                entries[entry_index(entries, id)].owner@,
                entries[entry_index(entries, id)].task@,
            ),
    )
}

/// A table holds what stands at each position, and nothing else.
proof fn lemma_table(entries: Seq<StoredTask>)
    requires
        distinct_ids(entries),
    ensures
        forall|i: int|
            0 <= i < entries.len() ==> table_of(entries).contains_key(
                #[trigger] entry_id(entries[i]),
            ) && table_of(entries)[entry_id(entries[i])] == (entries[i].owner@, entries[i].task@),
        forall|id: Seq<char>|
            #[trigger] table_of(entries).contains_key(id) ==> exists|i: int|
                0 <= i < entries.len() && entry_id(entries[i]) == id,
        table_of(entries).dom().finite(),
        table_of(entries).dom().len() == entries.len(),
{
    let table = table_of(entries);
    assert forall|i: int| 0 <= i < entries.len() implies table.contains_key(
        #[trigger] entry_id(entries[i]),
    ) && table[entry_id(entries[i])] == (entries[i].owner@, entries[i].task@) by {
        let id = entry_id(entries[i]);
        lemma_entry_index(entries, id);
        let at = entry_index(entries, id);
        if at < i {
            assert(entry_id(entries[at]) != entry_id(entries[i]));
        } else if i < at {
            assert(entry_id(entries[i]) != id);
        }
    }
    assert forall|id: Seq<char>| #[trigger] table.contains_key(id) implies exists|i: int|
        0 <= i < entries.len() && entry_id(entries[i]) == id by {
        lemma_entry_index(entries, id);
        assert(entry_id(entries[entry_index(entries, id)]) == id);
    }
    let ids = entries.map_values(|entry: StoredTask| entry_id(entry));
    assert(ids.no_duplicates());
    ids.unique_seq_to_set();
    assert forall|id: Seq<char>| table.dom().contains(id) <==> ids.to_set().contains(id) by {
        if table.dom().contains(id) {
            assert(table.contains_key(id));
            let i = choose|i: int| 0 <= i < entries.len() && entry_id(entries[i]) == id;
            assert(ids[i] == id);
        }
        if ids.to_set().contains(id) {
            let i = choose|i: int| 0 <= i < ids.len() && ids[i] == id;
            assert(entry_id(entries[i]) == id);
        }
    }
    assert(table.dom() =~= ids.to_set());
}

/// The entries whose time is not up, in order.
pub open spec fn kept_entries(entries: Seq<StoredTask>, now: Timestamp) -> Seq<StoredTask>
    decreases entries.len(),
{
    if entries.len() == 0 {
        Seq::empty()
    } else if expired(entries.last().task@.task, now) {
        kept_entries(entries.drop_last(), now)
    } else {
        kept_entries(entries.drop_last(), now).push(entries.last())
    }
}

/// An entry with a new identifier adds itself to the table.
proof fn lemma_table_push(entries: Seq<StoredTask>, entry: StoredTask)
    requires
        distinct_ids(entries.push(entry)),
    ensures
        !table_of(entries).contains_key(entry_id(entry)),
        table_of(entries.push(entry)) == table_of(entries).insert(
            entry_id(entry),
            (entry.owner@, entry.task@),
        ),
{
    let after = entries.push(entry);
    assert(distinct_ids(entries)) by {
        assert forall|i: int, j: int| 0 <= i < j < entries.len() implies entry_id(entries[i])
            != entry_id(entries[j]) by {
            assert(after[i] == entries[i] && after[j] == entries[j]);
        }
    }
    lemma_table(entries);
    lemma_table(after);
    let expected = table_of(entries).insert(entry_id(entry), (entry.owner@, entry.task@));
    if table_of(entries).contains_key(entry_id(entry)) {
        let i = choose|i: int|
            0 <= i < entries.len() && entry_id(entries[i]) == entry_id(entry);
        assert(after[i] == entries[i] && after[entries.len() as int] == entry);
    }
    assert forall|id: Seq<char>|
        table_of(after).contains_key(id) <==> expected.contains_key(id) by {
        if table_of(after).contains_key(id) {
            let i = choose|i: int| 0 <= i < after.len() && entry_id(after[i]) == id;
            if i < entries.len() {
                assert(table_of(entries).contains_key(entry_id(entries[i])));
            }
        }
        if expected.contains_key(id) {
            if id == entry_id(entry) {
                assert(table_of(after).contains_key(entry_id(after[entries.len() as int])));
            } else {
                let i = choose|i: int| 0 <= i < entries.len() && entry_id(entries[i]) == id;
                assert(table_of(after).contains_key(entry_id(after[i])));
            }
        }
    }
    assert forall|id: Seq<char>| table_of(after).contains_key(id) implies table_of(after)[id]
        == expected[id] by {
        let i = choose|i: int| 0 <= i < after.len() && entry_id(after[i]) == id;
        assert(table_of(after)[entry_id(after[i])] == (after[i].owner@, after[i].task@));
        if i < entries.len() {
            assert(table_of(entries)[entry_id(entries[i])] == (
                entries[i].owner@,
                entries[i].task@,
            ));
        }
    }
    assert(table_of(after) =~= expected);
}

/// Keeping the entries whose time is not up is keeping the tasks whose time is not up.
proof fn lemma_kept_entries(entries: Seq<StoredTask>, now: Timestamp)
    requires
        distinct_ids(entries),
    ensures
        distinct_ids(kept_entries(entries, now)),
        table_of(kept_entries(entries, now)) == unexpired(table_of(entries), now),
        forall|k: int|
            0 <= k < kept_entries(entries, now).len() ==> table_of(entries).contains_key(
                #[trigger] entry_id(kept_entries(entries, now)[k]),
            ),
    decreases entries.len(),
{
    let kept = kept_entries(entries, now);
    if entries.len() == 0 {
        assert(table_of(kept) =~= unexpired(table_of(entries), now));
    } else {
        let front = entries.drop_last();
        let last = entries.last();
        assert(entries =~= front.push(last));
        assert(distinct_ids(front));
        lemma_kept_entries(front, now);
        lemma_table_push(front, last);
        let kept_front = kept_entries(front, now);
        if expired(last.task@.task, now) {
            assert(unexpired(table_of(entries), now) =~= unexpired(table_of(front), now));
        } else {
            assert forall|i: int, j: int| 0 <= i < j < kept.len() implies entry_id(kept[i])
                != entry_id(kept[j]) by {
                if j == kept_front.len() {
                    assert(table_of(front).contains_key(entry_id(kept_front[i])));
                }
            }
            lemma_table_push(kept_front, last);
            assert(table_of(kept) =~= unexpired(table_of(entries), now));
        }
    }
}

impl InMemoryTaskStore {
    /// An empty store.
    pub fn new() -> (store: Self)
        ensures
            store.well_formed(),
            store.tasks() == Map::<Seq<char>, (OwnerView, DetailedView)>::empty(),
    {
        let store = InMemoryTaskStore { entries: Vec::new() };
        assert(store.tasks() =~= Map::<Seq<char>, (OwnerView, DetailedView)>::empty());
        store
    }

    fn position(&self, id: &str) -> (at: usize)
        ensures
            at == entry_index(self.entries@, id@),
            at <= self.entries.len(),
    {
        proof {
            lemma_entry_index(self.entries@, id@);
        }
        let mut i: usize = 0;
        while i < self.entries.len()
            invariant
                i <= self.entries.len(),
                forall|k: int| 0 <= k < i ==> entry_id(self.entries@[k]) != id@,
                0 <= entry_index(self.entries@, id@) <= self.entries.len(),
                entry_index(self.entries@, id@) < self.entries.len() ==> entry_id(
                    self.entries@[entry_index(self.entries@, id@)],
                ) == id@,
                forall|k: int|
                    0 <= k < entry_index(self.entries@, id@) ==> entry_id(self.entries@[k]) != id@,
            decreases self.entries.len() - i,
        {
            if same(self.entries[i].task.task.task_id.as_str(), id) {
                assert(entry_id(self.entries@[i as int]) == id@);
                return i;
            }
            i += 1;
        }
        i
    }

    fn upsert(&mut self, owner: &TaskOwner, task: DetailedTask) -> (kept: Result<(), TaskError>)
        requires
            old(self).well_formed(),
        ensures
            final(self).well_formed(),
            written(old(self).tasks(), final(self).tasks(), owner@, task@, true, kept),
    {
        let ghost before = self.entries@;
        let ghost id = task@.task.task_id;
        let at: usize = self.position(task.task.task_id.as_str());
        proof {
            lemma_entry_index(before, id);
            lemma_table(before);
            if at < before.len() {
                assert(table_of(before)[entry_id(before[at as int])].0 == before[at as int].owner@);
            } else if table_of(before).contains_key(id) {
                let i = choose|i: int| 0 <= i < before.len() && entry_id(before[i]) == id;
                assert(entry_id(before[i]) != id);
            }
        }
        if at < self.entries.len() && !self.entries[at].owner.is(owner) {
            return Err(TaskError::NotFound(task.task.task_id));
        }
        let entry = StoredTask { owner: owner.dup(), task };
        let ghost stored = entry;
        proof {
            lemma_entry_index(before, id);
            lemma_table(before);
        }
        if at < self.entries.len() {
            self.entries.set(at, entry);
            assert(self.entries@ == before.update(at as int, stored));
        } else {
            self.entries.push(entry);
            assert(self.entries@ == before.push(stored));
        }
        proof {
            let after = self.entries@;
            assert(after[at as int] == stored);
            assert forall|i: int, j: int| 0 <= i < j < after.len() implies entry_id(after[i])
                != entry_id(after[j]) by {
                if i == at {
                    assert(after[j] == before[j]);
                } else {
                    assert(after[i] == before[i]);
                }
            }
            lemma_table(after);
            let expected = table_of(before).insert(id, (owner@, stored.task@));
            assert forall|other: Seq<char>|
                table_of(after).contains_key(other) <==> expected.contains_key(other) by {
                if table_of(after).contains_key(other) {
                    let i = choose|i: int| 0 <= i < after.len() && entry_id(after[i]) == other;
                    if i != at {
                        assert(after[i] == before[i]);
                        assert(table_of(before).contains_key(entry_id(before[i])));
                    }
                }
                if expected.contains_key(other) {
                    if other == id {
                        assert(table_of(after).contains_key(entry_id(after[at as int])));
                    } else {
                        let i = choose|i: int|
                            0 <= i < before.len() && entry_id(before[i]) == other;
                        assert(after[i] == before[i]);
                        assert(table_of(after).contains_key(entry_id(after[i])));
                    }
                }
            }
            assert forall|other: Seq<char>|
                table_of(after).contains_key(other) implies table_of(after)[other]
                == expected[other] by {
                let i = choose|i: int| 0 <= i < after.len() && entry_id(after[i]) == other;
                assert(table_of(after)[entry_id(after[i])] == (after[i].owner@, after[i].task@));
                if i != at {
                    assert(after[i] == before[i]);
                    assert(table_of(before)[entry_id(before[i])] == (
                        before[i].owner@,
                        before[i].task@,
                    ));
                    if other == id {
                        assert(entry_id(after[at as int]) == id);
                    }
                }
            }
            assert(table_of(after) =~= expected);
        }
        Ok(())
    }
}

impl TaskStore for InMemoryTaskStore {
    closed spec fn tasks(&self) -> TaskTable {
        table_of(self.entries@)
    }

    closed spec fn well_formed(&self) -> bool {
        distinct_ids(self.entries@)
    }

    open spec fn reliable(&self) -> bool {
        true
    }

    fn create(&mut self, owner: &TaskOwner, task: DetailedTask) -> (kept: Result<(), TaskError>) {
        self.upsert(owner, task)
    }

    fn get(&self, owner: &TaskOwner, id: &TaskId, now: Timestamp) -> (found: Result<
        Option<DetailedTask>,
        TaskError,
    >) {
        let at: usize = self.position(id.as_str());
        proof {
            lemma_entry_index(self.entries@, id@);
        }
        if at < self.entries.len() {
            let entry = &self.entries[at];
            if entry.owner.is(owner) && !is_expired(&entry.task.task, now) {
                return Ok(Some(entry.task.dup()));
            }
        }
        Ok(None)
    }

    fn put(&mut self, owner: &TaskOwner, task: DetailedTask) -> (kept: Result<(), TaskError>) {
        self.upsert(owner, task)
    }

    fn sweep_expired(&mut self, now: Timestamp) -> (dropped: Result<usize, TaskError>) {
        let before: usize = self.entries.len();
        let mut entries: Vec<StoredTask> = Vec::new();
        std::mem::swap(&mut entries, &mut self.entries);
        let ghost all = entries@;
        let mut kept: Vec<StoredTask> = Vec::new();
        for entry in it: entries
            invariant
                it.seq() == all,
                kept@ == kept_entries(all.take(it.index()), now),
                kept.len() <= it.index(),
        {
            proof {
                assert(all.take(it.index() + 1).drop_last() =~= all.take(it.index()));
                assert(all.take(it.index() + 1).last() == entry);
            }
            if !is_expired(&entry.task.task, now) {
                kept.push(entry);
            }
        }
        proof {
            assert(all.take(all.len() as int) =~= all);
            lemma_kept_entries(all, now);
            lemma_table(all);
            lemma_table(kept@);
        }
        let dropped: usize = before - kept.len();
        self.entries = kept;
        Ok(dropped)
    }
}

/// A task is invisible to everybody but its owner.
pub proof fn others_see_nothing(
    tasks: TaskTable,
    owner: OwnerView,
    other: OwnerView,
    id: Seq<char>,
    now: Timestamp,
)
    requires
        tasks.contains_key(id),
        tasks[id].0 == owner,
        other != owner,
    ensures
        visible(tasks, other, id, now) is None,
{
}

/// What an owner writes neither replaces nor hides a task of anybody else's.
pub proof fn writes_keep_the_tasks_of_others(
    before: TaskTable,
    after: TaskTable,
    owner: OwnerView,
    other: OwnerView,
    task: DetailedView,
    reliable: bool,
    kept: Result<(), TaskError>,
    id: Seq<char>,
    now: Timestamp,
)
    requires
        written(before, after, owner, task, reliable, kept),
        other != owner,
    ensures
        visible(after, other, id, now) == visible(before, other, id, now),
        before.contains_key(id) && before[id].0 == other ==> after.contains_key(id) && after[id]
            == before[id],
{
}

} // verus!
