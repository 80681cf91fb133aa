//! Following the tasks of an owner.

use vstd::prelude::*;

use crate::json::{fields, JsonView};
use crate::mcp::protocol::{plain_request, JsonRpcRequest, RequestView};
use crate::mcp::tasks::{
    method_names, with_detailed, DetailedTask, DetailedView, OwnerView, TaskOwner,
};

verus! {

/// The notification that tells a client of a task's state.
pub open spec fn notification_of(task: DetailedView) -> RequestView {
    plain_request(
        method_names::NOTIFICATIONS_TASKS@,
        Some(JsonView::Object(with_detailed(fields(), task))),
        None,
    )
}

/// The notification that tells a client of a task's state.
pub fn task_notification(task: &DetailedTask) -> (frame: JsonRpcRequest)
    ensures
        frame@ == notification_of(task@),
{
    JsonRpcRequest::notification(method_names::NOTIFICATIONS_TASKS, Some(task.to_json()))
}

/// What an owner is told of the changes to tasks, each with the owner of its task: the
/// changes to the owner's own, in order.
pub open spec fn told_of(owner: OwnerView, changes: Seq<(OwnerView, DetailedView)>) -> Seq<
    RequestView,
>
    decreases changes.len(),
{
    if changes.len() == 0 {
        Seq::empty()
    } else {
        let before = told_of(owner, changes.drop_last());
        if changes.last().0 == owner {
            before.push(notification_of(changes.last().1))
        } else {
            before
        }
    }
}

/// A stream of notifications about the tasks of one owner.
pub struct TaskSubscription {
    owner: TaskOwner,
    waiting: Vec<JsonRpcRequest>,
}

/// What the requests of a list are.
pub open spec fn request_views(requests: Seq<JsonRpcRequest>) -> Seq<RequestView> {
    Seq::new(requests.len(), |i: int| requests[i]@)
}

impl TaskSubscription {
    /// Whose tasks are followed.
    pub closed spec fn follows(&self) -> OwnerView {
        self.owner@
    }

    /// The notifications that nobody took yet, the oldest first.
    pub closed spec fn pending(&self) -> Seq<RequestView> {
        request_views(self.waiting@)
    }

    /// A stream of what happens to the tasks of an owner from here on.
    pub fn new(owner: TaskOwner) -> (subscription: Self)
        ensures
            subscription.follows() == owner@,
            subscription.pending() == Seq::<RequestView>::empty(),
    {
        let subscription = TaskSubscription { owner, waiting: Vec::new() };
        assert(subscription.pending() =~= Seq::<RequestView>::empty());
        subscription
    }

    /// Whose tasks are followed.
    pub fn owner(&self) -> (owner: &TaskOwner)
        ensures
            owner@ == self.follows(),
    {
        &self.owner
    }

    /// Takes note of a change to a task: a task of another owner is none of this
    /// stream's business.
    pub fn observe(&mut self, owner: &TaskOwner, task: &DetailedTask)
        ensures
            final(self).follows() == old(self).follows(),
            final(self).pending() == if owner@ == old(self).follows() {
                old(self).pending().push(notification_of(task@))
            } else {
                old(self).pending()
            },
            forall|changes: Seq<(OwnerView, DetailedView)>|
                old(self).pending() == #[trigger] told_of(old(self).follows(), changes)
                    ==> final(self).pending() == told_of(
                    old(self).follows(),
                    changes.push((owner@, task@)),
                ),
    {
        if self.owner.is(owner) {
            self.waiting.push(task_notification(task));
            assert(self.pending() =~= old(self).pending().push(notification_of(task@)));
        }
        assert forall|changes: Seq<(OwnerView, DetailedView)>|
            old(self).pending() == #[trigger] told_of(old(self).follows(), changes) implies self.pending()
            == told_of(old(self).follows(), changes.push((owner@, task@))) by {
            assert(changes.push((owner@, task@)).drop_last() =~= changes);
        }
    }

    /// The oldest notification that nobody took yet.
    pub fn next(&mut self) -> (frame: Option<JsonRpcRequest>)
        ensures
            final(self).follows() == old(self).follows(),
            match frame {
                Some(frame) => old(self).pending().len() > 0 && frame@ == old(self).pending()[0]
                    && final(self).pending() == old(self).pending().skip(1),
                None => old(self).pending().len() == 0 && final(self).pending()
                    == old(self).pending(),
            },
    {
        if self.waiting.is_empty() {
            None
        } else {
            let frame = self.waiting.remove(0);
            assert(self.pending() =~= old(self).pending().skip(1));
            Some(frame)
        }
    }
}

/// What a stream is: whose tasks it follows, and the notifications that nobody took yet.
pub struct StreamView {
    /// Whose tasks are followed.
    pub owner: OwnerView,
    /// What waits, the oldest first.
    pub waiting: Seq<RequestView>,
}

/// What an optional stream is.
pub open spec fn some_stream(stream: Option<TaskSubscription>) -> Option<StreamView> {
    match stream {
        Some(stream) => Some(
            StreamView { owner: stream.follows(), waiting: stream.pending() },
        ),
        None => None,
    }
}

/// What becomes of a stream when a task of an owner changed.
pub open spec fn stream_told(
    stream: Option<StreamView>,
    owner: OwnerView,
    task: DetailedView,
) -> Option<StreamView> {
    match stream {
        Some(stream) => if stream.owner == owner {
            Some(
                StreamView {
                    owner,
                    waiting: stream.waiting.push(notification_of(task)),
                },
            )
        } else {
            Some(stream)
        },
        None => None,
    }
}

/// What becomes of the open streams, by their numbers, when a task of an owner changed.
pub open spec fn streams_told(
    streams: Seq<Option<StreamView>>,
    owner: OwnerView,
    task: DetailedView,
) -> Seq<Option<StreamView>> {
    Seq::new(streams.len(), |i: int| stream_told(streams[i], owner, task))
}

/// The stream that is open under a number.
pub open spec fn stream_at(streams: Seq<Option<StreamView>>, number: int) -> Option<StreamView> {
    if 0 <= number < streams.len() {
        streams[number]
    } else {
        None
    }
}

/// The streams with one that was opened under a number, which no other has.
pub open spec fn opened(
    before: Seq<Option<StreamView>>,
    after: Seq<Option<StreamView>>,
    number: int,
    stream: StreamView,
) -> bool {
    &&& 0 <= number <= before.len()
    &&& stream_at(before, number) is None
    &&& after == if number < before.len() {
        before.update(number, Some(stream))
    } else {
        before.push(Some(stream))
    }
}

/// The streams that are open, each under a number.
pub struct Subscribers {
    slots: Vec<Option<TaskSubscription>>,
}

impl Subscribers {
    /// The streams, by their numbers.
    pub closed spec fn streams(&self) -> Seq<Option<StreamView>> {
        Seq::new(self.slots@.len(), |i: int| some_stream(self.slots@[i]))
    }

    /// No streams.
    pub fn new() -> (subscribers: Self)
        ensures
            subscribers.streams() == Seq::<Option<StreamView>>::empty(),
    {
        let subscribers = Subscribers { slots: Vec::new() };
        assert(subscribers.streams() =~= Seq::<Option<StreamView>>::empty());
        subscribers
    }

    /// Opens a stream under a number that is free.
    pub fn open(&mut self, stream: TaskSubscription) -> (number: usize)
        ensures
            opened(
                old(self).streams(),
                final(self).streams(),
                number as int,
                StreamView { owner: stream.follows(), waiting: stream.pending() },
            ),
    {
        let ghost shown = StreamView { owner: stream.follows(), waiting: stream.pending() };
        let mut i: usize = 0;
        while i < self.slots.len() && self.slots[i].is_some()
            invariant
                *self == *old(self),
                i <= self.slots.len(),
            decreases self.slots.len() - i,
        {
            i += 1;
        }
        if i < self.slots.len() {
            self.slots.set(i, Some(stream));
            assert(self.streams() =~= old(self).streams().update(i as int, Some(shown)));
        } else {
            self.slots.push(Some(stream));
            assert(self.streams() =~= old(self).streams().push(Some(shown)));
        }
        i
    }

    /// Closes a stream.
    pub fn close(&mut self, number: usize)
        ensures
            final(self).streams() == if number < old(self).streams().len() {
                old(self).streams().update(number as int, None)
            } else {
                old(self).streams()
            },
    {
        if number < self.slots.len() {
            self.slots.set(number, None);
            assert(self.streams() =~= old(self).streams().update(number as int, None));
        }
    }

    /// Tells every stream of a change to a task.
    pub fn tell(&mut self, owner: &TaskOwner, task: &DetailedTask)
        ensures
            final(self).streams() == streams_told(old(self).streams(), owner@, task@),
    {
        let mut i: usize = 0;
        while i < self.slots.len()
            invariant
                i <= self.slots.len(),
                self.slots.len() == old(self).slots.len(),
                forall|k: int|
                    0 <= k < i ==> some_stream(#[trigger] self.slots@[k]) == stream_told(
                        some_stream(old(self).slots@[k]),
                        owner@,
                        task@,
                    ),
                forall|k: int|
                    i <= k < self.slots@.len() ==> #[trigger] self.slots@[k] == old(self).slots@[k],
            decreases self.slots.len() - i,
        {
            let mut taken: Option<TaskSubscription> = None;
            std::mem::swap(&mut self.slots[i], &mut taken);
            let told = match taken {
                Some(stream) => {
                    let mut stream = stream;
                    stream.observe(owner, task);
                    Some(stream)
                },
                None => None,
            };
            self.slots.set(i, told);
            i += 1;
        }
        assert(self.streams() =~= streams_told(old(self).streams(), owner@, task@));
    }

    /// The oldest notification of a stream that nobody took yet.
    pub fn next(&mut self, number: usize) -> (frame: Option<JsonRpcRequest>)
        ensures
            match frame {
                Some(frame) => stream_at(old(self).streams(), number as int) matches Some(stream)
                    && stream.waiting.len() > 0 && frame@ == stream.waiting[0]
                    && final(self).streams() == old(self).streams().update(
                    number as int,
                    Some(StreamView { waiting: stream.waiting.skip(1), ..stream }),
                ),
                None => final(self).streams() == old(self).streams() && (stream_at(
                    old(self).streams(),
                    number as int,
                ) matches Some(stream) ==> stream.waiting.len() == 0),
            },
    {
        if number >= self.slots.len() {
            return None;
        }
        let mut taken: Option<TaskSubscription> = None;
        std::mem::swap(&mut self.slots[number], &mut taken);
        match taken {
            Some(stream) => {
                let mut stream = stream;
                let frame = stream.next();
                self.slots.set(number, Some(stream));
                match &frame {
                    Some(_) => {
                        assert(self.streams() =~= old(self).streams().update(
                            number as int,
                            self.streams()[number as int],
                        ));
                    },
                    None => {
                        assert(self.streams() =~= old(self).streams());
                    },
                }
                frame
            },
            None => {
                assert(self.streams() =~= old(self).streams());
                None
            },
        }
    }
}

/// A change to a task reaches every stream of its owner, as its newest notification, and
/// no other stream.
pub proof fn changes_reach_the_owners_streams(
    streams: Seq<Option<StreamView>>,
    number: int,
    owner: OwnerView,
    task: DetailedView,
)
    requires
        stream_at(streams, number) is Some,
    ensures
        ({
            let before = stream_at(streams, number)->0;
            let after = stream_at(streams_told(streams, owner, task), number);
            &&& before.owner == owner ==> after == Some(
                StreamView { waiting: before.waiting.push(notification_of(task)), ..before },
            )
            &&& before.owner != owner ==> after == Some(before)
        }),
{
}

/// What happens to the tasks of others is told to nobody else.
pub proof fn strangers_are_told_nothing(
    owner: OwnerView,
    changes: Seq<(OwnerView, DetailedView)>,
)
    requires
        forall|i: int| 0 <= i < changes.len() ==> (#[trigger] changes[i]).0 != owner,
    ensures
        told_of(owner, changes) == Seq::<RequestView>::empty(),
    decreases changes.len(),
{
    if changes.len() > 0 {
        let before = changes.drop_last();
        assert forall|i: int| 0 <= i < before.len() implies (#[trigger] before[i]).0 != owner by {
            assert(before[i] == changes[i]);
        }
        strangers_are_told_nothing(owner, before);
        assert(changes.last() == changes[changes.len() - 1]);
    }
}

/// Every change to an owner's tasks is told, in order: nothing is left out, and nothing
/// is told twice.
pub proof fn owners_are_told_everything(owner: OwnerView, changes: Seq<(OwnerView, DetailedView)>)
    requires
        forall|i: int| 0 <= i < changes.len() ==> (#[trigger] changes[i]).0 == owner,
    ensures
        told_of(owner, changes).len() == changes.len(),
        forall|i: int|
            0 <= i < changes.len() ==> #[trigger] told_of(owner, changes)[i] == notification_of(
                changes[i].1,
            ),
    decreases changes.len(),
{
    if changes.len() > 0 {
        let before = changes.drop_last();
        assert forall|i: int| 0 <= i < before.len() implies (#[trigger] before[i]).0 == owner by {
            assert(before[i] == changes[i]);
        }
        owners_are_told_everything(owner, before);
        assert(changes.last() == changes[changes.len() - 1]);
        assert forall|i: int| 0 <= i < changes.len() implies #[trigger] told_of(owner, changes)[i]
            == notification_of(changes[i].1) by {
            if i < before.len() {
                assert(told_of(owner, changes)[i] == told_of(owner, before)[i]);
                assert(before[i] == changes[i]);
            }
        }
    }
}

} // verus!
