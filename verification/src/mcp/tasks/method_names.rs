//! Methods of the tasks extension.

use vstd::prelude::*;

verus! {

/// Asks for a task's state, with its result or error once it has one.
pub const TASKS_GET: &'static str = "tasks/get";

/// Answers what a task asked the client for.
pub const TASKS_UPDATE: &'static str = "tasks/update";

/// Asks for a task to be cancelled.
pub const TASKS_CANCEL: &'static str = "tasks/cancel";

/// Tells the client of a task's state.
pub const NOTIFICATIONS_TASKS: &'static str = "notifications/tasks";

/// Opens a stream of such notifications.
pub const SUBSCRIPTIONS_LISTEN: &'static str = "subscriptions/listen";

} // verus!
