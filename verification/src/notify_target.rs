//! The target that marks an event as a notification.

use vstd::prelude::*;

verus! {

/// The target that marks an event as a notification rather than a log. Who emits
/// notifications and who delivers them must name the same one.
pub const NOTIFY_TARGET: &'static str = "notify";

} // verus!
