//! What a host answers when it owns the tools.

use vstd::prelude::*;

use crate::mcp::schema::ToolResponse;
use crate::mcp::tasks::Task;

verus! {

/// What a tool call produced.
#[derive(Debug)]
pub enum CallToolOutcome {
    /// The tool ran; this is its answer.
    Immediate(Box<ToolResponse>),
    /// The work goes on; this is its handle. Only a client that can be handed a task
    /// gets it.
    Task(Box<Task>),
}

impl From<ToolResponse> for CallToolOutcome {
    fn from(response: ToolResponse) -> (outcome: Self) {
        CallToolOutcome::Immediate(Box::new(response))
    }
}

impl vstd::std_specs::convert::FromSpecImpl<ToolResponse> for CallToolOutcome {
    open spec fn obeys_from_spec() -> bool {
        true
    }

    open spec fn from_spec(response: ToolResponse) -> Self {
        CallToolOutcome::Immediate(Box::new(response))
    }
}

} // verus!
