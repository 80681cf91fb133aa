//! MCP over standard input and output: one request a line, one answer a line.

use vstd::prelude::*;

use crate::mcp::server::{raw_step, McpServer, Step};
use crate::text::{trim, trimmed};

verus! {

/// Decides on a line of input. A blank line is no request.
pub fn handle_line<'a, H>(server: &'a McpServer<H>, line: &str) -> (step: Option<Step<'a, H>>)
    ensures
        match step {
            Some(step) => trimmed(line@).len() > 0 && step@ == raw_step(server.config(), line@),
            None => trimmed(line@).len() == 0,
        },
{
    if trim(line).is_empty() {
        None
    } else {
        Some(server.handle_raw(line))
    }
}

} // verus!
