//! Tools that are one computation over their arguments.

use vstd::prelude::*;

use crate::json::{text_view, Json, JsonView};
use crate::mcp::schema::{text_answer, Tool, ToolAnnotations, ToolResponse};

verus! {

/// What came of a computation.
#[derive(Debug)]
pub enum Computed {
    /// The arguments could not be read, and why.
    BadArguments(String),
    /// The input cannot be computed over, and why.
    Refused(String),
    /// The output could not be rendered, and why.
    Unrenderable(String),
    /// The output as text.
    Rendered(String),
}

/// What the tool answers: the output, or an error that begins with the tool's name.
pub open spec fn computation_answer(name: Seq<char>, outcome: Computed) -> JsonView {
    match outcome {
        Computed::BadArguments(words) => text_answer(
            name + ": invalid arguments: "@ + words@,
            true,
        ),
        Computed::Refused(words) => text_answer(name + ": "@ + words@, true),
        Computed::Unrenderable(words) => text_answer(
            name + ": could not render the result: "@ + words@,
            true,
        ),
        Computed::Rendered(text) => text_answer(text@, false),
    }
}

/// What the tool answers.
pub fn respond(name: &str, outcome: Computed) -> (response: ToolResponse)
    ensures
        response.wire() == computation_answer(name@, outcome),
{
    match outcome {
        Computed::BadArguments(words) => ToolResponse::error(
            name.to_owned().concat(": invalid arguments: ").concat(words.as_str()),
        ),
        Computed::Refused(words) => ToolResponse::error(
            name.to_owned().concat(": ").concat(words.as_str()),
        ),
        Computed::Unrenderable(words) => ToolResponse::error(
            name.to_owned().concat(": could not render the result: ").concat(words.as_str()),
        ),
        Computed::Rendered(text) => ToolResponse::text(text),
    }
}

/// A computation as clients see it: it reads only, repeats without effect, and stays
/// inside the server.
pub fn definition(name: &str, title: &str, description: &str, input_schema: Json) -> (tool: Tool)
    ensures
        tool.name@ == name@,
        tool.description@ == description@,
        tool.input_schema == input_schema,
        tool.output_schema is None,
        tool.execution is None,
        tool.annotations matches Some(hints) && text_view(hints.title) == Some(title@)
            && hints.read_only_hint == Some(true) && hints.destructive_hint == Some(false)
            && hints.idempotent_hint == Some(true) && hints.open_world_hint == Some(false),
{
    Tool {
        name: name.to_owned(),
        description: description.to_owned(),
        input_schema,
        output_schema: None,
        annotations: Some(
            ToolAnnotations {
                title: Some(title.to_owned()),
                read_only_hint: Some(true),
                destructive_hint: Some(false),
                idempotent_hint: Some(true),
                open_world_hint: Some(false),
            },
        ),
        execution: None,
    }
}

} // verus!
