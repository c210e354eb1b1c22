//! The options of a completion request that the library decides.

use vstd::prelude::*;

use crate::schema::Tool;

verus! {

/// How much the model reasons before it answers.
#[derive(Clone, Copy, Debug, PartialEq, Eq, Structural)]
pub enum ReasoningEffort {
    /// No reasoning (`none` in the request).
    Off,
    Low,
    Medium,
    High,
}

/// Asks the server to report the usage at the end of the stream.
#[derive(Clone, Copy, Debug, PartialEq, Eq, Structural)]
pub struct StreamOptions {
    pub include_usage: bool,
}

/// The tools field of a request: absent where there are no tools.
pub fn request_tools(tools: Vec<Tool>) -> (r: Option<Vec<Tool>>)
    ensures
        tools@.len() == 0 ==> r is None,
        tools@.len() > 0 ==> r == Some(tools),
{
    if tools.len() == 0 {
        None
    } else {
        Some(tools)
    }
}

/// The reasoning effort of a run: high for the user's own requests, none for
/// the evaluation rounds, which must be quick.
pub fn reasoning_effort(evaluation: bool) -> (r: ReasoningEffort)
    ensures
        r == if evaluation {
            ReasoningEffort::Off
        } else {
            ReasoningEffort::High
        },
{
    if evaluation {
        ReasoningEffort::Off
    } else {
        ReasoningEffort::High
    }
}

} // verus!
