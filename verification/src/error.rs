//! The ways a conversation turn can fail.

use vstd::prelude::*;

verus! {

/// Everything a turn resolution can report instead of an assistant reply.
///
/// - `LockPoisoned`: a previous holder of the shared history lock failed while
///   holding it; surfaced by drivers that share the coordinator behind a lock.
/// - `Transport`: the remote service failed before or instead of streaming a
///   response.
/// - `ToolExecution`: a dispatched tool reported failure; surfaced rather than
///   retried, since tool semantics are caller-defined.
/// - `IterationLimitExceeded`: the recursive tool-call loop reached the
///   iteration ceiling without producing a tool-call-free answer.
#[derive(Clone, Copy, Debug, PartialEq, Eq, Structural)]
pub enum CoordinatorError {
    LockPoisoned,
    Transport,
    ToolExecution,
    IterationLimitExceeded,
}

impl CoordinatorError {
    /// A short, fixed description of the failure for reporting.
    pub fn describe(&self) -> (r: &'static str)
        ensures
            *self is LockPoisoned ==> r@ == "history lock poisoned"@,
            *self is Transport ==> r@ == "transport failure"@,
            *self is ToolExecution ==> r@ == "tool execution failed"@,
            *self is IterationLimitExceeded ==> r@ == "tool-call iteration limit exceeded"@,
    {
        match self {
            CoordinatorError::LockPoisoned => "history lock poisoned",
            CoordinatorError::Transport => "transport failure",
            CoordinatorError::ToolExecution => "tool execution failed",
            CoordinatorError::IterationLimitExceeded => "tool-call iteration limit exceeded",
        }
    }
}

} // verus!
