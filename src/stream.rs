//! The decisions of the asynchronous bridge over a reader.
use vstd::prelude::*;

verus! {

/// What one step of the asynchronous bridge does.
#[derive(Debug, Clone, Copy, PartialEq, Eq, Structural)]
pub enum StreamAction {
    /// A matching event is buffered: read it and yield it.
    Read,
    /// Nothing matches and no helper wait is outstanding: hand the blocking wait to the
    /// helper thread, which wakes the task when it ends.
    Dispatch,
    /// Nothing matches and a helper wait is already outstanding: stay pending.
    Wait,
}

/// The step of the bridge, given whether a zero-timeout poll matched and whether a helper
/// wait is already outstanding.
pub fn next_action(matched: bool, helper_outstanding: bool) -> (r: StreamAction)
    ensures
        r == (if matched {
            StreamAction::Read
        } else if helper_outstanding {
            StreamAction::Wait
        } else {
            StreamAction::Dispatch
        }),
{
    if matched {
        StreamAction::Read
    } else if helper_outstanding {
        StreamAction::Wait
    } else {
        StreamAction::Dispatch
    }
}

/// Whether the helper's wait ends: once a matching event is buffered, or once the bridge is
/// shutting down; otherwise it waits again.
pub fn helper_done(matched: bool, shutting_down: bool) -> (r: bool)
    ensures
        r == (matched || shutting_down),
{
    matched || shutting_down
}

} // verus!
