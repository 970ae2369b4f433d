//! Connecting to the readers marked for it once the portal has started.
use vstd::prelude::*;

verus! {

/// How long the portal waits after starting before it connects to readers.
pub const START_UP_WAITING_PERIOD_SECONDS: u64 = 60;

#[derive(Debug, Clone, Copy, PartialEq, Eq, Structural)]
pub enum State {
    Waiting,
    Running,
    Finished,
    Unknown,
}

/// A client may add or change a reader only when the start-up connecting is
/// done or was never started.
pub fn may_change_readers(state: State) -> (r: bool)
    ensures
        r == (state == State::Finished || state == State::Unknown),
{
    match state {
        State::Finished | State::Unknown => true,
        _ => false,
    }
}

} // verus!
