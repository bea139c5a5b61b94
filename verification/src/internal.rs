//! Signals that tasks hand to one another.

use vstd::prelude::*;

verus! {

/// How one task ended, or a request that a task stop.
#[derive(Clone, Copy, Debug, PartialEq, Eq, Structural)]
pub enum TaskSignal {
    Success,
    Fail,
    StopProcess,
}

} // verus!
