//! The coarse run state that gates the per-tick movement systems.

use vstd::prelude::*;

verus! {

/// Whether the movement systems run this tick; they start paused until the
/// game state switches them on.
#[derive(Clone, Copy, Debug, PartialEq, Eq, Structural)]
pub enum RuntimeSystemState {
    Paused,
    Running,
}

impl Default for RuntimeSystemState {
    /// The systems start paused.
    fn default() -> (r: Self)
        ensures
            r == RuntimeSystemState::Paused,
    {
        RuntimeSystemState::Paused
    }
}

} // verus!
