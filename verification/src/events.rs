//! Game-level events raised by the core, as opposed to window or UI events,
//! which belong to the surrounding engine.

use vstd::prelude::*;

verus! {

/// An event of the game itself.
#[derive(Clone, Debug, PartialEq, Eq, Structural)]
pub enum GameEvent {
    Battle,
}

} // verus!
