//! The abstract control actions the input layer resolves device state into.
//! The engine never touches devices: it sees only which logical actions are
//! pressed, just pressed, or just released.

use vstd::prelude::*;

verus! {

/// One logical control action.
#[derive(Clone, Copy, Debug, PartialEq, Eq, Structural)]
pub enum PlayerInput {
    Left,
    Right,
    Jump,
    Fall,
    NextPlayer,
    PevPlayer,
}

} // verus!
