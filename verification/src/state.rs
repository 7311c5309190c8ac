//! The states of the system and of each traded pair.

use vstd::prelude::*;

verus! {

/// The state of the whole system.
#[derive(Debug, Clone, Copy, PartialEq, Eq, Structural)]
pub enum SystemState {
    Starting,
    Running,
    Halted,
}

/// The state of one pair.
#[derive(Debug, Clone, Copy, PartialEq, Eq, Structural)]
pub enum PairState {
    WarmingUp,
    Watching,
    Opening,
    Holding,
    Closing,
    Recovering,
    Halted,
}

} // verus!
