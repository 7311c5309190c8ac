//! Hedged pairs of markets and their runtime state.

use crate::exchange::MarketId;
use crate::state::PairState;
use vstd::prelude::*;

verus! {

/// Which leg of a pair is sold and which is bought.
#[derive(Debug, Clone, Copy, PartialEq, Eq, Structural)]
pub enum PairDirection {
    ShortALongB,
    LongAShortB,
}

/// Two markets on the same base asset, traded against each other.
#[derive(Debug, Clone, PartialEq, Eq)]
pub struct Pair {
    pub id: String,
    pub base_asset: String,
    pub leg_a: MarketId,
    pub leg_b: MarketId,
}

/// A pair with its current state and the trade it holds, if any.
#[derive(Debug, Clone, PartialEq)]
pub struct PairRuntime<T> {
    pub pair: Pair,
    pub state: PairState,
    pub active_trade: Option<T>,
}

impl<T> PairRuntime<T> {
    /// A pair that has just been added: warming up, with no trade.
    pub fn new(pair: Pair) -> (r: Self)
        ensures
            r.pair == pair,
            r.state == PairState::WarmingUp,
            r.active_trade is None,
    {
        PairRuntime { pair, state: PairState::WarmingUp, active_trade: None }
    }
}

} // verus!
