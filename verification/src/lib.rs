//! Verified core of a perpetual-futures hedging bot: exchange request
//! construction and signing, market-data frame decoding, configuration,
//! logging decisions and the engine's event handling.

pub mod text;
pub mod crypto;
pub mod logging;
pub mod exchange;
pub mod config;
pub mod engine;
pub mod execution;
pub mod market;
pub mod pair;
pub mod state;
