//! Exchange-independent vocabulary: markets, order sides and statuses,
//! credentials, and the errors the exchange adapters report.

pub mod binance;
pub mod gate;

use crate::logging::{info_line, Logger};
use vstd::prelude::*;

verus! {

/// API credentials for one exchange account.
#[derive(Debug, Clone)]
pub struct ApiCredentials {
    pub api_key: String,
    pub secret_key: String,
}

/// The kind of market an instrument trades on.
#[derive(Debug, Clone, Copy, PartialEq, Eq, Hash, Structural)]
pub enum MarketType {
    Spot,
    Perp,
}

/// A market: an exchange, its market type and the exchange's symbol.
#[derive(Debug, Clone, PartialEq, Eq, Hash)]
pub struct MarketId {
    pub exchange: String,
    pub market_type: MarketType,
    pub symbol: String,
}

/// The side of an order or fill.
#[derive(Debug, Clone, Copy, PartialEq, Eq, Structural)]
pub enum Side {
    Buy,
    Sell,
}

/// How long an order stays working.
#[derive(Debug, Clone, Copy, PartialEq, Eq, Structural)]
pub enum TimeInForce {
    Gtc,
    Ioc,
    Fok,
}

/// A request to cancel an order, identified by exchange order id or by
/// client order id.
#[derive(Debug, Clone, PartialEq)]
pub struct CancelOrderRequest {
    pub market_id: MarketId,
    pub order_id: String,
}

/// The lifecycle state of an order.
#[derive(Debug, Clone, Copy, PartialEq, Eq, Structural)]
pub enum OrderStatus {
    New,
    PartiallyFilled,
    Filled,
    Canceled,
    Rejected,
}

/// An order to place, with its price and quantity already written as
/// decimal text (the form in which the exchanges take them).
#[derive(Debug, Clone, PartialEq)]
pub struct OrderTicket {
    pub market_id: MarketId,
    pub client_order_id: String,
    pub side: Side,
    pub price: Option<String>,
    pub quantity: String,
    pub time_in_force: TimeInForce,
    pub reduce_only: bool,
}

/// What a reply read from a trading connection means for the request
/// that is waiting on it.
#[derive(Debug, Clone, Copy, PartialEq, Eq, Structural)]
pub enum ReplyOutcome {
    /// The reply belongs to another request (or is only an acknowledgement):
    /// keep waiting.
    Unrelated,
    /// The request succeeded.
    Accepted,
    /// The request failed.
    Rejected,
}

/// Whether an HTTP-style status code reports success (200 to 299).
pub open spec fn is_success_status(status: int) -> bool {
    200 <= status < 300
}

/// Errors that the exchange adapters' own logic reports.
#[derive(Debug, Clone, Copy, PartialEq, Eq, Structural)]
pub enum ExchangeError {
    WrongBinanceAdapter,
    InvalidBinanceSecret,
    WrongGateAdapter,
    InvalidGateSecret,
    InvalidGateClientOrderId,
    SbeHeaderTooShort,
    SbeBlockInvalid,
    SbeU16OutOfBounds,
    SbeI64OutOfBounds,
    SbeI8OutOfBounds,
    SbeStringLengthMissing,
    SbeStringOutOfBounds,
    SbeStringInvalidUtf8,
}

/// The human-readable text of an error.
pub open spec fn error_text(e: ExchangeError) -> Seq<char> {
    match e {
        ExchangeError::WrongBinanceAdapter => "wrong binance adapter"@,
        ExchangeError::InvalidBinanceSecret => "invalid binance secret"@,
        ExchangeError::WrongGateAdapter => "wrong gate adapter"@,
        ExchangeError::InvalidGateSecret => "invalid gate secret"@,
        ExchangeError::InvalidGateClientOrderId => "invalid gate client order id"@,
        ExchangeError::SbeHeaderTooShort => "gate SBE header too short"@,
        ExchangeError::SbeBlockInvalid => "gate SBE BBO block invalid"@,
        ExchangeError::SbeU16OutOfBounds => "gate SBE u16 out of bounds"@,
        ExchangeError::SbeI64OutOfBounds => "gate SBE i64 out of bounds"@,
        ExchangeError::SbeI8OutOfBounds => "gate SBE i8 out of bounds"@,
        ExchangeError::SbeStringLengthMissing => "gate SBE string length missing"@,
        ExchangeError::SbeStringOutOfBounds => "gate SBE string out of bounds"@,
        ExchangeError::SbeStringInvalidUtf8 => "gate SBE string invalid utf8"@,
    }
}

impl ExchangeError {
    /// The human-readable text of the error.
    pub fn message(&self) -> (r: &'static str)
        ensures
            r@ == error_text(*self),
    {
        match self {
            ExchangeError::WrongBinanceAdapter => "wrong binance adapter",
            ExchangeError::InvalidBinanceSecret => "invalid binance secret",
            ExchangeError::WrongGateAdapter => "wrong gate adapter",
            ExchangeError::InvalidGateSecret => "invalid gate secret",
            ExchangeError::InvalidGateClientOrderId => "invalid gate client order id",
            ExchangeError::SbeHeaderTooShort => "gate SBE header too short",
            ExchangeError::SbeBlockInvalid => "gate SBE BBO block invalid",
            ExchangeError::SbeU16OutOfBounds => "gate SBE u16 out of bounds",
            ExchangeError::SbeI64OutOfBounds => "gate SBE i64 out of bounds",
            ExchangeError::SbeI8OutOfBounds => "gate SBE i8 out of bounds",
            ExchangeError::SbeStringLengthMissing => "gate SBE string length missing",
            ExchangeError::SbeStringOutOfBounds => "gate SBE string out of bounds",
            ExchangeError::SbeStringInvalidUtf8 => "gate SBE string invalid utf8",
        }
    }
}

/// The message the exchange module logs when it starts.
pub const INIT_MESSAGE: &'static str = "exchange module initialized";

/// Starts the exchange module: the line it logs, if logging is on.
pub fn init(logger: &Logger) -> (line: Option<String>)
    ensures
        line is Some <==> logger.enabled,
        line matches Some(l) ==> l@ == info_line(INIT_MESSAGE@),
{
    logger.info(INIT_MESSAGE)
}


/// Each adapter accepts the markets it makes and no market of the other:
/// a market that Binance accepts is never one that Gate accepts.
pub proof fn law_adapters_disjoint(m: MarketId)
    ensures
        (m.exchange@ == binance::EXCHANGE@ && m.market_type == MarketType::Perp)
            ==> binance::is_binance_market(m),
        (m.exchange@ == gate::EXCHANGE@ && m.market_type == MarketType::Perp)
            ==> gate::is_gate_market(m),
        !(binance::is_binance_market(m) && gate::is_gate_market(m)),
{
    reveal_strlit("binance");
    reveal_strlit("gate");
    assert(binance::EXCHANGE@ != gate::EXCHANGE@) by {
        assert(binance::EXCHANGE@.len() != gate::EXCHANGE@.len());
    }
}

} // verus!
