//! Binance USDⓈ-M perpetual futures: the adapter's request construction,
//! signing and reply handling.

use super::{
    is_success_status, CancelOrderRequest, ExchangeError, MarketId, MarketType, OrderStatus,
    OrderTicket, ReplyOutcome, Side, TimeInForce,
};
use crate::crypto::{hmac_sha256, hmac_sha256_of};
use crate::text::{
    opt_str_view, opt_string_view, decimal_chars, hex, hex_chars, is_lower_hex_text, is_text, lemma_hex_chars, lowercase_of,
    parse_unsigned, parse_unsigned_bytes, same_text, to_lowercase, u64_to_decimal,
    law_decimal_parse_roundtrip, is_digit, all_digits, unsigned_digits,
};
use serde_json::Value;
use vstd::prelude::*;
use vstd::string::*;
use vstd::utf8::{encode_utf8, is_ascii_chars, is_ascii_chars_encode_utf8};

verus! {

/// The exchange name carried by Binance markets.
pub const EXCHANGE: &'static str = "binance";

/// The REST API base URL.
pub const REST: &'static str = "https://fapi.binance.com";

/// The public (book ticker) stream base URL.
pub const PUBLIC_WS: &'static str = "wss://fstream.binance.com/public/stream?streams=";

/// The market (mark price) stream base URL.
pub const MARKET_WS: &'static str = "wss://fstream.binance.com/market/stream?streams=";

/// The private user-data stream URL.
pub const PRIVATE_WS: &'static str = "wss://fstream.binance.com/private/ws";

/// The trading WebSocket API URL.
pub const TRADING_WS: &'static str = "wss://ws-fapi.binance.com/ws-fapi/v1";

/// The receive window, in milliseconds, sent with every signed request.
pub const RECV_WINDOW: &'static str = "5000";

/// Whether a market belongs to this adapter.
pub open spec fn is_binance_market(m: MarketId) -> bool {
    m.exchange@ == EXCHANGE@ && m.market_type == MarketType::Perp
}

/// The perpetual market with the given Binance symbol.
pub fn market(symbol: &str) -> (m: MarketId)
    ensures
        m.exchange@ == EXCHANGE@,
        m.market_type == MarketType::Perp,
        m.symbol@ == symbol@,
{
    MarketId {
        exchange: String::from_str(EXCHANGE),
        market_type: MarketType::Perp,
        symbol: String::from_str(symbol),
    }
}

/// Accepts only Binance perpetual markets.
pub fn ensure_market(m: &MarketId) -> (r: Result<(), ExchangeError>)
    ensures
        r is Ok <==> is_binance_market(*m),
        r matches Err(e) ==> e == ExchangeError::WrongBinanceAdapter,
{
    if same_text(m.exchange.as_str(), EXCHANGE) && m.market_type == MarketType::Perp {
        Ok(())
    } else {
        Err(ExchangeError::WrongBinanceAdapter)
    }
}

/// Binance's name for an order side.
pub open spec fn side_name(s: Side) -> Seq<char> {
    match s {
        Side::Buy => "BUY"@,
        Side::Sell => "SELL"@,
    }
}

/// The side that Binance's name denotes, if any.
pub open spec fn side_named(name: Seq<char>) -> Option<Side> {
    if name == "BUY"@ {
        Some(Side::Buy)
    } else if name == "SELL"@ {
        Some(Side::Sell)
    } else {
        None
    }
}

/// Reads an order side as Binance writes it.
pub fn parse_side(v: &str) -> (r: Option<Side>)
    ensures
        r == side_named(v@),
{
    if same_text(v, "BUY") {
        Some(Side::Buy)
    } else if same_text(v, "SELL") {
        Some(Side::Sell)
    } else {
        None
    }
}

/// Writes an order side as Binance expects it.
pub fn side(v: Side) -> (r: &'static str)
    ensures
        r@ == side_name(v),
{
    match v {
        Side::Buy => "BUY",
        Side::Sell => "SELL",
    }
}

/// Binance's name for a time in force.
pub open spec fn tif_name(t: TimeInForce) -> Seq<char> {
    match t {
        TimeInForce::Gtc => "GTC"@,
        TimeInForce::Ioc => "IOC"@,
        TimeInForce::Fok => "FOK"@,
    }
}

/// Writes a time in force as Binance expects it.
pub fn tif(v: TimeInForce) -> (r: &'static str)
    ensures
        r@ == tif_name(v),
{
    match v {
        TimeInForce::Gtc => "GTC",
        TimeInForce::Ioc => "IOC",
        TimeInForce::Fok => "FOK",
    }
}

/// The order status that Binance's name denotes, if any. Expired orders
/// count as canceled.
pub open spec fn status_named(name: Seq<char>) -> Option<OrderStatus> {
    if name == "NEW"@ {
        Some(OrderStatus::New)
    } else if name == "PARTIALLY_FILLED"@ {
        Some(OrderStatus::PartiallyFilled)
    } else if name == "FILLED"@ {
        Some(OrderStatus::Filled)
    } else if name == "CANCELED"@ || name == "EXPIRED"@ || name == "EXPIRED_IN_MATCH"@ {
        Some(OrderStatus::Canceled)
    } else if name == "REJECTED"@ {
        Some(OrderStatus::Rejected)
    } else {
        None
    }
}

/// Reads an order status as Binance writes it.
pub fn parse_status(v: &str) -> (r: Option<OrderStatus>)
    ensures
        r == status_named(v@),
{
    if same_text(v, "NEW") {
        Some(OrderStatus::New)
    } else if same_text(v, "PARTIALLY_FILLED") {
        Some(OrderStatus::PartiallyFilled)
    } else if same_text(v, "FILLED") {
        Some(OrderStatus::Filled)
    } else if same_text(v, "CANCELED") || same_text(v, "EXPIRED") || same_text(
        v,
        "EXPIRED_IN_MATCH",
    ) {
        Some(OrderStatus::Canceled)
    } else if same_text(v, "REJECTED") {
        Some(OrderStatus::Rejected)
    } else {
        None
    }
}

/// The signature of `payload` under `secret`: the lowercase hex of the
/// HMAC-SHA256 of the payload's UTF-8 bytes keyed with the secret's.
pub open spec fn signature_of(secret: Seq<char>, payload: Seq<char>) -> Seq<char> {
    hex_chars(hmac_sha256_of(encode_utf8(secret), encode_utf8(payload)))
}

/// Signs a payload with the account secret.
pub fn sign(secret: &str, payload: &str) -> (r: Result<String, ExchangeError>)
    ensures
        r is Ok,
        r matches Ok(s) ==> s@ == signature_of(secret@, payload@),
        r matches Ok(s) ==> s@.len() == 64 && is_lower_hex_text(s@),
{
    match hmac_sha256(secret.as_bytes(), payload.as_bytes()) {
        Some(tag) => {
            proof {
                lemma_hex_chars(tag@);
            }
            Ok(hex(tag.as_slice()))
        },
        None => Err(ExchangeError::InvalidBinanceSecret),
    }
}


/// A request parameter as text: its name and its value.
pub type ParamText = (Seq<char>, Seq<char>);

/// The text views of request parameters.
pub open spec fn params_view(ps: Seq<(String, String)>) -> Seq<ParamText> {
    ps.map_values(|p: (String, String)| (p.0@, p.1@))
}

/// One parameter written as `name=value`.
pub open spec fn param_text(p: ParamText) -> Seq<char> {
    p.0 + "="@ + p.1
}

/// Parameters written as a query string: `name=value` pairs in the given
/// order, joined by `&`.
pub open spec fn query_of(ps: Seq<ParamText>) -> Seq<char>
    decreases ps.len(),
{
    if ps.len() == 0 {
        seq![]
    } else if ps.len() == 1 {
        param_text(ps[0])
    } else {
        query_of(ps.drop_last()) + "&"@ + param_text(ps.last())
    }
}

/// Writes parameters as a query string (see `query_of`).
pub fn query_string(params: &[(String, String)]) -> (q: String)
    ensures
        q@ == query_of(params_view(params@)),
{
    let mut q = String::new();
    let mut i: usize = 0;
    while i < params.len()
        invariant
            i <= params@.len(),
            q@ == query_of(params_view(params@).take(i as int)),
        decreases params@.len() - i,
    {
        let ghost before = params_view(params@).take(i as int);
        if i > 0 {
            q.append("&");
        }
        q.append(params[i].0.as_str());
        q.append("=");
        q.append(params[i].1.as_str());
        proof {
            let now = params_view(params@).take(i + 1);
            assert(now.drop_last() =~= before);
            assert(now.last() == (params@[i as int].0@, params@[i as int].1@));
            if i == 0 {
                assert(q@ =~= param_text(now[0]));
            } else {
                assert(q@ =~= query_of(before) + "&"@ + param_text(now.last()));
            }
        }
        i = i + 1;
    }
    assert(params_view(params@).take(i as int) =~= params_view(params@));
    q
}

fn param(name: &str, value: &str) -> (p: (String, String))
    ensures
        p.0@ == name@,
        p.1@ == value@,
{
    (String::from_str(name), String::from_str(value))
}

/// The query of a signed GET: the given parameters, then the receive window
/// and the request time.
pub open spec fn signed_get_query(params: Seq<ParamText>, timestamp_ms: nat) -> Seq<char> {
    query_of(
        params + seq![("recvWindow"@, RECV_WINDOW@), ("timestamp"@, decimal_chars(timestamp_ms))],
    )
}

/// The URL of a signed GET: the query of `signed_get_query` followed by its
/// signature.
pub open spec fn signed_get_url_of(
    path: Seq<char>,
    params: Seq<ParamText>,
    timestamp_ms: nat,
    secret: Seq<char>,
) -> Seq<char> {
    let q = signed_get_query(params, timestamp_ms);
    REST@ + path + "?"@ + q + "&signature="@ + signature_of(secret, q)
}

/// Builds the URL of a signed GET request to `path` made at `timestamp_ms`.
pub fn signed_get_url(path: &str, params: &[(String, String)], timestamp_ms: u64, secret: &str) -> (r:
    Result<String, ExchangeError>)
    ensures
        r is Ok,
        r matches Ok(u) ==> u@ == signed_get_url_of(
            path@,
            params_view(params@),
            timestamp_ms as nat,
            secret@,
        ),
        ({
            let sig = signature_of(
                secret@,
                signed_get_query(params_view(params@), timestamp_ms as nat),
            );
            sig.len() == 64 && is_lower_hex_text(sig)
        }),
{
    let mut all: Vec<(String, String)> = Vec::new();
    let mut i: usize = 0;
    while i < params.len()
        invariant
            i <= params@.len(),
            params_view(all@) =~= params_view(params@).take(i as int),
        decreases params@.len() - i,
    {
        all.push((params[i].0.clone(), params[i].1.clone()));
        proof {
            assert(params_view(all@).drop_last() =~= params_view(params@).take(i as int));
        }
        i = i + 1;
    }
    all.push(param("recvWindow", RECV_WINDOW));
    let stamp = u64_to_decimal(timestamp_ms);
    all.push(param("timestamp", stamp.as_str()));
    let ghost expected = params_view(params@) + seq![
        ("recvWindow"@, RECV_WINDOW@),
        ("timestamp"@, decimal_chars(timestamp_ms as nat)),
    ];
    assert(params_view(params@).take(params@.len() as int) =~= params_view(params@));
    assert(params_view(all@) =~= expected);
    let q = query_string(all.as_slice());
    let signature = match sign(secret, q.as_str()) {
        Ok(s) => s,
        Err(e) => return Err(e),
    };
    let mut url = String::from_str(REST);
    url.append(path);
    url.append("?");
    url.append(q.as_str());
    url.append("&signature=");
    url.append(signature.as_str());
    Ok(url)
}


/// The parameters of an `order.place` request, in ascending name order: a
/// limit order (price given) carries its price and time in force, a market
/// order neither.
pub open spec fn place_order_param_list(api_key: Seq<char>, t: OrderTicket, timestamp_ms: nat) -> Seq<
    ParamText,
> {
    let reduce_only = if t.reduce_only {
        "true"@
    } else {
        "false"@
    };
    match t.price {
        Some(price) => seq![
            ("apiKey"@, api_key),
            ("newClientOrderId"@, t.client_order_id@),
            ("price"@, price@),
            ("quantity"@, t.quantity@),
            ("recvWindow"@, RECV_WINDOW@),
            ("reduceOnly"@, reduce_only),
            ("side"@, side_name(t.side)),
            ("symbol"@, t.market_id.symbol@),
            ("timeInForce"@, tif_name(t.time_in_force)),
            ("timestamp"@, decimal_chars(timestamp_ms)),
            ("type"@, "LIMIT"@),
        ],
        None => seq![
            ("apiKey"@, api_key),
            ("newClientOrderId"@, t.client_order_id@),
            ("quantity"@, t.quantity@),
            ("recvWindow"@, RECV_WINDOW@),
            ("reduceOnly"@, reduce_only),
            ("side"@, side_name(t.side)),
            ("symbol"@, t.market_id.symbol@),
            ("timestamp"@, decimal_chars(timestamp_ms)),
            ("type"@, "MARKET"@),
        ],
    }
}

/// The parameters of an `order.place` request for `t`, made at
/// `timestamp_ms`; refused for a market of another adapter.
pub fn place_order_params(api_key: &str, t: &OrderTicket, timestamp_ms: u64) -> (r: Result<
    Vec<(String, String)>,
    ExchangeError,
>)
    ensures
        r is Ok <==> is_binance_market(t.market_id),
        r matches Err(e) ==> e == ExchangeError::WrongBinanceAdapter,
        r matches Ok(ps) ==> params_view(ps@) == place_order_param_list(
            api_key@,
            *t,
            timestamp_ms as nat,
        ),
{
    match ensure_market(&t.market_id) {
        Ok(()) => {},
        Err(e) => return Err(e),
    }
    let stamp = u64_to_decimal(timestamp_ms);
    let reduce_only = if t.reduce_only {
        "true"
    } else {
        "false"
    };
    let mut ps: Vec<(String, String)> = Vec::new();
    ps.push(param("apiKey", api_key));
    ps.push(param("newClientOrderId", t.client_order_id.as_str()));
    match &t.price {
        Some(price) => {
            ps.push(param("price", price.as_str()));
        },
        None => {},
    }
    ps.push(param("quantity", t.quantity.as_str()));
    ps.push(param("recvWindow", RECV_WINDOW));
    ps.push(param("reduceOnly", reduce_only));
    ps.push(param("side", side(t.side)));
    ps.push(param("symbol", t.market_id.symbol.as_str()));
    match &t.price {
        Some(_) => {
            ps.push(param("timeInForce", tif(t.time_in_force)));
            ps.push(param("timestamp", stamp.as_str()));
            ps.push(param("type", "LIMIT"));
        },
        None => {
            ps.push(param("timestamp", stamp.as_str()));
            ps.push(param("type", "MARKET"));
        },
    }
    assert(params_view(ps@) =~= place_order_param_list(api_key@, *t, timestamp_ms as nat));
    Ok(ps)
}

/// Whether an order id is the exchange's numeric id (as opposed to a client
/// order id): it reads as an unsigned 64-bit integer.
pub open spec fn is_exchange_order_id(order_id: Seq<char>) -> bool {
    parse_unsigned(encode_utf8(order_id), u64::MAX as nat) is Some
}

/// The parameters of an `order.cancel` request, in ascending name order;
/// the order is named by `orderId` when its id is numeric and by
/// `origClientOrderId` otherwise.
pub open spec fn cancel_order_param_list(
    api_key: Seq<char>,
    r: CancelOrderRequest,
    timestamp_ms: nat,
) -> Seq<ParamText> {
    let id_name = if is_exchange_order_id(r.order_id@) {
        "orderId"@
    } else {
        "origClientOrderId"@
    };
    seq![
        ("apiKey"@, api_key),
        (id_name, r.order_id@),
        ("recvWindow"@, RECV_WINDOW@),
        ("symbol"@, r.market_id.symbol@),
        ("timestamp"@, decimal_chars(timestamp_ms)),
    ]
}

/// The parameters of an `order.cancel` request for `r`, made at
/// `timestamp_ms`; refused for a market of another adapter.
pub fn cancel_order_params(api_key: &str, r: &CancelOrderRequest, timestamp_ms: u64) -> (res: Result<
    Vec<(String, String)>,
    ExchangeError,
>)
    ensures
        res is Ok <==> is_binance_market(r.market_id),
        res matches Err(e) ==> e == ExchangeError::WrongBinanceAdapter,
        res matches Ok(ps) ==> params_view(ps@) == cancel_order_param_list(
            api_key@,
            *r,
            timestamp_ms as nat,
        ),
{
    match ensure_market(&r.market_id) {
        Ok(()) => {},
        Err(e) => return Err(e),
    }
    let stamp = u64_to_decimal(timestamp_ms);
    let numeric = parse_unsigned_bytes(r.order_id.as_str().as_bytes(), u64::MAX).is_some();
    let id_name = if numeric {
        "orderId"
    } else {
        "origClientOrderId"
    };
    let mut ps: Vec<(String, String)> = Vec::new();
    ps.push(param("apiKey", api_key));
    ps.push(param(id_name, r.order_id.as_str()));
    ps.push(param("recvWindow", RECV_WINDOW));
    ps.push(param("symbol", r.market_id.symbol.as_str()));
    ps.push(param("timestamp", stamp.as_str()));
    assert(params_view(ps@) =~= cancel_order_param_list(api_key@, *r, timestamp_ms as nat));
    Ok(ps)
}

/// Adds the signature to a request's parameters, which come in strictly
/// ascending name order (as in a sorted map): the signature of the
/// parameters' query string, under the name `signature`. The signature is
/// 64 lowercase hex characters and is not itself part of what is signed.
pub fn sign_params(secret: &str, params: Vec<(String, String)>) -> (r: Result<
    Vec<(String, String)>,
    ExchangeError,
>)
    requires
        names_ascending(params_view(params@)),
    ensures
        r is Ok,
        r matches Ok(ps) ==> ps@.last().1@.len() == 64 && is_lower_hex_text(ps@.last().1@),
        r matches Ok(ps) ==> params_view(ps@) == params_view(params@) + seq![
            ("signature"@, signature_of(secret@, query_of(params_view(params@)))),
        ],
{
    let payload = query_string(params.as_slice());
    let signature = match sign(secret, payload.as_str()) {
        Ok(s) => s,
        Err(e) => return Err(e),
    };
    let mut ps = params;
    let ghost before = ps@;
    ps.push(param("signature", signature.as_str()));
    assert(params_view(ps@) =~= params_view(before) + seq![
        ("signature"@, signature_of(secret@, query_of(params_view(before)))),
    ]);
    Ok(ps)
}

/// What a trading reply with the given `id` and `status` fields means for
/// the request with id `expected` (see `trading_reply`).
pub open spec fn trading_reply_of(id: Option<u64>, status: Option<u64>, expected: u64) -> ReplyOutcome {
    if id != Some(expected) {
        ReplyOutcome::Unrelated
    } else if is_success_status(
        match status {
            Some(s) => s as int,
            None => 0,
        },
    ) {
        ReplyOutcome::Accepted
    } else {
        ReplyOutcome::Rejected
    }
}

/// What a trading reply means for the request with id `expected`: replies
/// with another id are unrelated; otherwise a status from 200 to 299 (a
/// missing status counts as 0) is success.
pub fn trading_reply(id: Option<u64>, status: Option<u64>, expected: u64) -> (r: ReplyOutcome)
    ensures
        r == trading_reply_of(id, status, expected),
{
    match id {
        Some(i) => {
            if i != expected {
                return ReplyOutcome::Unrelated;
            }
        },
        None => {
            return ReplyOutcome::Unrelated;
        },
    }
    let s = match status {
        Some(s) => s,
        None => 0,
    };
    if 200 <= s && s < 300 {
        ReplyOutcome::Accepted
    } else {
        ReplyOutcome::Rejected
    }
}

/// Whether an exchange-info entry is a perpetual contract that is trading:
/// both fields are present, `contractType` is `PERPETUAL` and `status` is
/// `TRADING`.
pub fn listed_perpetual(contract_type: Option<&str>, status: Option<&str>) -> (r: bool)
    ensures
        r == ((contract_type matches Some(c) && c@ == "PERPETUAL"@) && (status matches Some(s)
            && s@ == "TRADING"@)),
{
    is_text(contract_type, "PERPETUAL") && is_text(status, "TRADING")
}

/// The kinds of event on the private user-data stream.
#[derive(Debug, Clone, Copy, PartialEq, Eq, Structural)]
pub enum PrivateEvent {
    OrderTradeUpdate,
    AccountUpdate,
    Other,
}

/// The kind of a private-stream event with the given event type (`e`).
pub open spec fn private_event_of(event_type: Option<Seq<char>>) -> PrivateEvent {
    if event_type == Some("ORDER_TRADE_UPDATE"@) {
        PrivateEvent::OrderTradeUpdate
    } else if event_type == Some("ACCOUNT_UPDATE"@) {
        PrivateEvent::AccountUpdate
    } else {
        PrivateEvent::Other
    }
}

/// The kind of a private-stream event from its event type (`e`).
pub fn private_event_kind(event_type: Option<&str>) -> (r: PrivateEvent)
    ensures
        r == private_event_of(opt_str_view(event_type)),
{
    if is_text(event_type, "ORDER_TRADE_UPDATE") {
        PrivateEvent::OrderTradeUpdate
    } else if is_text(event_type, "ACCOUNT_UPDATE") {
        PrivateEvent::AccountUpdate
    } else {
        PrivateEvent::Other
    }
}

/// The URL of the private user-data stream for a listen key, subscribed to
/// order and account updates.
pub fn private_stream_url(listen_key: &str) -> (u: String)
    ensures
        u@ == PRIVATE_WS@ + "?listenKey="@ + listen_key@ + "&events=ORDER_TRADE_UPDATE/ACCOUNT_UPDATE"@,
{
    let mut u = String::from_str(PRIVATE_WS);
    u.append("?listenKey=");
    u.append(listen_key);
    u.append("&events=ORDER_TRADE_UPDATE/ACCOUNT_UPDATE");
    u
}


/// The views of a list of strings.
pub open spec fn texts_view(ss: Seq<String>) -> Seq<Seq<char>> {
    ss.map_values(|s: String| s@)
}

/// The combined stream name for symbols: each symbol lowercased and
/// followed by `suffix`, joined by `/`.
pub open spec fn stream_names(symbols: Seq<Seq<char>>, suffix: Seq<char>) -> Seq<char>
    decreases symbols.len(),
{
    if symbols.len() == 0 {
        seq![]
    } else if symbols.len() == 1 {
        lowercase_of(symbols[0]) + suffix
    } else {
        stream_names(symbols.drop_last(), suffix) + "/"@ + lowercase_of(symbols.last()) + suffix
    }
}

fn stream_url(base: &str, symbols: &[String], suffix: &str) -> (u: String)
    ensures
        u@ == base@ + stream_names(texts_view(symbols@), suffix@),
{
    let mut u = String::from_str(base);
    let mut i: usize = 0;
    while i < symbols.len()
        invariant
            i <= symbols@.len(),
            u@ == base@ + stream_names(texts_view(symbols@).take(i as int), suffix@),
        decreases symbols@.len() - i,
    {
        let ghost before = u@;
        if i > 0 {
            u.append("/");
        }
        let lower = to_lowercase(symbols[i].as_str());
        u.append(lower.as_str());
        u.append(suffix);
        proof {
            let now = texts_view(symbols@).take(i + 1);
            assert(now.drop_last() =~= texts_view(symbols@).take(i as int));
            assert(now.last() == symbols@[i as int]@);
            if i == 0 {
                assert(u@ =~= base@ + stream_names(now, suffix@));
            } else {
                assert(u@ =~= base@ + stream_names(now, suffix@));
            }
        }
        i = i + 1;
    }
    assert(texts_view(symbols@).take(i as int) =~= texts_view(symbols@));
    u
}

/// The book-ticker stream URL for symbols; none when there are no symbols.
pub fn book_stream_url(symbols: &[String]) -> (r: Option<String>)
    ensures
        r is None <==> symbols@.len() == 0,
        r matches Some(u) ==> u@ == PUBLIC_WS@ + stream_names(texts_view(symbols@), "@bookTicker"@),
{
    if symbols.len() == 0 {
        None
    } else {
        Some(stream_url(PUBLIC_WS, symbols, "@bookTicker"))
    }
}

/// The mark-price (funding) stream URL for symbols, updated every second;
/// none when there are no symbols.
pub fn funding_stream_url(symbols: &[String]) -> (r: Option<String>)
    ensures
        r is None <==> symbols@.len() == 0,
        r matches Some(u) ==> u@ == MARKET_WS@ + stream_names(
            texts_view(symbols@),
            "@markPrice@1s"@,
        ),
{
    if symbols.len() == 0 {
        None
    } else {
        Some(stream_url(MARKET_WS, symbols, "@markPrice@1s"))
    }
}


/// Writing a side and reading it back gives the same side.
pub proof fn law_side_roundtrip(s: Side)
    ensures
        side_named(side_name(s)) == Some(s),
{
    reveal_strlit("BUY");
    reveal_strlit("SELL");
    assert("BUY"@.len() != "SELL"@.len());
}


/// `a` and `b` agree before position `k`, and there `a` is smaller: its
/// character has the lower code, or `a` has ended while `b` goes on.
pub open spec fn first_difference(a: Seq<char>, b: Seq<char>, k: int) -> bool {
    &&& 0 <= k <= a.len()
    &&& k < b.len()
    &&& a.take(k) == b.take(k)
    &&& (k == a.len() || (a[k] as u32) < (b[k] as u32))
}

/// Lexicographic order of texts by character code (for UTF-8 text, the
/// order of their bytes, which is how a `BTreeMap<String, _>` orders keys).
pub open spec fn text_before(a: Seq<char>, b: Seq<char>) -> bool {
    exists|k: int| #[trigger] first_difference(a, b, k)
}

proof fn lemma_first_char_before(a: Seq<char>, b: Seq<char>)
    requires
        a.len() > 0,
        b.len() > 0,
        (a[0] as u32) < (b[0] as u32),
    ensures
        text_before(a, b),
{
    assert(a.take(0) =~= b.take(0));
    assert(first_difference(a, b, 0));
}

/// Parameter names in strictly ascending order.
pub open spec fn names_ascending(ps: Seq<ParamText>) -> bool {
    forall|i: int| 0 <= i < ps.len() - 1 ==> text_before(#[trigger] ps[i].0, ps[i + 1].0)
}

/// The signed payload of an order lists its parameters in ascending name
/// order, the order in which the exchange reassembles it to check the
/// signature.
pub proof fn law_order_params_ascending(api_key: Seq<char>, t: OrderTicket, timestamp_ms: nat)
    ensures
        names_ascending(place_order_param_list(api_key, t, timestamp_ms)),
{
    reveal_strlit("apiKey");
    reveal_strlit("newClientOrderId");
    reveal_strlit("price");
    reveal_strlit("quantity");
    reveal_strlit("recvWindow");
    reveal_strlit("reduceOnly");
    reveal_strlit("side");
    reveal_strlit("symbol");
    reveal_strlit("timeInForce");
    reveal_strlit("timestamp");
    reveal_strlit("type");
    lemma_first_char_before("apiKey"@, "newClientOrderId"@);
    lemma_first_char_before("newClientOrderId"@, "price"@);
    lemma_first_char_before("newClientOrderId"@, "quantity"@);
    lemma_first_char_before("price"@, "quantity"@);
    lemma_first_char_before("quantity"@, "recvWindow"@);
    assert("recvWindow"@.take(2) =~= "reduceOnly"@.take(2));
    assert(first_difference("recvWindow"@, "reduceOnly"@, 2));
    lemma_first_char_before("reduceOnly"@, "side"@);
    assert("side"@.take(1) =~= "symbol"@.take(1));
    assert(first_difference("side"@, "symbol"@, 1));
    lemma_first_char_before("symbol"@, "timeInForce"@);
    lemma_first_char_before("symbol"@, "timestamp"@);
    assert("timeInForce"@.take(4) =~= "timestamp"@.take(4));
    assert(first_difference("timeInForce"@, "timestamp"@, 4));
    assert("timestamp"@.take(1) =~= "type"@.take(1));
    assert(first_difference("timestamp"@, "type"@, 1));
}

/// The signed payload of a cancellation lists its parameters in ascending
/// name order, whichever name the order id goes under.
pub proof fn law_cancel_params_ascending(api_key: Seq<char>, r: CancelOrderRequest, timestamp_ms: nat)
    ensures
        names_ascending(cancel_order_param_list(api_key, r, timestamp_ms)),
{
    reveal_strlit("apiKey");
    reveal_strlit("orderId");
    reveal_strlit("origClientOrderId");
    reveal_strlit("recvWindow");
    reveal_strlit("symbol");
    reveal_strlit("timestamp");
    lemma_first_char_before("apiKey"@, "orderId"@);
    lemma_first_char_before("apiKey"@, "origClientOrderId"@);
    lemma_first_char_before("orderId"@, "recvWindow"@);
    lemma_first_char_before("origClientOrderId"@, "recvWindow"@);
    lemma_first_char_before("recvWindow"@, "symbol"@);
    lemma_first_char_before("symbol"@, "timestamp"@);
}

/// Every order, limit or market, carries its side: one parameter is named
/// `side`, and every parameter of that name has the value `SELL` for a sell
/// and `BUY` for a buy, which `parse_side` reads back as the ticket's side.
pub proof fn law_order_side_param(api_key: Seq<char>, t: OrderTicket, timestamp_ms: nat)
    ensures
        exists|i: int|
            0 <= i < place_order_param_list(api_key, t, timestamp_ms).len()
                && #[trigger] place_order_param_list(api_key, t, timestamp_ms)[i].0 == "side"@,
        forall|i: int|
            0 <= i < place_order_param_list(api_key, t, timestamp_ms).len()
                && #[trigger] place_order_param_list(api_key, t, timestamp_ms)[i].0 == "side"@
                ==> {
                let value = place_order_param_list(api_key, t, timestamp_ms)[i].1;
                &&& (t.side == Side::Sell ==> value == "SELL"@)
                &&& (t.side == Side::Buy ==> value == "BUY"@)
                &&& side_named(value) == Some(t.side)
            },
{
    reveal_strlit("apiKey");
    reveal_strlit("newClientOrderId");
    reveal_strlit("price");
    reveal_strlit("quantity");
    reveal_strlit("recvWindow");
    reveal_strlit("reduceOnly");
    reveal_strlit("side");
    reveal_strlit("symbol");
    reveal_strlit("timeInForce");
    reveal_strlit("timestamp");
    reveal_strlit("type");
    law_side_roundtrip(t.side);
    let ps = place_order_param_list(api_key, t, timestamp_ms);
    let at: int = if t.price is Some { 6 } else { 5 };
    assert(ps[at].0 == "side"@);
    assert forall|i: int| 0 <= i < ps.len() && #[trigger] ps[i].0 == "side"@ implies i == at by {
        if i != at {
            assert(ps[i].0.len() != 4 || ps[i].0[0] != 's' || ps[i].0[1] != 'i');
        }
    }
}

/// A cancellation names an order by `orderId` whenever its id is the
/// decimal text of a number up to 18446744073709551615, the largest
/// unsigned 64-bit integer.
pub proof fn law_cancel_names_numeric_id(
    api_key: Seq<char>,
    r: CancelOrderRequest,
    timestamp_ms: nat,
    n: nat,
)
    requires
        n <= 18446744073709551615,
        r.order_id@ == decimal_chars(n),
    ensures
        cancel_order_param_list(api_key, r, timestamp_ms)[1] == ("orderId"@, r.order_id@),
{
    law_decimal_parse_roundtrip(n, 18446744073709551615);
}

/// A cancellation names an order by `origClientOrderId` when its id is the
/// decimal text of a number too large for an unsigned 64-bit integer.
pub proof fn law_cancel_names_oversized_id(
    api_key: Seq<char>,
    r: CancelOrderRequest,
    timestamp_ms: nat,
    n: nat,
)
    requires
        n > 18446744073709551615,
        r.order_id@ == decimal_chars(n),
    ensures
        cancel_order_param_list(api_key, r, timestamp_ms)[1] == ("origClientOrderId"@, r.order_id@),
{
    law_decimal_parse_roundtrip(n, n);
}

/// A cancellation names an order by `origClientOrderId` when its id is
/// ASCII text holding a letter, which no unsigned integer's text does.
pub proof fn law_cancel_names_client_id(
    api_key: Seq<char>,
    r: CancelOrderRequest,
    timestamp_ms: nat,
    k: int,
)
    requires
        is_ascii_chars(r.order_id@),
        0 <= k < r.order_id@.len(),
        ('a' <= r.order_id@[k] <= 'z') || ('A' <= r.order_id@[k] <= 'Z'),
    ensures
        cancel_order_param_list(api_key, r, timestamp_ms)[1] == ("origClientOrderId"@, r.order_id@),
{
    let id = r.order_id@;
    is_ascii_chars_encode_utf8(id);
    let b = encode_utf8(id);
    assert(b[k] == id[k] as u8);
    assert(!is_digit(b[k]));
    let d = unsigned_digits(b);
    if b.len() > 0 && b[0] == 43 {
        assert(k != 0);
        assert(d[k - 1] == b[k]);
    } else {
        assert(d[k] == b[k]);
    }
    assert(!all_digits(d));
}


/// The names of a list of symbols split at any symbol: those of the first
/// `k` symbols, a `/`, then those of the rest; so `n` symbols give `n`
/// names separated by `n - 1` slashes, in the symbols' order.
pub proof fn law_stream_names_split(symbols: Seq<Seq<char>>, suffix: Seq<char>, k: int)
    requires
        0 < k < symbols.len(),
    ensures
        stream_names(symbols, suffix) == stream_names(symbols.take(k), suffix) + "/"@
            + stream_names(symbols.skip(k), suffix),
    decreases symbols.len(),
{
    let front = symbols.drop_last();
    assert(front.take(k) =~= symbols.take(k));
    if k == symbols.len() - 1 {
        assert(front =~= symbols.take(k));
        assert(symbols.skip(k) =~= seq![symbols.last()]);
        assert(stream_names(symbols, suffix) =~= stream_names(symbols.take(k), suffix) + "/"@
            + stream_names(symbols.skip(k), suffix));
    } else {
        law_stream_names_split(front, suffix, k);
        let back = symbols.skip(k);
        assert(back.drop_last() =~= front.skip(k));
        assert(back.last() == symbols.last());
        assert(stream_names(symbols, suffix) =~= stream_names(symbols.take(k), suffix) + "/"@
            + stream_names(symbols.skip(k), suffix));
    }
}

/// One symbol's stream name is the symbol in lowercase followed by the
/// suffix, with no separator.
pub proof fn law_stream_name_single(symbol: Seq<char>, suffix: Seq<char>)
    ensures
        stream_names(seq![symbol], suffix) == lowercase_of(symbol) + suffix,
{
}


/// The `id` and `status` fields (as unsigned integers) of a trading-API
/// reply frame; none when the frame is not JSON.
pub uninterp spec fn binance_reply_of(frame: Seq<char>) -> Option<(Option<u64>, Option<u64>)>;

/// Reads a reply frame through `serde_json::from_str::<Value>`, then picks
/// `id` and `status` with `Value::as_u64`. Claimed: the result is
/// `binance_reply_of` the frame.
#[verifier::external_body]
fn binance_reply_fields(frame: &str) -> (r: Option<(Option<u64>, Option<u64>)>)
    ensures
        r == binance_reply_of(frame@),
{
    let v: Value = serde_json::from_str(frame).ok()?;
    Some((v["id"].as_u64(), v["status"].as_u64()))
}

/// What a trading-API reply frame means for the request with id `expected`;
/// none when the frame is not JSON.
pub fn binance_frame_outcome(frame: &str, expected: u64) -> (r: Option<ReplyOutcome>)
    ensures
        r is None <==> binance_reply_of(frame@) is None,
        binance_reply_of(frame@) matches Some((id, status)) ==> r == Some(
            trading_reply_of(id, status, expected),
        ),
{
    match binance_reply_fields(frame) {
        Some((id, status)) => Some(trading_reply(id, status, expected)),
        None => None,
    }
}

/// The event type (`e`) of a private-stream frame, read from its `data`
/// object when it has one and from the frame itself otherwise; none when
/// the frame is not JSON.
pub uninterp spec fn binance_event_type_of(frame: Seq<char>) -> Option<Option<Seq<char>>>;

/// Reads a private-stream frame through `serde_json::from_str::<Value>`, then
/// picks `data` (or the whole frame) and its `e` with `Value::get` and
/// `Value::as_str`. Claimed: the result's view is `binance_event_type_of`
/// the frame.
#[verifier::external_body]
fn binance_event_type(frame: &str) -> (r: Option<Option<String>>)
    ensures
        match r {
            Some(e) => binance_event_type_of(frame@) == Some(opt_string_view(e)),
            None => binance_event_type_of(frame@) is None,
        },
{
    let v: Value = serde_json::from_str(frame).ok()?;
    Some(v.get("data").unwrap_or(&v).get("e").and_then(Value::as_str).map(String::from))
}

/// The kind of event a private-stream frame carries; none when the frame
/// is not JSON.
pub fn private_event_of_frame(frame: &str) -> (r: Option<PrivateEvent>)
    ensures
        r is None <==> binance_event_type_of(frame@) is None,
        binance_event_type_of(frame@) matches Some(e) ==> r == Some(private_event_of(e)),
{
    match binance_event_type(frame) {
        Some(e) => {
            let kind = match &e {
                Some(t) => private_event_kind(Some(t.as_str())),
                None => private_event_kind(None),
            };
            Some(kind)
        },
        None => None,
    }
}

/// Takes the id of the next trading request: the counter moves on by one,
/// wrapping around, and its new value is the id.
pub fn next_binance_request_id(counter: &mut u64) -> (id: u64)
    ensures
        *final(counter) == old(counter).wrapping_add(1),
        id == *final(counter),
{
    *counter = counter.wrapping_add(1);
    *counter
}

} // verus!
