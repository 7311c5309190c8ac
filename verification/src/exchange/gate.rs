//! Gate USDT perpetual futures: decoding of the binary (SBE) best-bid/offer
//! frames, request construction and signing, and reply handling.

use super::{
    is_success_status, ExchangeError, MarketId, MarketType, OrderStatus, ReplyOutcome, TimeInForce,
};
use crate::crypto::{hmac_sha512, hmac_sha512_of, sha512_of};
use crate::text::{
    opt_str_view, opt_string_view, decimal_chars, hex, hex_chars, is_lower_hex_text, is_text, law_decimal_injective,
    lemma_hex_chars, push_char, push_decimal, same_text, u64_to_decimal, utf8_text,
};
use serde_json::Value;
use vstd::prelude::*;
use vstd::slice::slice_subrange;
use vstd::string::*;
use vstd::utf8::{
    decode_utf8, encode_utf8, encode_utf8_decode_utf8, encode_utf8_valid_utf8, is_ascii_chars,
    is_ascii_chars_encode_utf8, is_char_boundary, is_char_boundary_iff_not_is_continuation_byte,
    is_char_boundary_start_end_of_seq, valid_utf8,
};

verus! {

/// The exchange name carried by Gate markets.
pub const EXCHANGE: &'static str = "gate";

/// The REST API host.
pub const REST_HOST: &'static str = "https://api.gateio.ws";

/// The REST API path prefix, part of every signed text.
pub const REST_PREFIX: &'static str = "/api/v4";

/// The JSON WebSocket URL.
pub const WS_URL: &'static str = "wss://fx-ws.gateio.ws/v4/ws/usdt";

/// The binary (SBE) market-data WebSocket URL.
pub const SBE_WS_URL: &'static str = "wss://fx-ws.gateio.ws/v4/ws/usdt/sbe?sbe_schema_id=1";

/// The schema id of the SBE market-data frames this adapter reads.
pub const SBE_SCHEMA_ID: u16 = 1;

/// The template id of the best-bid/offer frame.
pub const SBE_BBO_TEMPLATE_ID: u16 = 1;

/// The least block length of a best-bid/offer frame.
pub const SBE_BBO_BLOCK_LEN: usize = 59;

/// The channel name of best-bid/offer frames.
pub const BOOK_TICKER_CHANNEL: &'static str = "futures.book_ticker";

/// The unsigned little-endian 16-bit integer at offset `o`.
pub open spec fn le_u16_at(b: Seq<u8>, o: int) -> int {
    b[o] as int + 256 * b[o + 1] as int
}

/// The unsigned little-endian 64-bit integer at offset `o`.
pub open spec fn le_u64_at(b: Seq<u8>, o: int) -> int {
    b[o] as int + 256 * (b[o + 1] as int + 256 * (b[o + 2] as int + 256 * (b[o + 3] as int + 256 * (
    b[o + 4] as int + 256 * (b[o + 5] as int + 256 * (b[o + 6] as int + 256 * b[o + 7] as int))))))
}

/// The two's-complement little-endian 64-bit integer at offset `o`.
pub open spec fn le_i64_at(b: Seq<u8>, o: int) -> int {
    let u = le_u64_at(b, o);
    if u >= 0x8000_0000_0000_0000 {
        u - 0x1_0000_0000_0000_0000
    } else {
        u
    }
}

/// A byte read as a two's-complement 8-bit integer.
pub open spec fn i8_of(b: u8) -> int {
    if b >= 128 {
        b - 256
    } else {
        b as int
    }
}

/// Reads the little-endian `u16` at offset `o`.
pub fn read_u16(v: &[u8], o: usize) -> (r: Result<u16, ExchangeError>)
    ensures
        r is Ok <==> o + 2 <= v@.len(),
        r matches Ok(x) ==> x as int == le_u16_at(v@, o as int),
        r matches Err(e) ==> e == ExchangeError::SbeU16OutOfBounds,
{
    if o > v.len() || v.len() - o < 2 {
        return Err(ExchangeError::SbeU16OutOfBounds);
    }
    let lo = v[o] as u16;
    let hi = v[o + 1] as u16;
    Ok(lo + 256 * hi)
}

/// Reads the little-endian two's-complement `i64` at offset `o`.
pub fn read_i64(v: &[u8], o: usize) -> (r: Result<i64, ExchangeError>)
    ensures
        r is Ok <==> o + 8 <= v@.len(),
        r matches Ok(x) ==> x as int == le_i64_at(v@, o as int),
        r matches Err(e) ==> e == ExchangeError::SbeI64OutOfBounds,
{
    if o > v.len() || v.len() - o < 8 {
        return Err(ExchangeError::SbeI64OutOfBounds);
    }
    let mut u: u64 = v[o + 7] as u64;
    assert(u < 0x100);
    u = u * 256 + v[o + 6] as u64;
    assert(u < 0x1_0000);
    u = u * 256 + v[o + 5] as u64;
    assert(u < 0x100_0000);
    u = u * 256 + v[o + 4] as u64;
    assert(u < 0x1_0000_0000);
    u = u * 256 + v[o + 3] as u64;
    assert(u < 0x100_0000_0000);
    u = u * 256 + v[o + 2] as u64;
    assert(u < 0x1_0000_0000_0000);
    u = u * 256 + v[o + 1] as u64;
    assert(u < 0x100_0000_0000_0000);
    u = u * 256 + v[o] as u64;
    assert(u as int == le_u64_at(v@, o as int));
    if u < 0x8000_0000_0000_0000 {
        Ok(u as i64)
    } else {
        let back: u64 = u64::MAX - u;
        Ok(-(back as i64) - 1)
    }
}

/// Reads the byte at offset `o` as a two's-complement `i8`.
pub fn read_i8(v: &[u8], o: usize) -> (r: Result<i8, ExchangeError>)
    ensures
        r is Ok <==> o < v@.len(),
        r matches Ok(x) ==> x as int == i8_of(v@[o as int]),
        r matches Err(e) ==> e == ExchangeError::SbeI8OutOfBounds,
{
    if o >= v.len() {
        return Err(ExchangeError::SbeI8OutOfBounds);
    }
    let b = v[o];
    if b >= 128 {
        let back: u8 = 255 - b;
        Ok(-(back as i8) - 1)
    } else {
        Ok(b as i8)
    }
}

/// What reading a length-prefixed string at offset `c` gives: its bytes and
/// the offset after it, or the error met.
pub open spec fn var_string_at(raw: Seq<u8>, c: int) -> Result<(Seq<u8>, int), ExchangeError> {
    if c >= raw.len() {
        Err(ExchangeError::SbeStringLengthMissing)
    } else {
        let end = c + 1 + raw[c] as int;
        if end > raw.len() {
            Err(ExchangeError::SbeStringOutOfBounds)
        } else if !valid_utf8(raw.subrange(c + 1, end)) {
            Err(ExchangeError::SbeStringInvalidUtf8)
        } else {
            Ok((raw.subrange(c + 1, end), end))
        }
    }
}

/// Reads a string prefixed by its one-byte length at offset `*o`, and moves
/// `*o` past it.
pub fn read_var_string<'a>(v: &'a [u8], o: &mut usize) -> (r: Result<&'a str, ExchangeError>)
    ensures
        match var_string_at(v@, *old(o) as int) {
            Ok((bytes, end)) => r matches Ok(s) && s.spec_bytes() == bytes && s@ == decode_utf8(bytes)
                && *final(o) == end,
            Err(e) => r == Err::<&str, ExchangeError>(e) && *final(o) == if e
                == ExchangeError::SbeStringLengthMissing {
                *old(o) as int
            } else {
                *old(o) + 1
            },
        },
{
    if *o >= v.len() {
        return Err(ExchangeError::SbeStringLengthMissing);
    }
    let n = v[*o] as usize;
    *o = *o + 1;
    if n > v.len() - *o {
        return Err(ExchangeError::SbeStringOutOfBounds);
    }
    let end = *o + n;
    let bytes = slice_subrange(v, *o, end);
    match utf8_text(bytes) {
        Some(s) => {
            proof {
                encode_utf8_decode_utf8(s@);
            }
            *o = end;
            Ok(s)
        },
        None => Err(ExchangeError::SbeStringInvalidUtf8),
    }
}


/// A best-bid/offer frame as the exchange sends it: prices and sizes are
/// decimal mantissas scaled by the frame's power-of-ten exponents, times are
/// in microseconds, sizes are in contracts.
#[derive(Debug, Clone, PartialEq)]
pub struct SbeBookTicker {
    pub server_time: i64,
    pub engine_time: i64,
    pub update_id: i64,
    pub price_exponent: i8,
    pub size_exponent: i8,
    pub ask_price: i64,
    pub ask_size: i64,
    pub bid_price: i64,
    pub bid_size: i64,
    pub symbol: String,
}

/// The mathematical content of a best-bid/offer frame.
pub struct SbeBookTickerView {
    pub server_time: int,
    pub engine_time: int,
    pub update_id: int,
    pub price_exponent: int,
    pub size_exponent: int,
    pub ask_price: int,
    pub ask_size: int,
    pub bid_price: int,
    pub bid_size: int,
    pub symbol: Seq<char>,
}

impl View for SbeBookTicker {
    type V = SbeBookTickerView;

    open spec fn view(&self) -> SbeBookTickerView {
        SbeBookTickerView {
            server_time: self.server_time as int,
            engine_time: self.engine_time as int,
            update_id: self.update_id as int,
            price_exponent: self.price_exponent as int,
            size_exponent: self.size_exponent as int,
            ask_price: self.ask_price as int,
            ask_size: self.ask_size as int,
            bid_price: self.bid_price as int,
            bid_size: self.bid_size as int,
            symbol: self.symbol@,
        }
    }
}

/// The fields of a best-bid/offer block that starts at offset 8 (after the
/// header): server time, side flag at 16, engine time, update id, the two
/// exponents, then ask price, ask size, bid price and bid size.
pub open spec fn bbo_fields(raw: Seq<u8>, symbol: Seq<char>) -> SbeBookTickerView {
    SbeBookTickerView {
        server_time: le_i64_at(raw, 8),
        engine_time: le_i64_at(raw, 17),
        update_id: le_i64_at(raw, 25),
        price_exponent: i8_of(raw[33]),
        size_exponent: i8_of(raw[34]),
        ask_price: le_i64_at(raw, 35),
        ask_size: le_i64_at(raw, 43),
        bid_price: le_i64_at(raw, 51),
        bid_size: le_i64_at(raw, 59),
        symbol,
    }
}

/// What decoding a binary market-data frame gives. The 8-byte header holds
/// block length, template id and schema id (little-endian `u16`s); frames of
/// other schemas or templates, frames whose side flag is not 2, and frames of
/// other channels are not best-bid/offer updates (`None`). After the block
/// come two length-prefixed strings, the channel and the symbol.
pub open spec fn sbe_book_result(raw: Seq<u8>) -> Result<Option<SbeBookTickerView>, ExchangeError> {
    if raw.len() < 8 {
        Err(ExchangeError::SbeHeaderTooShort)
    } else {
        let block = le_u16_at(raw, 0);
        let template = le_u16_at(raw, 2);
        let schema = le_u16_at(raw, 4);
        if schema != SBE_SCHEMA_ID || template != SBE_BBO_TEMPLATE_ID {
            Ok(None)
        } else if block < SBE_BBO_BLOCK_LEN || raw.len() < 8 + block {
            Err(ExchangeError::SbeBlockInvalid)
        } else if i8_of(raw[16]) != 2 {
            Ok(None)
        } else {
            match var_string_at(raw, 8 + block) {
                Err(e) => Err(e),
                Ok((channel, after_channel)) => match var_string_at(raw, after_channel) {
                    Err(e) => Err(e),
                    Ok((symbol, _)) => if decode_utf8(channel) != BOOK_TICKER_CHANNEL@ {
                        Ok(None)
                    } else {
                        Ok(Some(bbo_fields(raw, decode_utf8(symbol))))
                    },
                },
            }
        }
    }
}

/// Decodes a binary market-data frame (see `sbe_book_result`).
pub fn decode_sbe_book(raw: &[u8]) -> (r: Result<Option<SbeBookTicker>, ExchangeError>)
    ensures
        match r {
            Ok(Some(t)) => sbe_book_result(raw@) == Ok::<Option<SbeBookTickerView>, ExchangeError>(
                Some(t@),
            ),
            Ok(None) => sbe_book_result(raw@) == Ok::<Option<SbeBookTickerView>, ExchangeError>(
                None,
            ),
            Err(e) => sbe_book_result(raw@) == Err::<Option<SbeBookTickerView>, ExchangeError>(e),
        },
{
    if raw.len() < 8 {
        return Err(ExchangeError::SbeHeaderTooShort);
    }
    let block = match read_u16(raw, 0) {
        Ok(x) => x as usize,
        Err(e) => return Err(e),
    };
    let template = match read_u16(raw, 2) {
        Ok(x) => x,
        Err(e) => return Err(e),
    };
    let schema = match read_u16(raw, 4) {
        Ok(x) => x,
        Err(e) => return Err(e),
    };
    if schema != SBE_SCHEMA_ID || template != SBE_BBO_TEMPLATE_ID {
        return Ok(None);
    }
    if block < SBE_BBO_BLOCK_LEN || raw.len() - 8 < block {
        return Err(ExchangeError::SbeBlockInvalid);
    }
    let o: usize = 8;
    let server_time = match read_i64(raw, o) {
        Ok(x) => x,
        Err(e) => return Err(e),
    };
    let side = match read_i8(raw, o + 8) {
        Ok(x) => x,
        Err(e) => return Err(e),
    };
    if side != 2 {
        return Ok(None);
    }
    let engine_time = match read_i64(raw, o + 9) {
        Ok(x) => x,
        Err(e) => return Err(e),
    };
    let update_id = match read_i64(raw, o + 17) {
        Ok(x) => x,
        Err(e) => return Err(e),
    };
    let price_exponent = match read_i8(raw, o + 25) {
        Ok(x) => x,
        Err(e) => return Err(e),
    };
    let size_exponent = match read_i8(raw, o + 26) {
        Ok(x) => x,
        Err(e) => return Err(e),
    };
    let ask_price = match read_i64(raw, o + 27) {
        Ok(x) => x,
        Err(e) => return Err(e),
    };
    let ask_size = match read_i64(raw, o + 35) {
        Ok(x) => x,
        Err(e) => return Err(e),
    };
    let bid_price = match read_i64(raw, o + 43) {
        Ok(x) => x,
        Err(e) => return Err(e),
    };
    let bid_size = match read_i64(raw, o + 51) {
        Ok(x) => x,
        Err(e) => return Err(e),
    };
    let mut cursor: usize = 8 + block;
    let channel = match read_var_string(raw, &mut cursor) {
        Ok(s) => s,
        Err(e) => return Err(e),
    };
    let symbol = match read_var_string(raw, &mut cursor) {
        Ok(s) => s,
        Err(e) => return Err(e),
    };
    if !same_text(channel, BOOK_TICKER_CHANNEL) {
        return Ok(None);
    }
    let t = SbeBookTicker {
        server_time,
        engine_time,
        update_id,
        price_exponent,
        size_exponent,
        ask_price,
        ask_size,
        bid_price,
        bid_size,
        symbol: String::from_str(symbol),
    };
    assert(t@ == bbo_fields(raw@, symbol@));
    Ok(Some(t))
}

impl SbeBookTicker {
    /// Whether the frame carries a bid: its price and size are both positive
    /// (a mantissa scaled by a power of ten keeps its sign).
    pub fn has_bid(&self) -> (r: bool)
        ensures
            r == (self.bid_price > 0 && self.bid_size > 0),
    {
        self.bid_price > 0 && self.bid_size > 0
    }

    /// Whether the frame carries an ask: its price and size are both
    /// positive.
    pub fn has_ask(&self) -> (r: bool)
        ensures
            r == (self.ask_price > 0 && self.ask_size > 0),
    {
        self.ask_price > 0 && self.ask_size > 0
    }

    /// The frame's time in milliseconds: the engine time when it is positive,
    /// else the server time, converted from microseconds; `now_ms` when that
    /// time is negative.
    pub fn timestamp_ms(&self, now_ms: u64) -> (r: u64)
        ensures
            ({
                let t = if self.engine_time > 0 {
                    self.engine_time
                } else {
                    self.server_time
                };
                r == if t >= 0 {
                    (t / 1000) as u64
                } else {
                    now_ms
                }
            }),
    {
        let t = if self.engine_time > 0 {
            self.engine_time
        } else {
            self.server_time
        };
        if t >= 0 {
            (t as u64) / 1000
        } else {
            now_ms
        }
    }

    /// The frame's update id as a sequence number, when it is not negative.
    pub fn sequence(&self) -> (r: Option<u64>)
        ensures
            r == (if self.update_id >= 0 {
                Some(self.update_id as u64)
            } else {
                None
            }),
    {
        if self.update_id >= 0 {
            Some(self.update_id as u64)
        } else {
            None
        }
    }
}


/// Whether a market belongs to this adapter.
pub open spec fn is_gate_market(m: MarketId) -> bool {
    m.exchange@ == EXCHANGE@ && m.market_type == MarketType::Perp
}

/// The perpetual market with the given Gate contract name.
pub fn market(symbol: &str) -> (m: MarketId)
    ensures
        m.exchange@ == EXCHANGE@,
        m.market_type == MarketType::Perp,
        m.symbol@ == symbol@,
{
    MarketId {
        exchange: String::from_str(EXCHANGE),
        market_type: MarketType::Perp,
        symbol: String::from_str(symbol),
    }
}

/// Accepts only Gate perpetual markets.
pub fn ensure_market(m: &MarketId) -> (r: Result<(), ExchangeError>)
    ensures
        r is Ok <==> is_gate_market(*m),
        r matches Err(e) ==> e == ExchangeError::WrongGateAdapter,
{
    if same_text(m.exchange.as_str(), EXCHANGE) && m.market_type == MarketType::Perp {
        Ok(())
    } else {
        Err(ExchangeError::WrongGateAdapter)
    }
}

/// Gate's name for a time in force.
pub open spec fn tif_name(t: TimeInForce) -> Seq<char> {
    match t {
        TimeInForce::Gtc => "gtc"@,
        TimeInForce::Ioc => "ioc"@,
        TimeInForce::Fok => "fok"@,
    }
}

/// Writes a time in force as Gate expects it.
pub fn tif(v: TimeInForce) -> (r: &'static str)
    ensures
        r@ == tif_name(v),
{
    match v {
        TimeInForce::Gtc => "gtc",
        TimeInForce::Ioc => "ioc",
        TimeInForce::Fok => "fok",
    }
}

/// A byte allowed in a client order id: an ASCII letter or digit, `_`, `-`
/// or `.`.
pub open spec fn is_client_id_byte(b: u8) -> bool {
    (48 <= b <= 57) || (65 <= b <= 90) || (97 <= b <= 122) || b == 95 || b == 45 || b == 46
}

/// A client order id's bytes without its `t-` prefix, if it has one.
pub open spec fn client_id_body(b: Seq<u8>) -> Seq<u8> {
    if b.len() >= 2 && b[0] == 116 && b[1] == 45 {
        b.skip(2)
    } else {
        b
    }
}

/// Whether a client order id body is acceptable: 1 to 28 allowed bytes.
pub open spec fn valid_client_id_body(x: Seq<u8>) -> bool {
    0 < x.len() <= 28 && forall|i: int| 0 <= i < x.len() ==> is_client_id_byte(#[trigger] x[i])
}

/// ASCII bytes read as characters.
pub open spec fn ascii_text(x: Seq<u8>) -> Seq<char> {
    x.map_values(|b: u8| b as char)
}

/// Writes a client order id as Gate requires it: the id without any `t-`
/// prefix must be 1 to 28 ASCII letters, digits, `_`, `-` or `.`, and is
/// sent with the prefix `t-`.
pub fn client_id(v: &str) -> (r: Result<String, ExchangeError>)
    ensures
        r is Ok <==> valid_client_id_body(client_id_body(encode_utf8(v@))),
        r matches Ok(s) ==> s@ == seq!['t', '-'] + ascii_text(client_id_body(encode_utf8(v@))),
        r matches Err(e) ==> e == ExchangeError::InvalidGateClientOrderId,
{
    let b = v.as_bytes();
    let ghost x = client_id_body(b@);
    let start: usize = if b.len() >= 2 && b[0] == 116u8 && b[1] == 45u8 {
        2
    } else {
        0
    };
    assert(x =~= b@.skip(start as int));
    let n = b.len() - start;
    if n == 0 || n > 28 {
        return Err(ExchangeError::InvalidGateClientOrderId);
    }
    let mut out = String::new();
    push_char(&mut out, 't');
    push_char(&mut out, '-');
    let mut i: usize = start;
    while i < b.len()
        invariant
            start <= i <= b@.len(),
            x =~= b@.skip(start as int),
            x == client_id_body(encode_utf8(v@)),
            forall|k: int| 0 <= k < i - start ==> is_client_id_byte(#[trigger] x[k]),
            out@ =~= seq!['t', '-'] + ascii_text(x.take(i - start)),
        decreases b@.len() - i,
    {
        let c = b[i];
        let allowed = (48u8 <= c && c <= 57u8) || (65u8 <= c && c <= 90u8) || (97u8 <= c && c
            <= 122u8) || c == 95u8 || c == 45u8 || c == 46u8;
        if !allowed {
            assert(!is_client_id_byte(x[i - start]));
            return Err(ExchangeError::InvalidGateClientOrderId);
        }
        push_char(&mut out, c as char);
        assert(ascii_text(x.take(i - start + 1)) =~= ascii_text(x.take(i - start)).push(c as char));
        i = i + 1;
    }
    assert(x.take(i - start) =~= x);
    Ok(out)
}

/// The signature of `payload` under `secret`: the lowercase hex of the
/// HMAC-SHA512 of the payload's UTF-8 bytes keyed with the secret's.
pub open spec fn signature_of(secret: Seq<char>, payload: Seq<char>) -> Seq<char> {
    hex_chars(hmac_sha512_of(encode_utf8(secret), encode_utf8(payload)))
}

/// Signs a payload with the account secret.
pub fn hmac512(secret: &str, payload: &str) -> (r: Result<String, ExchangeError>)
    ensures
        r is Ok,
        r matches Ok(s) ==> s@ == signature_of(secret@, payload@),
        r matches Ok(s) ==> s@.len() == 128 && is_lower_hex_text(s@),
{
    match hmac_sha512(secret.as_bytes(), payload.as_bytes()) {
        Some(tag) => {
            proof {
                lemma_hex_chars(tag@);
            }
            Ok(hex(tag.as_slice()))
        },
        None => Err(ExchangeError::InvalidGateSecret),
    }
}

/// The lowercase hex SHA-512 digest of a text's UTF-8 bytes.
pub fn sha512(v: &str) -> (r: String)
    ensures
        r@ == hex_chars(sha512_of(encode_utf8(v@))),
{
    let digest = crate::crypto::sha512(v.as_bytes());
    hex(digest.as_slice())
}

/// A signed REST request: where to send it, and the `Timestamp` and `SIGN`
/// headers that go with it.
#[derive(Debug, Clone)]
pub struct SignedRequest {
    pub url: String,
    pub timestamp: String,
    pub signature: String,
}

/// The text a signed GET signs: method, full path, query, the hex SHA-512
/// of the (empty) body and the time in seconds, one per line.
pub open spec fn signed_get_text(path: Seq<char>, query: Seq<char>, timestamp_secs: nat) -> Seq<
    char,
> {
    "GET\n"@ + REST_PREFIX@ + path + "\n"@ + query + "\n"@ + hex_chars(sha512_of(encode_utf8(""@)))
        + "\n"@ + decimal_chars(timestamp_secs)
}

/// The URL of a GET: host, prefix and path, then `?` and the query unless
/// the query is empty.
pub open spec fn get_url(path: Seq<char>, query: Seq<char>) -> Seq<char> {
    REST_HOST@ + REST_PREFIX@ + path + if query.len() == 0 {
        seq![]
    } else {
        "?"@ + query
    }
}

/// Builds a signed GET request to `path` with `query`, made at
/// `timestamp_secs`.
pub fn signed_get_request(path: &str, query: &str, timestamp_secs: u64, secret: &str) -> (r: Result<
    SignedRequest,
    ExchangeError,
>)
    ensures
        r is Ok,
        r matches Ok(req) ==> {
            &&& req.url@ == get_url(path@, query@)
            &&& req.timestamp@ == decimal_chars(timestamp_secs as nat)
            &&& req.signature@ == signature_of(
                secret@,
                signed_get_text(path@, query@, timestamp_secs as nat),
            )
            &&& req.signature@.len() == 128
            &&& is_lower_hex_text(req.signature@)
        },
{
    let body = sha512("");
    let stamp = u64_to_decimal(timestamp_secs);
    let mut text = String::from_str("GET\n");
    text.append(REST_PREFIX);
    text.append(path);
    text.append("\n");
    text.append(query);
    text.append("\n");
    text.append(body.as_str());
    text.append("\n");
    text.append(stamp.as_str());
    let signature = match hmac512(secret, text.as_str()) {
        Ok(s) => s,
        Err(e) => return Err(e),
    };
    proof {
        encode_utf8_decode_utf8(query@);
        assert(decode_utf8(Seq::<u8>::empty()) =~= Seq::<char>::empty());
        assert(encode_utf8(Seq::<char>::empty()) =~= Seq::<u8>::empty());
        if query.spec_bytes().len() == 0 {
            assert(query.spec_bytes() =~= Seq::<u8>::empty());
        }
        if query@.len() == 0 {
            assert(query@ =~= Seq::<char>::empty());
        }
    }
    let nonempty = query.as_bytes().len() != 0;
    assert(nonempty == (query@.len() != 0));
    let mut url = String::from_str(REST_HOST);
    url.append(REST_PREFIX);
    url.append(path);
    if nonempty {
        url.append("?");
        url.append(query);
    }
    assert(url@ =~= get_url(path@, query@));
    Ok(SignedRequest { url, timestamp: stamp, signature })
}

/// The text signed to subscribe to a private channel at `timestamp_secs`.
pub open spec fn subscribe_text(channel: Seq<char>, timestamp_secs: nat) -> Seq<char> {
    "channel="@ + channel + "&event=subscribe&time="@ + decimal_chars(timestamp_secs)
}

/// Signs a private-channel subscription.
pub fn subscribe_signature(secret: &str, channel: &str, timestamp_secs: u64) -> (r: Result<
    String,
    ExchangeError,
>)
    ensures
        r is Ok,
        r matches Ok(s) ==> s@ == signature_of(secret@, subscribe_text(channel@, timestamp_secs as nat)),
        r matches Ok(s) ==> s@.len() == 128 && is_lower_hex_text(s@),
{
    let mut text = String::from_str("channel=");
    text.append(channel);
    text.append("&event=subscribe&time=");
    push_decimal(&mut text, timestamp_secs);
    hmac512(secret, text.as_str())
}

/// The text signed to log in to the trading connection at `timestamp_secs`.
pub open spec fn login_text(timestamp_secs: nat) -> Seq<char> {
    "api\nfutures.login\n\n"@ + decimal_chars(timestamp_secs)
}

/// Signs the trading-connection login.
pub fn login_signature(secret: &str, timestamp_secs: u64) -> (r: Result<String, ExchangeError>)
    ensures
        r is Ok,
        r matches Ok(s) ==> s@ == signature_of(secret@, login_text(timestamp_secs as nat)),
        r matches Ok(s) ==> s@.len() == 128 && is_lower_hex_text(s@),
{
    let mut text = String::from_str("api\nfutures.login\n\n");
    push_decimal(&mut text, timestamp_secs);
    hmac512(secret, text.as_str())
}

/// The request id of the login request: the time in milliseconds followed
/// by `-login`.
pub fn login_request_id(now_ms: u64) -> (r: String)
    ensures
        r@ == decimal_chars(now_ms as nat) + "-login"@,
{
    let mut r = u64_to_decimal(now_ms);
    r.append("-login");
    r
}

/// Takes the next request id: the counter moves on by one (wrapping), and
/// the id is the time in milliseconds, `-`, and the new counter value.
pub fn next_request_id(counter: &mut u64, now_ms: u64) -> (r: String)
    ensures
        *final(counter) == old(counter).wrapping_add(1),
        r@ == decimal_chars(now_ms as nat) + seq!['-'] + decimal_chars(*final(counter) as nat),
{
    *counter = counter.wrapping_add(1);
    let mut r = u64_to_decimal(now_ms);
    push_char(&mut r, '-');
    push_decimal(&mut r, *counter);
    r
}

/// The price and time in force an order is sent with: a limit order's
/// price text and time in force, or `0` and `ioc` for a market order.
pub fn order_price_and_tif(price: Option<String>, time_in_force: TimeInForce) -> (r: (
    String,
    &'static str,
))
    ensures
        match price {
            Some(p) => r.0@ == p@ && r.1@ == tif_name(time_in_force),
            None => r.0@ == "0"@ && r.1@ == "ioc"@,
        },
{
    match price {
        Some(p) => (p, tif(time_in_force)),
        None => (String::from_str("0"), "ioc"),
    }
}

/// The status code carried by a reply header: a textual code read as a
/// `u16`, or a numeric code truncated to 16 bits; 0 when neither applies.
pub open spec fn header_status(status_text: Option<Seq<char>>, status_number: Option<u64>) -> int {
    match status_text {
        Some(t) if crate::text::parse_unsigned(encode_utf8(t), u16::MAX as nat) is Some =>
            crate::text::parse_unsigned(encode_utf8(t), u16::MAX as nat)->Some_0 as int,
        _ => match status_number {
            Some(n) => (n as int) % 0x1_0000,
            None => 0,
        },
    }
}

/// What a trading-API reply with the given `request_id`, `ack` and header
/// status fields means for the request `expected` (see `reply_outcome`).
pub open spec fn reply_outcome_of(
    request_id: Option<Seq<char>>,
    expected: Seq<char>,
    ack: Option<bool>,
    status_text: Option<Seq<char>>,
    status_number: Option<u64>,
) -> ReplyOutcome {
    if request_id != Some(expected) || ack == Some(true) {
        ReplyOutcome::Unrelated
    } else if is_success_status(header_status(status_text, status_number)) {
        ReplyOutcome::Accepted
    } else {
        ReplyOutcome::Rejected
    }
}

/// What a trading-API reply means for the request `expected`: replies with
/// another request id, and acknowledgements, are unrelated; otherwise the
/// header status (see `header_status`) from 200 to 299 is success.
pub fn reply_outcome(
    request_id: Option<&str>,
    expected: &str,
    ack: Option<bool>,
    status_text: Option<&str>,
    status_number: Option<u64>,
) -> (r: ReplyOutcome)
    ensures
        r == reply_outcome_of(
            opt_str_view(request_id),
            expected@,
            ack,
            opt_str_view(status_text),
            status_number,
        ),
{
    if !is_text(request_id, expected) {
        return ReplyOutcome::Unrelated;
    }
    if ack == Some(true) {
        return ReplyOutcome::Unrelated;
    }
    let parsed = match status_text {
        Some(t) => crate::text::parse_unsigned_bytes(t.as_bytes(), 65535),
        None => None,
    };
    let status: u64 = match parsed {
        Some(x) => x,
        None => match status_number {
            Some(n) => n % 65536,
            None => 0,
        },
    };
    if 200 <= status && status < 300 {
        ReplyOutcome::Accepted
    } else {
        ReplyOutcome::Rejected
    }
}

/// A time as Gate writes it, in milliseconds: values below 10^10 are taken
/// to be seconds and scaled.
pub fn timestamp_ms(x: u64) -> (r: u64)
    ensures
        r == (if x < 10_000_000_000 {
            x * 1000
        } else {
            x as int
        }),
{
    if x < 10_000_000_000 {
        x * 1000
    } else {
        x
    }
}


/// The index of the last occurrence of `x` in `b`, or -1.
pub open spec fn last_index_of(b: Seq<u8>, x: u8) -> int
    decreases b.len(),
{
    if b.len() == 0 {
        -1
    } else if b.last() == x {
        b.len() - 1
    } else {
        last_index_of(b.drop_last(), x)
    }
}

proof fn lemma_last_index_bounds(b: Seq<u8>, x: u8)
    ensures
        -1 <= last_index_of(b, x) < b.len(),
        last_index_of(b, x) >= 0 ==> b[last_index_of(b, x)] == x,
    decreases b.len(),
{
    if b.len() > 0 && b.last() != x {
        lemma_last_index_bounds(b.drop_last(), x);
    }
}

fn last_index(b: &[u8], x: u8) -> (r: Option<usize>)
    ensures
        match r {
            Some(i) => i as int == last_index_of(b@, x),
            None => last_index_of(b@, x) == -1,
        },
{
    let mut i: usize = b.len();
    assert(b@.take(i as int) =~= b@);
    while i > 0
        invariant
            i <= b@.len(),
            last_index_of(b@.take(i as int), x) == last_index_of(b@, x),
        decreases i,
    {
        assert(b@.take(i as int).drop_last() =~= b@.take(i - 1));
        if b[i - 1] == x {
            return Some(i - 1);
        }
        i = i - 1;
    }
    None
}

/// Splits a contract name such as `BTC_USDT` at its last `_` into base and
/// quote asset; none when it holds no `_`.
pub fn split_contract_name(name: &str) -> (r: Option<(String, String)>)
    ensures
        r is None <==> last_index_of(encode_utf8(name@), 95) < 0,
        r matches Some(p) ==> {
            let b = encode_utf8(name@);
            let i = last_index_of(b, 95);
            &&& encode_utf8(p.0@) == b.subrange(0, i)
            &&& encode_utf8(p.1@) == b.subrange(i + 1, b.len() as int)
        },
{
    let b = name.as_bytes();
    let idx = match last_index(b, 95u8) {
        Some(i) => i,
        None => return None,
    };
    proof {
        lemma_last_index_bounds(b@, 95);
        encode_utf8_valid_utf8(name@);
        is_char_boundary_iff_not_is_continuation_byte(b@, idx as int);
    }
    let (base, rest) = name.split_at(idx);
    proof {
        let rb = b@.subrange(idx as int, b@.len() as int);
        assert(rest.spec_bytes() == rb);
        encode_utf8_valid_utf8(rest@);
        assert(rb[0] == 95);
        reveal_with_fuel(is_char_boundary, 2);
        if rb.len() == 1 {
            is_char_boundary_start_end_of_seq(rb);
        }
        assert(is_char_boundary(rb, 1));
    }
    let (_underscore, quote) = rest.split_at(1);
    proof {
        encode_utf8_decode_utf8(base@);
        encode_utf8_decode_utf8(quote@);
        assert(quote.spec_bytes() =~= b@.subrange(idx + 1, b@.len() as int));
    }
    Some((String::from_str(base), String::from_str(quote)))
}


/// Whether a contract entry is a direct contract that is trading: both
/// fields are present, `type` is `direct` and `status` is `trading`.
pub fn listed_contract(kind: Option<&str>, status: Option<&str>) -> (r: bool)
    ensures
        r == ((kind matches Some(k) && k@ == "direct"@) && (status matches Some(s) && s@
            == "trading"@)),
{
    is_text(kind, "direct") && is_text(status, "trading")
}

/// The status of an order from Gate's `status` and `finish_as` fields: an
/// open order is partially filled once anything of it has filled and new
/// otherwise; a finished order is filled when it finished as `filled` and
/// canceled otherwise; any other (or missing) status is not understood.
pub open spec fn order_status_of(
    status: Option<Seq<char>>,
    partially_filled: bool,
    finish_as: Option<Seq<char>>,
) -> Option<OrderStatus> {
    match status {
        Some(s) => if s == "open"@ {
            if partially_filled {
                Some(OrderStatus::PartiallyFilled)
            } else {
                Some(OrderStatus::New)
            }
        } else if s == "finished"@ {
            if finish_as == Some("filled"@) {
                Some(OrderStatus::Filled)
            } else {
                Some(OrderStatus::Canceled)
            }
        } else {
            None
        },
        None => None,
    }
}

/// Reads an order's status (see `order_status_of`); `partially_filled` says
/// whether a positive quantity has filled.
pub fn order_status(status: Option<&str>, partially_filled: bool, finish_as: Option<&str>) -> (r:
    Option<OrderStatus>)
    ensures
        r == order_status_of(
            match status {
                Some(s) => Some(s@),
                None => None,
            },
            partially_filled,
            match finish_as {
                Some(f) => Some(f@),
                None => None,
            },
        ),
{
    match status {
        Some(s) => {
            if same_text(s, "open") {
                if partially_filled {
                    Some(OrderStatus::PartiallyFilled)
                } else {
                    Some(OrderStatus::New)
                }
            } else if same_text(s, "finished") {
                if is_text(finish_as, "filled") {
                    Some(OrderStatus::Filled)
                } else {
                    Some(OrderStatus::Canceled)
                }
            } else {
                None
            }
        },
        None => None,
    }
}

/// The kinds of update on the private channels.
#[derive(Debug, Clone, Copy, PartialEq, Eq, Structural)]
pub enum PrivateUpdate {
    Balances,
    Positions,
    Orders,
    UserTrades,
    Ignored,
}

/// The kind of a private-channel message with the given `event` and
/// `channel` (see `private_update_kind`).
pub open spec fn private_update_of(event: Option<Seq<char>>, channel: Option<Seq<char>>) -> PrivateUpdate {
    if event != Some("update"@) {
        PrivateUpdate::Ignored
    } else if channel == Some("futures.balances"@) {
        PrivateUpdate::Balances
    } else if channel == Some("futures.positions"@) {
        PrivateUpdate::Positions
    } else if channel == Some("futures.orders"@) {
        PrivateUpdate::Orders
    } else if channel == Some("futures.usertrades"@) {
        PrivateUpdate::UserTrades
    } else {
        PrivateUpdate::Ignored
    }
}

/// Whether a message with the given `event` and `channel` is a ticker
/// update.
pub open spec fn ticker_update_of(event: Option<Seq<char>>, channel: Option<Seq<char>>) -> bool {
    event == Some("update"@) && channel == Some("futures.tickers"@)
}

/// The kind of a private-channel message from its `event` and `channel`:
/// only `update` events on the four account channels are acted on.
pub fn private_update_kind(event: Option<&str>, channel: Option<&str>) -> (r: PrivateUpdate)
    ensures
        r == private_update_of(opt_str_view(event), opt_str_view(channel)),
{
    if !is_text(event, "update") {
        PrivateUpdate::Ignored
    } else if is_text(channel, "futures.balances") {
        PrivateUpdate::Balances
    } else if is_text(channel, "futures.positions") {
        PrivateUpdate::Positions
    } else if is_text(channel, "futures.orders") {
        PrivateUpdate::Orders
    } else if is_text(channel, "futures.usertrades") {
        PrivateUpdate::UserTrades
    } else {
        PrivateUpdate::Ignored
    }
}

/// Whether a message on the funding connection is a ticker update.
pub fn is_ticker_update(event: Option<&str>, channel: Option<&str>) -> (r: bool)
    ensures
        r == ticker_update_of(opt_str_view(event), opt_str_view(channel)),
{
    is_text(event, "update") && is_text(channel, "futures.tickers")
}


/// Writing a client order id is idempotent: the id that `client_id` makes
/// from an acceptable id is itself acceptable, and writing it again gives
/// it back unchanged.
pub proof fn law_client_id_idempotent(v: Seq<char>)
    requires
        valid_client_id_body(client_id_body(encode_utf8(v))),
    ensures
        ({
            let out = seq!['t', '-'] + ascii_text(client_id_body(encode_utf8(v)));
            &&& valid_client_id_body(client_id_body(encode_utf8(out)))
            &&& seq!['t', '-'] + ascii_text(client_id_body(encode_utf8(out))) == out
        }),
{
    let x = client_id_body(encode_utf8(v));
    let out = seq!['t', '-'] + ascii_text(x);
    assert forall|i: int| 0 <= i < out.len() implies '\0' <= #[trigger] out[i] <= '\u{7f}' by {
        if i >= 2 {
            assert(out[i] == x[i - 2] as char);
            assert(is_client_id_byte(x[i - 2]));
        }
    }
    assert(is_ascii_chars(out));
    is_ascii_chars_encode_utf8(out);
    let e = encode_utf8(out);
    assert(e[0] == 116);
    assert(e[1] == 45);
    assert forall|i: int| 0 <= i < x.len() implies #[trigger] e.skip(2)[i] == x[i] by {
        assert(out[i + 2] == x[i] as char);
        assert(e[i + 2] == out[i + 2] as u8);
    }
    assert(e.skip(2) =~= x);
    assert(client_id_body(e) == x);
}

/// A character allowed in a client order id body as Gate documents it: an
/// ASCII letter, one of the ten digits `0` to `9`, `_`, `-` or `.`.
pub open spec fn documented_id_char(c: char) -> bool {
    ('0' <= c <= '9') || ('a' <= c <= 'z') || ('A' <= c <= 'Z') || c == '_' || c == '-' || c == '.'
}

proof fn lemma_documented_body(w: Seq<char>)
    requires
        forall|i: int| 0 <= i < w.len() ==> documented_id_char(#[trigger] w[i]),
    ensures
        is_ascii_chars(w),
        encode_utf8(w).len() == w.len(),
        forall|i: int| 0 <= i < w.len() ==> is_client_id_byte(#[trigger] encode_utf8(w)[i]),
        ascii_text(encode_utf8(w)) == w,
{
    assert forall|i: int| 0 <= i < w.len() implies '\0' <= #[trigger] w[i] <= '\u{7f}' by {
        assert(documented_id_char(w[i]));
    }
    is_ascii_chars_encode_utf8(w);
    let e = encode_utf8(w);
    assert forall|i: int| 0 <= i < w.len() implies is_client_id_byte(#[trigger] e[i]) by {
        assert(documented_id_char(w[i]));
        assert(e[i] == w[i] as u8);
    }
    assert forall|i: int| 0 <= i < w.len() implies #[trigger] ascii_text(e)[i] == w[i] by {
        assert(e[i] == w[i] as u8);
    }
    assert(ascii_text(e) =~= w);
}

/// Every client order id of 1 to 28 ASCII letters, digits (`0` included),
/// `_`, `-` or `.` is accepted: one that does not start with `t-` is sent as
/// `t-` followed by the id, and one written with the prefix, `t-` followed
/// by such a body, is sent unchanged.
pub proof fn law_client_id_accepts(w: Seq<char>)
    requires
        1 <= w.len() <= 28,
        forall|i: int| 0 <= i < w.len() ==> documented_id_char(#[trigger] w[i]),
    ensures
        !(w.len() >= 2 && w[0] == 't' && w[1] == '-') ==> {
            &&& valid_client_id_body(client_id_body(encode_utf8(w)))
            &&& seq!['t', '-'] + ascii_text(client_id_body(encode_utf8(w))) == seq!['t', '-'] + w
        },
        valid_client_id_body(client_id_body(encode_utf8(seq!['t', '-'] + w))),
        seq!['t', '-'] + ascii_text(client_id_body(encode_utf8(seq!['t', '-'] + w))) == seq![
            't',
            '-',
        ] + w,
{
    lemma_documented_body(w);
    let e = encode_utf8(w);
    if !(w.len() >= 2 && w[0] == 't' && w[1] == '-') {
        if e.len() >= 2 && e[0] == 116 && e[1] == 45 {
            assert(e[0] == w[0] as u8);
            assert(e[1] == w[1] as u8);
            assert(documented_id_char(w[0]));
            assert(documented_id_char(w[1]));
        }
        assert(client_id_body(e) == e);
    }
    let v = seq!['t', '-'] + w;
    assert forall|i: int| 0 <= i < v.len() implies documented_id_char(#[trigger] v[i]) by {
        if i >= 2 {
            assert(v[i] == w[i - 2]);
        }
    }
    lemma_documented_body(v);
    let ev = encode_utf8(v);
    assert(v[0] == 't' && v[1] == '-');
    assert(ev[0] == v[0] as u8);
    assert(ev[1] == v[1] as u8);
    assert(ev[0] == 116);
    assert(ev[1] == 45);
    assert(client_id_body(ev) =~= ev.skip(2));
    assert forall|i: int| 0 <= i < w.len() implies #[trigger] ev.skip(2)[i] == e[i] by {
        assert(ev[i + 2] == v[i + 2] as u8);
        assert(v[i + 2] == w[i]);
        assert(e[i] == w[i] as u8);
    }
    assert(ev.skip(2) =~= e);
}

/// A finished order is filled if and only if it finished as `filled`; it
/// is canceled however else it finished (`ioc`, `cancelled`, `liquidated`,
/// any other value, or none), whether or not part of it had filled.
pub proof fn law_finished_order_status(partially_filled: bool, finish_as: Option<Seq<char>>)
    ensures
        (order_status_of(Some("finished"@), partially_filled, finish_as) == Some(
            OrderStatus::Filled,
        )) <==> finish_as == Some("filled"@),
        finish_as != Some("filled"@) ==> order_status_of(
            Some("finished"@),
            partially_filled,
            finish_as,
        ) == Some(OrderStatus::Canceled),
{
    reveal_strlit("open");
    reveal_strlit("finished");
    assert("open"@.len() != "finished"@.len());
}

/// An open order is partially filled exactly when part of it has filled,
/// and new otherwise, whatever its `finish_as` field holds.
pub proof fn law_open_order_status(partially_filled: bool, finish_as: Option<Seq<char>>)
    ensures
        order_status_of(Some("open"@), partially_filled, finish_as) == Some(
            if partially_filled {
                OrderStatus::PartiallyFilled
            } else {
                OrderStatus::New
            },
        ),
{
}

/// Request ids taken at the same millisecond with different counter values
/// differ, so ids repeat only after the counter wraps around.
pub proof fn law_request_ids_distinct(now_ms: nat, c1: nat, c2: nat)
    requires
        c1 != c2,
    ensures
        decimal_chars(now_ms) + seq!['-'] + decimal_chars(c1) != decimal_chars(now_ms) + seq!['-']
            + decimal_chars(c2),
{
    let p = decimal_chars(now_ms) + seq!['-'];
    let a = p + decimal_chars(c1);
    let b = p + decimal_chars(c2);
    if a == b {
        assert(a.skip(p.len() as int) =~= decimal_chars(c1));
        assert(b.skip(p.len() as int) =~= decimal_chars(c2));
        law_decimal_injective(c1, c2);
    }
}


/// The little-endian bytes of a `u16`.
pub open spec fn le_u16_bytes(x: u16) -> Seq<u8> {
    seq![x as u8, (x >> 8u16) as u8]
}

/// The little-endian bytes of a `u64`.
pub open spec fn le_u64_bytes(x: u64) -> Seq<u8> {
    seq![
        x as u8,
        (x >> 8u64) as u8,
        (x >> 16u64) as u8,
        (x >> 24u64) as u8,
        (x >> 32u64) as u8,
        (x >> 40u64) as u8,
        (x >> 48u64) as u8,
        (x >> 56u64) as u8,
    ]
}

proof fn lemma_le_u16(x: u16)
    ensures
        le_u16_at(le_u16_bytes(x), 0) == x,
{
    let b = le_u16_bytes(x);
    assert(b[0] == x as u8 && b[1] == (x >> 8u16) as u8);
    assert((x as u8) as int + 256 * ((x >> 8u16) as u8) as int == x as int) by (bit_vector);
}

proof fn lemma_le_u64(x: u64)
    ensures
        le_u64_at(le_u64_bytes(x), 0) == x,
{
    let b = le_u64_bytes(x);
    assert(b[0] == x as u8 && b[1] == (x >> 8u64) as u8 && b[2] == (x >> 16u64) as u8 && b[3] == (x
        >> 24u64) as u8 && b[4] == (x >> 32u64) as u8 && b[5] == (x >> 40u64) as u8 && b[6] == (x
        >> 48u64) as u8 && b[7] == (x >> 56u64) as u8);
    assert((x as u8) as int + 256 * (((x >> 8u64) as u8) as int + 256 * (((x >> 16u64) as u8) as int
        + 256 * (((x >> 24u64) as u8) as int + 256 * (((x >> 32u64) as u8) as int + 256 * (((x
        >> 40u64) as u8) as int + 256 * (((x >> 48u64) as u8) as int + 256 * ((x >> 56u64) as u8) as int))))))
        == x as int) by (bit_vector);
}


proof fn lemma_le_i64(x: i64)
    ensures
        le_i64_at(le_u64_bytes(x as u64), 0) == x,
{
    lemma_le_u64(x as u64);
    assert(x >= 0 ==> (x as u64) as int == x as int) by (bit_vector);
    assert(x < 0 ==> (x as u64) as int == x as int + 0x1_0000_0000_0000_0000) by (bit_vector);
}

proof fn lemma_i8_byte(x: i8)
    ensures
        i8_of(x as u8) == x,
{
    assert(x >= 0 ==> (x as u8) as int == x as int) by (bit_vector);
    assert(x < 0 ==> (x as u8) as int == x as int + 256) by (bit_vector);
}


/// The header of a best-bid/offer frame: block length 59, template and
/// schema 1, and the given schema version.
pub open spec fn bbo_header(version: u16) -> Seq<u8> {
    le_u16_bytes(59u16) + le_u16_bytes(1u16) + le_u16_bytes(1u16) + le_u16_bytes(version)
}

/// The block of a best-bid/offer frame holding the fields of `t`, with side
/// flag 2.
pub open spec fn bbo_block(t: SbeBookTicker) -> Seq<u8> {
    le_u64_bytes(t.server_time as u64) + seq![2u8] + le_u64_bytes(t.engine_time as u64)
        + le_u64_bytes(t.update_id as u64) + seq![t.price_exponent as u8, t.size_exponent as u8]
        + le_u64_bytes(t.ask_price as u64) + le_u64_bytes(t.ask_size as u64) + le_u64_bytes(
        t.bid_price as u64,
    ) + le_u64_bytes(t.bid_size as u64)
}

/// Bytes preceded by their one-byte length.
pub open spec fn length_prefixed(s: Seq<u8>) -> Seq<u8> {
    seq![s.len() as u8] + s
}

/// The best-bid/offer frame the exchange sends for `t`.
pub open spec fn bbo_frame(t: SbeBookTicker, version: u16) -> Seq<u8> {
    bbo_header(version) + bbo_block(t) + length_prefixed(encode_utf8(BOOK_TICKER_CHANNEL@))
        + length_prefixed(encode_utf8(t.symbol@))
}

proof fn lemma_u64_field(raw: Seq<u8>, o: int, x: u64)
    requires
        0 <= o,
        o + 8 <= raw.len(),
        raw.subrange(o, o + 8) == le_u64_bytes(x),
    ensures
        le_u64_at(raw, o) == x,
{
    lemma_le_u64(x);
    let b = raw.subrange(o, o + 8);
    assert(raw[o] == b[0] && raw[o + 1] == b[1] && raw[o + 2] == b[2] && raw[o + 3] == b[3] && raw[o
        + 4] == b[4] && raw[o + 5] == b[5] && raw[o + 6] == b[6] && raw[o + 7] == b[7]);
}

proof fn lemma_i64_field(raw: Seq<u8>, o: int, x: i64)
    requires
        0 <= o,
        o + 8 <= raw.len(),
        raw.subrange(o, o + 8) == le_u64_bytes(x as u64),
    ensures
        le_i64_at(raw, o) == x,
{
    lemma_u64_field(raw, o, x as u64);
    lemma_le_i64(x);
}

proof fn lemma_channel_bytes()
    ensures
        encode_utf8(BOOK_TICKER_CHANNEL@).len() == 19,
{
    reveal_strlit("futures.book_ticker");
    assert(is_ascii_chars(BOOK_TICKER_CHANNEL@));
    is_ascii_chars_encode_utf8(BOOK_TICKER_CHANNEL@);
}

proof fn lemma_length_prefixed_read(raw: Seq<u8>, c: int, s: Seq<u8>)
    requires
        0 <= c,
        s.len() < 256,
        c + 1 + s.len() <= raw.len(),
        raw.subrange(c, c + 1 + s.len()) == length_prefixed(s),
        valid_utf8(s),
    ensures
        var_string_at(raw, c) == Ok::<(Seq<u8>, int), ExchangeError>((s, c + 1 + s.len())),
{
    let p = length_prefixed(s);
    let w = raw.subrange(c, c + 1 + s.len());
    assert(raw[c] == w[0]);
    assert(w[0] == p[0]);
    assert forall|i: int| 0 <= i < s.len() implies #[trigger] raw.subrange(
        c + 1,
        c + 1 + s.len(),
    )[i] == s[i] by {
        assert(raw[c + 1 + i] == w[1 + i]);
        assert(p[1 + i] == s[i]);
    }
    assert(raw.subrange(c + 1, c + 1 + s.len()) =~= s);
}

/// Decoding gives back what was encoded: the frame the exchange sends for a
/// best-bid/offer update decodes to exactly that update, whatever the schema
/// version and the field values, for any symbol of fewer than 256 bytes.
#[verifier::rlimit(40)]
pub proof fn law_sbe_frame_roundtrip(t: SbeBookTicker, version: u16)
    requires
        encode_utf8(t.symbol@).len() < 256,
    ensures
        sbe_book_result(bbo_frame(t, version)) == Ok::<Option<SbeBookTickerView>, ExchangeError>(
            Some(t@),
        ),
{
    let h = bbo_header(version);
    let b = bbo_block(t);
    lemma_channel_bytes();
    let ch = encode_utf8(BOOK_TICKER_CHANNEL@);
    let sy = encode_utf8(t.symbol@);
    let lc = length_prefixed(ch);
    let ls = length_prefixed(sy);
    let raw = bbo_frame(t, version);
    assert(h.len() == 8);
    assert(b.len() == 59);
    assert(raw.len() == 67 + 20 + 1 + sy.len());
    assert(raw.subrange(0, 2) =~= le_u16_bytes(59u16));
    assert(raw.subrange(2, 4) =~= le_u16_bytes(1u16));
    assert(raw.subrange(4, 6) =~= le_u16_bytes(1u16));
    lemma_le_u16(59u16);
    lemma_le_u16(1u16);
    assert(raw[0] == raw.subrange(0, 2)[0] && raw[1] == raw.subrange(0, 2)[1]);
    assert(raw[2] == raw.subrange(2, 4)[0] && raw[3] == raw.subrange(2, 4)[1]);
    assert(raw[4] == raw.subrange(4, 6)[0] && raw[5] == raw.subrange(4, 6)[1]);
    assert(le_u16_at(raw, 0) == 59);
    assert(le_u16_at(raw, 2) == 1);
    assert(le_u16_at(raw, 4) == 1);
    assert(raw[16] == 2);
    assert(raw.subrange(8, 16) =~= le_u64_bytes(t.server_time as u64));
    assert(raw.subrange(17, 25) =~= le_u64_bytes(t.engine_time as u64));
    assert(raw.subrange(25, 33) =~= le_u64_bytes(t.update_id as u64));
    assert(raw.subrange(35, 43) =~= le_u64_bytes(t.ask_price as u64));
    assert(raw.subrange(43, 51) =~= le_u64_bytes(t.ask_size as u64));
    assert(raw.subrange(51, 59) =~= le_u64_bytes(t.bid_price as u64));
    assert(raw.subrange(59, 67) =~= le_u64_bytes(t.bid_size as u64));
    lemma_i64_field(raw, 8, t.server_time);
    lemma_i64_field(raw, 17, t.engine_time);
    lemma_i64_field(raw, 25, t.update_id);
    lemma_i64_field(raw, 35, t.ask_price);
    lemma_i64_field(raw, 43, t.ask_size);
    lemma_i64_field(raw, 51, t.bid_price);
    lemma_i64_field(raw, 59, t.bid_size);
    assert(raw[33] == t.price_exponent as u8);
    assert(raw[34] == t.size_exponent as u8);
    lemma_i8_byte(t.price_exponent);
    lemma_i8_byte(t.size_exponent);
    encode_utf8_valid_utf8(BOOK_TICKER_CHANNEL@);
    encode_utf8_valid_utf8(t.symbol@);
    encode_utf8_decode_utf8(BOOK_TICKER_CHANNEL@);
    encode_utf8_decode_utf8(t.symbol@);
    assert(raw.subrange(67, 87) =~= lc);
    assert(raw.subrange(87, 88 + sy.len() as int) =~= ls);
    lemma_length_prefixed_read(raw, 67, ch);
    lemma_length_prefixed_read(raw, 87, sy);
    assert(bbo_fields(raw, t.symbol@) == t@);
}


/// The text views of a trading-API reply's picked fields.
pub open spec fn gate_reply_view(
    r: Option<(Option<String>, Option<bool>, Option<String>, Option<u64>)>,
) -> Option<(Option<Seq<char>>, Option<bool>, Option<Seq<char>>, Option<u64>)> {
    match r {
        Some((id, ack, st, sn)) => Some((opt_string_view(id), ack, opt_string_view(st), sn)),
        None => None,
    }
}

/// The `request_id`, `ack`, and header status (as text and as an unsigned
/// integer) fields of a trading-API reply frame; none when the frame is not
/// JSON.
pub uninterp spec fn gate_reply_of(frame: Seq<char>) -> Option<
    (Option<Seq<char>>, Option<bool>, Option<Seq<char>>, Option<u64>),
>;

/// Reads a reply frame through `serde_json::from_str::<Value>`, then picks
/// `request_id` (`as_str`), `ack` (`as_bool`) and `header.status` (`as_str`
/// and `as_u64`). Claimed: the result's view is `gate_reply_of` the frame.
#[verifier::external_body]
fn gate_reply_fields(frame: &str) -> (r: Option<(Option<String>, Option<bool>, Option<String>, Option<u64>)>)
    ensures
        gate_reply_view(r) == gate_reply_of(frame@),
{
    let v: Value = serde_json::from_str(frame).ok()?;
    let status = &v["header"]["status"];
    Some((
        v.get("request_id").and_then(Value::as_str).map(String::from),
        v["ack"].as_bool(),
        status.as_str().map(String::from),
        status.as_u64(),
    ))
}

/// What a trading-API reply frame means for the request `expected`; none
/// when the frame is not JSON.
pub fn gate_frame_outcome(frame: &str, expected: &str) -> (r: Option<ReplyOutcome>)
    ensures
        r is None <==> gate_reply_of(frame@) is None,
        gate_reply_of(frame@) matches Some((id, ack, st, sn)) ==> r == Some(
            reply_outcome_of(id, expected@, ack, st, sn),
        ),
{
    match gate_reply_fields(frame) {
        Some((id, ack, st, sn)) => {
            let id_ref: Option<&str> = match &id {
                Some(t) => Some(t.as_str()),
                None => None,
            };
            let st_ref: Option<&str> = match &st {
                Some(t) => Some(t.as_str()),
                None => None,
            };
            Some(reply_outcome(id_ref, expected, ack, st_ref, sn))
        },
        None => None,
    }
}

/// The `event` and `channel` fields of a JSON frame; none when the frame is
/// not JSON.
pub uninterp spec fn gate_event_channel_of(frame: Seq<char>) -> Option<
    (Option<Seq<char>>, Option<Seq<char>>),
>;

/// Reads a frame through `serde_json::from_str::<Value>`, then picks `event`
/// and `channel` (`Value::get`, `Value::as_str`). Claimed: the result's view
/// is `gate_event_channel_of` the frame.
#[verifier::external_body]
fn gate_event_channel(frame: &str) -> (r: Option<(Option<String>, Option<String>)>)
    ensures
        match r {
            Some((e, c)) => gate_event_channel_of(frame@) == Some(
                (opt_string_view(e), opt_string_view(c)),
            ),
            None => gate_event_channel_of(frame@) is None,
        },
{
    let v: Value = serde_json::from_str(frame).ok()?;
    Some((
        v.get("event").and_then(Value::as_str).map(String::from),
        v.get("channel").and_then(Value::as_str).map(String::from),
    ))
}

fn as_opt_str(o: &Option<String>) -> (r: Option<&str>)
    ensures
        opt_str_view(r) == opt_string_view(*o),
{
    match o {
        Some(t) => Some(t.as_str()),
        None => None,
    }
}

/// The kind of update a private-channel frame carries; none when the frame
/// is not JSON.
pub fn private_update_of_frame(frame: &str) -> (r: Option<PrivateUpdate>)
    ensures
        r is None <==> gate_event_channel_of(frame@) is None,
        gate_event_channel_of(frame@) matches Some((e, c)) ==> r == Some(private_update_of(e, c)),
{
    match gate_event_channel(frame) {
        Some((e, c)) => Some(private_update_kind(as_opt_str(&e), as_opt_str(&c))),
        None => None,
    }
}

/// Whether a frame on the funding connection is a ticker update; none when
/// the frame is not JSON.
pub fn ticker_update_of_frame(frame: &str) -> (r: Option<bool>)
    ensures
        r is None <==> gate_event_channel_of(frame@) is None,
        gate_event_channel_of(frame@) matches Some((e, c)) ==> r == Some(ticker_update_of(e, c)),
{
    match gate_event_channel(frame) {
        Some((e, c)) => Some(is_ticker_update(as_opt_str(&e), as_opt_str(&c))),
        None => None,
    }
}

/// The `error` field of a JSON frame, if present: whether it is `null`, and
/// its JSON text; none when the frame is not JSON.
pub uninterp spec fn gate_error_of(frame: Seq<char>) -> Option<Option<(bool, Seq<char>)>>;

/// Reads a frame through `serde_json::from_str::<Value>`, then picks `error`
/// (`Value::get`) with `Value::is_null` and its JSON text (`to_string`).
/// Claimed: the result's view is `gate_error_of` the frame.
#[verifier::external_body]
fn gate_error_field(frame: &str) -> (r: Option<Option<(bool, String)>>)
    ensures
        match r {
            Some(Some((null, text))) => gate_error_of(frame@) == Some(Some((null, text@))),
            Some(None) => gate_error_of(frame@) == Some(None::<(bool, Seq<char>)>),
            None => gate_error_of(frame@) is None,
        },
{
    let v: Value = serde_json::from_str(frame).ok()?;
    match v.get("error") {
        Some(e) => Some(Some((e.is_null(), e.to_string()))),
        None => Some(None),
    }
}

/// What a text frame on the binary market-data connection says about the
/// subscription.
#[derive(Debug, Clone, PartialEq, Eq)]
pub enum SubscriptionReply {
    /// The frame is not JSON.
    NotJson,
    /// The subscription failed; the error's JSON text.
    Failed(String),
    /// Nothing to act on (no error, or a `null` one).
    Fine,
}

/// Reads a text frame on the binary market-data connection: an `error`
/// field that is present and not `null` means the subscription failed.
pub fn subscription_reply(frame: &str) -> (r: SubscriptionReply)
    ensures
        match gate_error_of(frame@) {
            None => r == SubscriptionReply::NotJson,
            Some(Some((false, text))) => r matches SubscriptionReply::Failed(t) && t@ == text,
            Some(_) => r == SubscriptionReply::Fine,
        },
{
    match gate_error_field(frame) {
        None => SubscriptionReply::NotJson,
        Some(Some((null, text))) => {
            if null {
                SubscriptionReply::Fine
            } else {
                SubscriptionReply::Failed(text)
            }
        },
        Some(None) => SubscriptionReply::Fine,
    }
}

} // verus!
