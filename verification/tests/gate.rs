use perp_auto_hedge::exchange::gate::{decode_sbe_book, SBE_BBO_BLOCK_LEN, SBE_BBO_TEMPLATE_ID, SBE_SCHEMA_ID};

fn push(v: &mut Vec<u8>, s: &str) {
    v.push(s.len() as u8);
    v.extend_from_slice(s.as_bytes());
}

fn scaled(m: i64, e: i8) -> f64 {
    m as f64 * 10_f64.powi(e as i32)
}

#[test]
fn sbe_bbo_is_decoded_to_base_quantity() {
    let multiplier = 0.0001;
    let mut v = vec![];
    v.extend_from_slice(&(SBE_BBO_BLOCK_LEN as u16).to_le_bytes());
    v.extend_from_slice(&SBE_BBO_TEMPLATE_ID.to_le_bytes());
    v.extend_from_slice(&SBE_SCHEMA_ID.to_le_bytes());
    v.extend_from_slice(&1_u16.to_le_bytes());
    v.extend_from_slice(&1_700_000_000_000_000_i64.to_le_bytes());
    v.push(2);
    v.extend_from_slice(&1_700_000_000_001_000_i64.to_le_bytes());
    v.extend_from_slice(&42_i64.to_le_bytes());
    v.push((-1_i8) as u8);
    v.push(0);
    v.extend_from_slice(&1010_i64.to_le_bytes());
    v.extend_from_slice(&20_i64.to_le_bytes());
    v.extend_from_slice(&1000_i64.to_le_bytes());
    v.extend_from_slice(&10_i64.to_le_bytes());
    push(&mut v, "futures.book_ticker");
    push(&mut v, "BTC_USDT");
    let b = decode_sbe_book(&v).unwrap().unwrap();
    assert!(b.has_bid() && b.has_ask());
    assert_eq!(scaled(b.bid_price, b.price_exponent), 100.0);
    assert_eq!(scaled(b.ask_price, b.price_exponent), 101.0);
    assert_eq!(scaled(b.bid_size, b.size_exponent) * multiplier, 0.001);
    assert_eq!(scaled(b.ask_size, b.size_exponent) * multiplier, 0.002);
    assert_eq!(b.timestamp_ms(0), 1_700_000_000_001);
    assert_eq!(b.sequence(), Some(42));
    assert_eq!(b.symbol, "BTC_USDT");
}

use perp_auto_hedge::exchange::gate::{
    client_id, ensure_market, hmac512, is_ticker_update, listed_contract, login_request_id,
    login_signature, market, next_request_id, order_price_and_tif, order_status,
    private_update_kind, read_i64, read_i8, read_u16, read_var_string, reply_outcome, sha512,
    signed_get_request, split_contract_name, subscribe_signature, timestamp_ms, tif,
    PrivateUpdate, SbeBookTicker, gate_frame_outcome, private_update_of_frame, subscription_reply,
    ticker_update_of_frame, SubscriptionReply,
};
use perp_auto_hedge::exchange::{binance, ExchangeError, OrderStatus, ReplyOutcome, TimeInForce};

fn frame(t: &SbeBookTicker, channel: &str, side_flag: u8) -> Vec<u8> {
    let mut v = vec![];
    v.extend_from_slice(&59u16.to_le_bytes());
    v.extend_from_slice(&1u16.to_le_bytes());
    v.extend_from_slice(&1u16.to_le_bytes());
    v.extend_from_slice(&7u16.to_le_bytes());
    v.extend_from_slice(&t.server_time.to_le_bytes());
    v.push(side_flag);
    v.extend_from_slice(&t.engine_time.to_le_bytes());
    v.extend_from_slice(&t.update_id.to_le_bytes());
    v.push(t.price_exponent as u8);
    v.push(t.size_exponent as u8);
    v.extend_from_slice(&t.ask_price.to_le_bytes());
    v.extend_from_slice(&t.ask_size.to_le_bytes());
    v.extend_from_slice(&t.bid_price.to_le_bytes());
    v.extend_from_slice(&t.bid_size.to_le_bytes());
    push(&mut v, channel);
    push(&mut v, &t.symbol);
    v
}

fn sample() -> SbeBookTicker {
    SbeBookTicker {
        server_time: -5,
        engine_time: i64::MIN,
        update_id: -1,
        price_exponent: -128,
        size_exponent: 127,
        ask_price: i64::MAX,
        ask_size: 0,
        bid_price: -3,
        bid_size: 1,
        symbol: "ÉTH_USDT".into(),
    }
}

#[test]
fn sbe_frames_decode_to_what_was_encoded() {
    let t = sample();
    assert_eq!(decode_sbe_book(&frame(&t, "futures.book_ticker", 2)), Ok(Some(t.clone())));
    assert!(!t.has_bid());
    assert!(!t.has_ask());
    assert_eq!(t.timestamp_ms(99), 99);
    assert_eq!(t.sequence(), None);
}

#[test]
fn sbe_non_bbo_frames_are_skipped() {
    let t = sample();
    assert_eq!(decode_sbe_book(&frame(&t, "futures.trades", 2)), Ok(None));
    assert_eq!(decode_sbe_book(&frame(&t, "futures.book_ticker", 1)), Ok(None));
    let mut other_schema = frame(&t, "futures.book_ticker", 2);
    other_schema[4] = 2;
    assert_eq!(decode_sbe_book(&other_schema), Ok(None));
    let mut other_template = frame(&t, "futures.book_ticker", 2);
    other_template[2] = 9;
    assert_eq!(decode_sbe_book(&other_template), Ok(None));
}

#[test]
fn sbe_malformed_frames_are_errors() {
    let t = sample();
    let good = frame(&t, "futures.book_ticker", 2);
    assert_eq!(decode_sbe_book(&good[..7]), Err(ExchangeError::SbeHeaderTooShort));
    assert_eq!(decode_sbe_book(&good[..60]), Err(ExchangeError::SbeBlockInvalid));
    let mut short_block = good.clone();
    short_block[0] = 58;
    assert_eq!(decode_sbe_book(&short_block), Err(ExchangeError::SbeBlockInvalid));
    assert_eq!(decode_sbe_book(&good[..67]), Err(ExchangeError::SbeStringLengthMissing));
    assert_eq!(decode_sbe_book(&good[..70]), Err(ExchangeError::SbeStringOutOfBounds));
    let mut bad_utf8 = good.clone();
    bad_utf8[68] = 0xff;
    assert_eq!(decode_sbe_book(&bad_utf8), Err(ExchangeError::SbeStringInvalidUtf8));
    assert_eq!(ExchangeError::SbeBlockInvalid.message(), "gate SBE BBO block invalid");
}

#[test]
fn sbe_primitive_reads() {
    let v = [0x34u8, 0x12, 0xff, 0xff, 0xff, 0xff, 0xff, 0xff, 0xff, 0xff];
    assert_eq!(read_u16(&v, 0), Ok(0x1234));
    assert_eq!(read_u16(&v, 9), Err(ExchangeError::SbeU16OutOfBounds));
    assert_eq!(read_u16(&v, usize::MAX), Err(ExchangeError::SbeU16OutOfBounds));
    assert_eq!(read_i64(&v, 2), Ok(-1));
    assert_eq!(read_i64(&v, 3), Err(ExchangeError::SbeI64OutOfBounds));
    assert_eq!(read_i8(&v, 2), Ok(-1));
    assert_eq!(read_i8(&v, 0), Ok(0x34));
    assert_eq!(read_i8(&v, 10), Err(ExchangeError::SbeI8OutOfBounds));
    let s = [3u8, b'a', b'b', b'c', 9];
    let mut o = 0usize;
    assert_eq!(read_var_string(&s, &mut o), Ok("abc"));
    assert_eq!(o, 4);
    assert_eq!(read_var_string(&s, &mut o), Err(ExchangeError::SbeStringOutOfBounds));
    let mut o = 5usize;
    assert_eq!(read_var_string(&s, &mut o), Err(ExchangeError::SbeStringLengthMissing));
}

#[test]
fn sbe_time_and_sequence() {
    let mut t = sample();
    t.engine_time = 1_700_000_000_001_999;
    t.server_time = 5;
    t.update_id = 0;
    assert_eq!(t.timestamp_ms(0), 1_700_000_000_001);
    assert_eq!(t.sequence(), Some(0));
    t.engine_time = 0;
    t.server_time = 2_500;
    assert_eq!(t.timestamp_ms(0), 2);
    t.bid_price = 1;
    t.bid_size = 1;
    assert!(t.has_bid());
}

#[test]
fn gate_markets_and_tif() {
    let m = market("BTC_USDT");
    assert_eq!(m.exchange, "gate");
    assert!(ensure_market(&m).is_ok());
    assert_eq!(ensure_market(&binance::market("BTCUSDT")), Err(ExchangeError::WrongGateAdapter));
    assert_eq!(tif(TimeInForce::Gtc), "gtc");
    assert_eq!(tif(TimeInForce::Ioc), "ioc");
    assert_eq!(tif(TimeInForce::Fok), "fok");
}

#[test]
fn client_ids() {
    assert_eq!(client_id("abc").unwrap(), "t-abc");
    assert_eq!(client_id("t-abc").unwrap(), "t-abc");
    assert_eq!(client_id("A_b-c.9").unwrap(), "t-A_b-c.9");
    assert_eq!(client_id(&"x".repeat(28)).unwrap(), format!("t-{}", "x".repeat(28)));
    assert_eq!(client_id(&"x".repeat(29)), Err(ExchangeError::InvalidGateClientOrderId));
    assert_eq!(client_id(""), Err(ExchangeError::InvalidGateClientOrderId));
    assert_eq!(client_id("t-"), Err(ExchangeError::InvalidGateClientOrderId));
    assert_eq!(client_id("a b"), Err(ExchangeError::InvalidGateClientOrderId));
    assert_eq!(client_id("é"), Err(ExchangeError::InvalidGateClientOrderId));
    for id in ["abc", "t-abc", "t-t-x", "Z"] {
        let once = client_id(id).unwrap();
        assert_eq!(client_id(&once).unwrap(), once);
    }
}

#[test]
fn gate_signatures() {
    assert_eq!(
        hmac512("Jefe", "what do ya want for nothing?").unwrap(),
        "164b7a7bfcf819e2e395fbe73b56e0a387bd64222e831fd610270cd7ea2505549758bf75c05a994a6d034f65f8f0e6fdcaeab1a34d4a6b4b636e070a38bce737"
    );
    assert_eq!(
        sha512(""),
        "cf83e1357eefb8bdf1542850d66d8007d620e4050b5715dc83f4a921d36ce9ce47d0d13c5d85f2b0ff8318d2877eec2f63b931bd47417a81a538327af927da3e"
    );
    let r = signed_get_request("/futures/usdt/orders", "status=open", 1700000000, "s").unwrap();
    assert_eq!(r.url, "https://api.gateio.ws/api/v4/futures/usdt/orders?status=open");
    assert_eq!(r.timestamp, "1700000000");
    let text = format!("GET\n/api/v4/futures/usdt/orders\nstatus=open\n{}\n1700000000", sha512(""));
    assert_eq!(r.signature, hmac512("s", &text).unwrap());
    let r = signed_get_request("/futures/usdt/accounts", "", 1, "s").unwrap();
    assert_eq!(r.url, "https://api.gateio.ws/api/v4/futures/usdt/accounts");
    assert_eq!(
        subscribe_signature("s", "futures.orders", 12).unwrap(),
        hmac512("s", "channel=futures.orders&event=subscribe&time=12").unwrap()
    );
    assert_eq!(login_signature("s", 12).unwrap(), hmac512("s", "api\nfutures.login\n\n12").unwrap());
    assert_eq!(login_request_id(55), "55-login");
    for sig in [r.signature.clone(), login_signature("k", 1).unwrap(), subscribe_signature("k", "c", 2).unwrap()] {
        assert_eq!(sig.len(), 128);
        assert!(sig.chars().all(|c| c.is_ascii_digit() || ('a'..='f').contains(&c)));
    }
}

#[test]
fn request_ids_count_up_and_wrap() {
    let mut c = 7u64;
    assert_eq!(next_request_id(&mut c, 100), "100-8");
    assert_eq!(c, 8);
    assert_ne!(next_request_id(&mut c, 100), "100-8");
    let mut c = u64::MAX;
    assert_eq!(next_request_id(&mut c, 1), "1-0");
    assert_eq!(c, 0);
}

#[test]
fn order_prices_replies_and_times() {
    assert_eq!(order_price_and_tif(Some("1.5".into()), TimeInForce::Fok), ("1.5".to_string(), "fok"));
    assert_eq!(order_price_and_tif(None, TimeInForce::Gtc), ("0".to_string(), "ioc"));
    assert_eq!(reply_outcome(Some("r1"), "r1", None, Some("200"), None), ReplyOutcome::Accepted);
    assert_eq!(reply_outcome(Some("r1"), "r1", Some(false), None, Some(201)), ReplyOutcome::Accepted);
    assert_eq!(reply_outcome(Some("r1"), "r1", None, None, Some(65536 + 200)), ReplyOutcome::Accepted);
    assert_eq!(reply_outcome(Some("r1"), "r1", None, Some("abc"), None), ReplyOutcome::Rejected);
    assert_eq!(reply_outcome(Some("r1"), "r1", None, Some("70000"), None), ReplyOutcome::Rejected);
    assert_eq!(reply_outcome(Some("r1"), "r1", None, None, None), ReplyOutcome::Rejected);
    assert_eq!(reply_outcome(Some("r1"), "r1", Some(true), Some("200"), None), ReplyOutcome::Unrelated);
    assert_eq!(reply_outcome(Some("r2"), "r1", None, Some("200"), None), ReplyOutcome::Unrelated);
    assert_eq!(reply_outcome(None, "r1", None, Some("200"), None), ReplyOutcome::Unrelated);
    assert_eq!(timestamp_ms(1_700_000_000), 1_700_000_000_000);
    assert_eq!(timestamp_ms(9_999_999_999), 9_999_999_999_000);
    assert_eq!(timestamp_ms(10_000_000_000), 10_000_000_000);
}

#[test]
fn contract_entries() {
    assert_eq!(split_contract_name("BTC_USDT"), Some(("BTC".to_string(), "USDT".to_string())));
    assert_eq!(split_contract_name("A_B_C"), Some(("A_B".to_string(), "C".to_string())));
    assert_eq!(split_contract_name("BTC_"), Some(("BTC".to_string(), "".to_string())));
    assert_eq!(split_contract_name("BTCUSDT"), None);
    assert!(listed_contract(Some("direct"), Some("trading")));
    assert!(!listed_contract(Some("inverse"), Some("trading")));
    assert!(!listed_contract(Some("direct"), Some("delisting")));
    assert!(!listed_contract(None, Some("trading")));
    assert_eq!(order_status(Some("open"), true, None), Some(OrderStatus::PartiallyFilled));
    assert_eq!(order_status(Some("open"), false, None), Some(OrderStatus::New));
    assert_eq!(order_status(Some("finished"), true, Some("filled")), Some(OrderStatus::Filled));
    assert_eq!(order_status(Some("finished"), true, Some("cancelled")), Some(OrderStatus::Canceled));
    assert_eq!(order_status(Some("finished"), false, None), Some(OrderStatus::Canceled));
    assert_eq!(order_status(Some("other"), false, None), None);
    assert_eq!(order_status(None, false, None), None);
    assert_eq!(private_update_kind(Some("update"), Some("futures.balances")), PrivateUpdate::Balances);
    assert_eq!(private_update_kind(Some("update"), Some("futures.positions")), PrivateUpdate::Positions);
    assert_eq!(private_update_kind(Some("update"), Some("futures.orders")), PrivateUpdate::Orders);
    assert_eq!(private_update_kind(Some("update"), Some("futures.usertrades")), PrivateUpdate::UserTrades);
    assert_eq!(private_update_kind(Some("subscribe"), Some("futures.orders")), PrivateUpdate::Ignored);
    assert_eq!(private_update_kind(Some("update"), Some("futures.tickers")), PrivateUpdate::Ignored);
    assert!(is_ticker_update(Some("update"), Some("futures.tickers")));
    assert!(!is_ticker_update(Some("subscribe"), Some("futures.tickers")));
    assert!(!is_ticker_update(Some("update"), None));
}

#[test]
fn gate_frames() {
    let ok = r#"{"request_id":"r1","header":{"status":"200"},"data":{}}"#;
    assert_eq!(gate_frame_outcome(ok, "r1"), Some(ReplyOutcome::Accepted));
    assert_eq!(gate_frame_outcome(ok, "r2"), Some(ReplyOutcome::Unrelated));
    assert_eq!(gate_frame_outcome(r#"{"request_id":"r1","ack":true,"header":{"status":"200"}}"#, "r1"), Some(ReplyOutcome::Unrelated));
    assert_eq!(gate_frame_outcome(r#"{"request_id":"r1","header":{"status":400}}"#, "r1"), Some(ReplyOutcome::Rejected));
    assert_eq!(gate_frame_outcome(r#"{"request_id":"r1","header":{"status":65736}}"#, "r1"), Some(ReplyOutcome::Accepted));
    assert_eq!(gate_frame_outcome("[", "r1"), None);
    assert_eq!(private_update_of_frame(r#"{"event":"update","channel":"futures.orders","result":[]}"#), Some(PrivateUpdate::Orders));
    assert_eq!(private_update_of_frame(r#"{"event":"subscribe","channel":"futures.orders"}"#), Some(PrivateUpdate::Ignored));
    assert_eq!(private_update_of_frame("x"), None);
    assert_eq!(ticker_update_of_frame(r#"{"event":"update","channel":"futures.tickers","result":[]}"#), Some(true));
    assert_eq!(ticker_update_of_frame(r#"{"event":"update","channel":"futures.orders"}"#), Some(false));
    assert_eq!(ticker_update_of_frame(""), None);
    assert_eq!(subscription_reply(r#"{"error":{"code":2,"message":"bad"}}"#), SubscriptionReply::Failed(r#"{"code":2,"message":"bad"}"#.to_string()));
    assert_eq!(subscription_reply(r#"{"error":null,"result":{"status":"success"}}"#), SubscriptionReply::Fine);
    assert_eq!(subscription_reply(r#"{"result":{}}"#), SubscriptionReply::Fine);
    assert_eq!(subscription_reply("nope"), SubscriptionReply::NotJson);
}
