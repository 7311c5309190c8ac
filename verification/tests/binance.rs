use perp_auto_hedge::exchange::binance::{
    book_stream_url, cancel_order_params, ensure_market, funding_stream_url, listed_perpetual,
    market, parse_side, parse_status, place_order_params, private_event_kind, private_stream_url,
    query_string, side, sign, sign_params, signed_get_url, tif, trading_reply, PrivateEvent,
    binance_frame_outcome, next_binance_request_id, private_event_of_frame,
};
use perp_auto_hedge::exchange::{
    gate, CancelOrderRequest, ExchangeError, MarketType, OrderStatus, OrderTicket, ReplyOutcome,
    Side, TimeInForce,
};

fn pairs(ps: &[(String, String)]) -> Vec<(&str, &str)> {
    ps.iter().map(|(k, v)| (k.as_str(), v.as_str())).collect()
}

fn ticket(price: Option<&str>) -> OrderTicket {
    OrderTicket {
        market_id: market("BTCUSDT"),
        client_order_id: "c1".into(),
        side: Side::Sell,
        price: price.map(String::from),
        quantity: "0.5".into(),
        time_in_force: TimeInForce::Ioc,
        reduce_only: true,
    }
}

#[test]
fn markets_belong_to_their_adapter() {
    let m = market("BTCUSDT");
    assert_eq!(m.exchange, "binance");
    assert_eq!(m.market_type, MarketType::Perp);
    assert_eq!(m.symbol, "BTCUSDT");
    assert!(ensure_market(&m).is_ok());
    assert_eq!(ensure_market(&gate::market("BTC_USDT")), Err(ExchangeError::WrongBinanceAdapter));
    assert!(gate::ensure_market(&m).is_err());
    let mut spot = m.clone();
    spot.market_type = MarketType::Spot;
    assert!(ensure_market(&spot).is_err());
    assert_eq!(ExchangeError::WrongBinanceAdapter.message(), "wrong binance adapter");
}

#[test]
fn sides_statuses_and_tif() {
    assert_eq!(parse_side("BUY"), Some(Side::Buy));
    assert_eq!(parse_side("SELL"), Some(Side::Sell));
    assert_eq!(parse_side("buy"), None);
    for s in [Side::Buy, Side::Sell] {
        assert_eq!(parse_side(side(s)), Some(s));
    }
    assert_eq!(parse_status("NEW"), Some(OrderStatus::New));
    assert_eq!(parse_status("PARTIALLY_FILLED"), Some(OrderStatus::PartiallyFilled));
    assert_eq!(parse_status("FILLED"), Some(OrderStatus::Filled));
    assert_eq!(parse_status("CANCELED"), Some(OrderStatus::Canceled));
    assert_eq!(parse_status("EXPIRED"), Some(OrderStatus::Canceled));
    assert_eq!(parse_status("EXPIRED_IN_MATCH"), Some(OrderStatus::Canceled));
    assert_eq!(parse_status("REJECTED"), Some(OrderStatus::Rejected));
    assert_eq!(parse_status("PENDING"), None);
    assert_eq!(tif(TimeInForce::Gtc), "GTC");
    assert_eq!(tif(TimeInForce::Ioc), "IOC");
    assert_eq!(tif(TimeInForce::Fok), "FOK");
}

#[test]
fn signature_matches_published_example() {
    let secret = "NhqPtmdSJYdKjVHjA7PZj4Mge3R5YNiP1e3UZjInClVN65XAbvqqM6A7H5fATj0j";
    let query = "symbol=LTCBTC&side=BUY&type=LIMIT&timeInForce=GTC&quantity=1&price=0.1&recvWindow=5000&timestamp=1499827319559";
    assert_eq!(
        sign(secret, query).unwrap(),
        "c8db56825ae71d6d79447849e617115f4a920fa2acdcab2b053c4b2838bd6b71"
    );
    assert_eq!(
        sign("Jefe", "what do ya want for nothing?").unwrap(),
        "5bdcc146bf60754e6a042426089575c75a003f089d2739839dec58b964ec3843"
    );
}

#[test]
fn query_strings_join_parameters() {
    let ps = vec![("a".to_string(), "1".to_string()), ("b".to_string(), "x y".to_string())];
    assert_eq!(query_string(&ps), "a=1&b=x y");
    assert_eq!(query_string(&[]), "");
}

#[test]
fn signed_get_adds_window_time_and_signature() {
    let url = signed_get_url("/fapi/v3/balance", &[], 1_700_000_000_000, "secret").unwrap();
    let q = "recvWindow=5000&timestamp=1700000000000";
    let expected = format!("https://fapi.binance.com/fapi/v3/balance?{q}&signature={}", sign("secret", q).unwrap());
    assert_eq!(url, expected);
    let ps = vec![("symbol".to_string(), "BTCUSDT".to_string())];
    let url = signed_get_url("/x", &ps, 5, "k").unwrap();
    let q = "symbol=BTCUSDT&recvWindow=5000&timestamp=5";
    assert_eq!(url, format!("https://fapi.binance.com/x?{q}&signature={}", sign("k", q).unwrap()));
}

#[test]
fn limit_order_parameters() {
    let ps = place_order_params("key", &ticket(Some("101.5")), 9).unwrap();
    assert_eq!(
        pairs(&ps),
        vec![
            ("apiKey", "key"),
            ("newClientOrderId", "c1"),
            ("price", "101.5"),
            ("quantity", "0.5"),
            ("recvWindow", "5000"),
            ("reduceOnly", "true"),
            ("side", "SELL"),
            ("symbol", "BTCUSDT"),
            ("timeInForce", "IOC"),
            ("timestamp", "9"),
            ("type", "LIMIT"),
        ]
    );
    let mut keys: Vec<&str> = ps.iter().map(|(k, _)| k.as_str()).collect();
    let sorted = { let mut k = keys.clone(); k.sort(); k };
    assert_eq!(keys, sorted);
    keys.dedup();
    assert_eq!(keys.len(), ps.len());
}

#[test]
fn market_order_parameters() {
    let mut t = ticket(None);
    t.reduce_only = false;
    t.side = Side::Buy;
    let ps = place_order_params("key", &t, 10).unwrap();
    assert_eq!(
        pairs(&ps),
        vec![
            ("apiKey", "key"),
            ("newClientOrderId", "c1"),
            ("quantity", "0.5"),
            ("recvWindow", "5000"),
            ("reduceOnly", "false"),
            ("side", "BUY"),
            ("symbol", "BTCUSDT"),
            ("timestamp", "10"),
            ("type", "MARKET"),
        ]
    );
    let mut wrong = t.clone();
    wrong.market_id = gate::market("BTC_USDT");
    assert_eq!(place_order_params("key", &wrong, 10), Err(ExchangeError::WrongBinanceAdapter));
}

#[test]
fn cancel_names_the_order_by_kind_of_id() {
    let r = CancelOrderRequest { market_id: market("ETHUSDT"), order_id: "123456".into() };
    let ps = cancel_order_params("key", &r, 7).unwrap();
    assert_eq!(
        pairs(&ps),
        vec![("apiKey", "key"), ("orderId", "123456"), ("recvWindow", "5000"), ("symbol", "ETHUSDT"), ("timestamp", "7")]
    );
    let r = CancelOrderRequest { market_id: market("ETHUSDT"), order_id: "my-order".into() };
    let ps = cancel_order_params("key", &r, 7).unwrap();
    assert_eq!(ps[1], ("origClientOrderId".to_string(), "my-order".to_string()));
    let keys: Vec<&str> = ps.iter().map(|(k, _)| k.as_str()).collect();
    let mut sorted = keys.clone();
    sorted.sort();
    assert_eq!(keys, sorted);
    let r = CancelOrderRequest { market_id: market("ETHUSDT"), order_id: "99999999999999999999".into() };
    assert_eq!(cancel_order_params("key", &r, 7).unwrap()[1].0, "origClientOrderId");
    let r = CancelOrderRequest { market_id: gate::market("ETH_USDT"), order_id: "1".into() };
    assert_eq!(cancel_order_params("key", &r, 7), Err(ExchangeError::WrongBinanceAdapter));
}

#[test]
fn signing_appends_the_signature() {
    let ps = vec![("a".to_string(), "1".to_string()), ("b".to_string(), "2".to_string())];
    let signed = sign_params("s", ps.clone()).unwrap();
    assert_eq!(signed.len(), 3);
    assert_eq!(&signed[..2], &ps[..]);
    assert_eq!(signed[2], ("signature".to_string(), sign("s", "a=1&b=2").unwrap()));
    assert_eq!(signed[2].1.len(), 64);
    assert!(signed[2].1.chars().all(|c| c.is_ascii_digit() || ('a'..='f').contains(&c)));
}

#[test]
fn trading_replies() {
    assert_eq!(trading_reply(Some(5), Some(200), 5), ReplyOutcome::Accepted);
    assert_eq!(trading_reply(Some(5), Some(299), 5), ReplyOutcome::Accepted);
    assert_eq!(trading_reply(Some(5), Some(300), 5), ReplyOutcome::Rejected);
    assert_eq!(trading_reply(Some(5), Some(400), 5), ReplyOutcome::Rejected);
    assert_eq!(trading_reply(Some(5), None, 5), ReplyOutcome::Rejected);
    assert_eq!(trading_reply(Some(4), Some(200), 5), ReplyOutcome::Unrelated);
    assert_eq!(trading_reply(None, Some(200), 5), ReplyOutcome::Unrelated);
}

#[test]
fn stream_urls() {
    assert_eq!(book_stream_url(&[]), None);
    assert_eq!(funding_stream_url(&[]), None);
    let syms = vec!["BTCUSDT".to_string(), "EthUsdt".to_string()];
    assert_eq!(
        book_stream_url(&syms).unwrap(),
        "wss://fstream.binance.com/public/stream?streams=btcusdt@bookTicker/ethusdt@bookTicker"
    );
    assert_eq!(
        funding_stream_url(&syms[..1]).unwrap(),
        "wss://fstream.binance.com/market/stream?streams=btcusdt@markPrice@1s"
    );
    assert_eq!(
        private_stream_url("abc"),
        "wss://fstream.binance.com/private/ws?listenKey=abc&events=ORDER_TRADE_UPDATE/ACCOUNT_UPDATE"
    );
}

#[test]
fn exchange_info_and_private_events() {
    assert!(listed_perpetual(Some("PERPETUAL"), Some("TRADING")));
    assert!(!listed_perpetual(Some("CURRENT_QUARTER"), Some("TRADING")));
    assert!(!listed_perpetual(Some("PERPETUAL"), Some("BREAK")));
    assert!(!listed_perpetual(None, Some("TRADING")));
    assert!(!listed_perpetual(Some("PERPETUAL"), None));
    assert_eq!(private_event_kind(Some("ORDER_TRADE_UPDATE")), PrivateEvent::OrderTradeUpdate);
    assert_eq!(private_event_kind(Some("ACCOUNT_UPDATE")), PrivateEvent::AccountUpdate);
    assert_eq!(private_event_kind(Some("MARGIN_CALL")), PrivateEvent::Other);
    assert_eq!(private_event_kind(None), PrivateEvent::Other);
}

#[test]
fn reply_frames() {
    assert_eq!(binance_frame_outcome(r#"{"id":5,"status":200,"result":{}}"#, 5), Some(ReplyOutcome::Accepted));
    assert_eq!(binance_frame_outcome(r#"{"id":5,"status":400,"error":{"code":-1}}"#, 5), Some(ReplyOutcome::Rejected));
    assert_eq!(binance_frame_outcome(r#"{"id":5}"#, 5), Some(ReplyOutcome::Rejected));
    assert_eq!(binance_frame_outcome(r#"{"id":4,"status":200}"#, 5), Some(ReplyOutcome::Unrelated));
    assert_eq!(binance_frame_outcome(r#"{"id":"5","status":200}"#, 5), Some(ReplyOutcome::Unrelated));
    assert_eq!(binance_frame_outcome("not json", 5), None);
}

#[test]
fn private_frames() {
    assert_eq!(private_event_of_frame(r#"{"e":"ORDER_TRADE_UPDATE","o":{}}"#), Some(PrivateEvent::OrderTradeUpdate));
    assert_eq!(private_event_of_frame(r#"{"stream":"x","data":{"e":"ACCOUNT_UPDATE"}}"#), Some(PrivateEvent::AccountUpdate));
    assert_eq!(private_event_of_frame(r#"{"data":{"e":"listenKeyExpired"}}"#), Some(PrivateEvent::Other));
    assert_eq!(private_event_of_frame(r#"{"e":1}"#), Some(PrivateEvent::Other));
    assert_eq!(private_event_of_frame("{"), None);
}

#[test]
fn binance_request_ids_count_up_and_wrap() {
    let mut c = 9u64;
    assert_eq!(next_binance_request_id(&mut c), 10);
    assert_eq!(c, 10);
    let mut c = u64::MAX;
    assert_eq!(next_binance_request_id(&mut c), 0);
}
