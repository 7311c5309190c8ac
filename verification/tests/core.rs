use perp_auto_hedge::config::{load_credentials, Config};
use perp_auto_hedge::engine::{started, step, SystemEventKind};
use perp_auto_hedge::exchange::{self, MarketId, MarketType};
use perp_auto_hedge::logging::{self, Logger};
use perp_auto_hedge::pair::{Pair, PairRuntime};
use perp_auto_hedge::state::PairState;
use perp_auto_hedge::{execution, market};

fn s(v: &str) -> Option<String> {
    Some(v.to_string())
}

#[test]
fn credentials_need_both_keys_non_empty() {
    let c = load_credentials(s("key"), s("secret")).unwrap();
    assert_eq!(c.api_key, "key");
    assert_eq!(c.secret_key, "secret");
    assert!(load_credentials(None, s("secret")).is_none());
    assert!(load_credentials(s("key"), None).is_none());
    assert!(load_credentials(s(""), s("secret")).is_none());
    assert!(load_credentials(s("key"), s("")).is_none());
}

#[test]
fn config_defaults_to_info() {
    let c = Config::from_values(None, s("a"), s("b"), None, s("d"));
    assert_eq!(c.log_level, "info");
    assert_eq!(c.binance_credentials.unwrap().api_key, "a");
    assert!(c.gate_credentials.is_none());
    let c = Config::from_values(s("off"), None, None, s("g"), s("h"));
    assert_eq!(c.log_level, "off");
    assert_eq!(c.gate_credentials.unwrap().secret_key, "h");
}

#[test]
fn logging_is_off_only_for_off() {
    assert!(!logging::init("off").enabled);
    assert!(!logging::init("OFF").enabled);
    assert!(!logging::init("oFf").enabled);
    assert!(logging::init("info").enabled);
    assert!(logging::init("offline").enabled);
    assert!(logging::init("").enabled);
    let on = Logger { enabled: true };
    assert_eq!(on.info("hello"), Some("[INFO] hello".to_string()));
    assert_eq!(Logger { enabled: false }.info("hello"), None);
}

#[test]
fn modules_log_their_start() {
    let on = Logger { enabled: true };
    let off = Logger { enabled: false };
    assert_eq!(exchange::init(&on).unwrap(), "[INFO] exchange module initialized");
    assert_eq!(market::init(&on).unwrap(), "[INFO] market module initialized");
    assert_eq!(execution::init(&on).unwrap(), "[INFO] execution module initialized");
    assert_eq!(started(&on).unwrap(), "[INFO] engine started");
    assert!(exchange::init(&off).is_none());
    assert!(market::init(&off).is_none());
    assert!(execution::init(&off).is_none());
}

#[test]
fn engine_stops_only_on_shutdown() {
    let on = Logger { enabled: true };
    let cases = [
        (SystemEventKind::Started, Some("[INFO] engine received started event"), false),
        (SystemEventKind::Market, None, false),
        (SystemEventKind::Account, Some("[INFO] engine received account event"), false),
        (SystemEventKind::Execution, Some("[INFO] engine received execution event"), false),
        (SystemEventKind::Shutdown, Some("[INFO] engine shutting down"), true),
    ];
    for (kind, log, stop) in cases {
        let s = step(&on, kind);
        assert_eq!(s.log.as_deref(), log);
        assert_eq!(s.stop, stop);
        assert!(step(&Logger { enabled: false }, kind).log.is_none());
    }
}

#[test]
fn new_pair_is_warming_up() {
    let m = |sym: &str| MarketId {
        exchange: "binance".into(),
        market_type: MarketType::Perp,
        symbol: sym.into(),
    };
    let pair = Pair { id: "p1".into(), base_asset: "BTC".into(), leg_a: m("BTCUSDT"), leg_b: m("BTCUSDC") };
    let r: PairRuntime<u32> = PairRuntime::new(pair.clone());
    assert_eq!(r.pair, pair);
    assert_eq!(r.state, PairState::WarmingUp);
    assert!(r.active_trade.is_none());
}
