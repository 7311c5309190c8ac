//! Start-up configuration: the log level and each exchange's credentials,
//! chosen from the values found in the environment.

use vstd::prelude::*;
use vstd::string::*;

verus! {

/// The log level used when none is configured.
pub const DEFAULT_LOG_LEVEL: &'static str = "info";

/// The environment variable that sets the log level.
pub const LOG_LEVEL_VAR: &'static str = "PERP_AUTO_HEDGE_LOG";

/// The environment variable holding the Binance API key.
pub const BINANCE_API_KEY_VAR: &'static str = "PERP_AUTO_HEDGE_BINANCE_API_KEY";

/// The environment variable holding the Binance secret key.
pub const BINANCE_SECRET_KEY_VAR: &'static str = "PERP_AUTO_HEDGE_BINANCE_SECRET_KEY";

/// The environment variable naming the API key used on Gate.io.
pub const GATE_API_KEY_VAR: &'static str = "PERP_AUTO_HEDGE_GATE_API_KEY";

/// The environment variable naming the secret key used on Gate.io.
pub const GATE_SECRET_KEY_VAR: &'static str = "PERP_AUTO_HEDGE_GATE_SECRET_KEY";

/// An exchange account's API key and secret.
#[derive(Debug, Clone)]
pub struct ExchangeCredentials {
    pub api_key: String,
    pub secret_key: String,
}

/// The bot's configuration.
#[derive(Debug, Clone)]
pub struct Config {
    pub log_level: String,
    pub binance_credentials: Option<ExchangeCredentials>,
    pub gate_credentials: Option<ExchangeCredentials>,
}

/// The credentials that an API key and a secret key make: present only when
/// both are set and neither is empty.
pub open spec fn credentials_of(api_key: Option<Seq<char>>, secret_key: Option<Seq<char>>) -> Option<
    (Seq<char>, Seq<char>),
> {
    match (api_key, secret_key) {
        (Some(a), Some(s)) => if a.len() == 0 || s.len() == 0 {
            None
        } else {
            Some((a, s))
        },
        _ => None,
    }
}

/// The text views of an optional string.
pub open spec fn opt_view(s: Option<String>) -> Option<Seq<char>> {
    match s {
        Some(t) => Some(t@),
        None => None,
    }
}

/// The text views of optional credentials.
pub open spec fn credentials_view(c: Option<ExchangeCredentials>) -> Option<(Seq<char>, Seq<char>)> {
    match c {
        Some(k) => Some((k.api_key@, k.secret_key@)),
        None => None,
    }
}

/// Makes credentials from the configured API key and secret key (see
/// `credentials_of`).
pub fn load_credentials(api_key: Option<String>, secret_key: Option<String>) -> (r: Option<
    ExchangeCredentials,
>)
    ensures
        credentials_view(r) == credentials_of(opt_view(api_key), opt_view(secret_key)),
{
    let api_key = match api_key {
        Some(a) => a,
        None => return None,
    };
    let secret_key = match secret_key {
        Some(s) => s,
        None => return None,
    };
    if api_key.as_str().is_empty() || secret_key.as_str().is_empty() {
        return None;
    }
    Some(ExchangeCredentials { api_key, secret_key })
}

impl Config {
    /// The configuration from the configured values: the log level
    /// defaults to `info`, and each exchange's credentials are made by
    /// `load_credentials`.
    pub fn from_values(
        log_level: Option<String>,
        binance_api_key: Option<String>,
        binance_secret_key: Option<String>,
        gate_api_key: Option<String>,
        gate_secret_key: Option<String>,
    ) -> (c: Config)
        ensures
            c.log_level@ == (match log_level {
                Some(l) => l@,
                None => DEFAULT_LOG_LEVEL@,
            }),
            credentials_view(c.binance_credentials) == credentials_of(
                opt_view(binance_api_key),
                opt_view(binance_secret_key),
            ),
            credentials_view(c.gate_credentials) == credentials_of(
                opt_view(gate_api_key),
                opt_view(gate_secret_key),
            ),
    {
        let log_level = match log_level {
            Some(l) => l,
            None => String::from_str(DEFAULT_LOG_LEVEL),
        };
        Config {
            log_level,
            binance_credentials: load_credentials(binance_api_key, binance_secret_key),
            gate_credentials: load_credentials(gate_api_key, gate_secret_key),
        }
    }
}

} // verus!
