//! Whether informational log lines are written, and what they say.

use crate::text::{eq_ignore_ascii_case, text_eq_ignore_ascii_case};
use vstd::prelude::*;
use vstd::string::*;
use vstd::utf8::encode_utf8;

verus! {

/// The log level that turns logging off (compared ignoring ASCII case).
pub const OFF_LEVEL: &'static str = "off";

/// The logging settings chosen at start-up.
#[derive(Debug, Clone, Copy)]
pub struct Logger {
    pub enabled: bool,
}

/// Whether a configured log level turns logging off: it is `off` in any
/// ASCII letter case.
pub open spec fn turns_logging_off(level: Seq<char>) -> bool {
    eq_ignore_ascii_case(encode_utf8(level), encode_utf8(OFF_LEVEL@))
}

/// Chooses the logging settings for a configured level: logging is on
/// unless the level is `off` (in any ASCII case).
pub fn init(level: &str) -> (logger: Logger)
    ensures
        logger.enabled == !turns_logging_off(level@),
{
    Logger { enabled: !text_eq_ignore_ascii_case(level, OFF_LEVEL) }
}

/// The line an informational message is written as.
pub open spec fn info_line(message: Seq<char>) -> Seq<char> {
    "[INFO] "@ + message
}

impl Logger {
    /// The line to write for an informational message: `[INFO] ` followed
    /// by the message when logging is on, nothing when it is off.
    pub fn info(&self, message: &str) -> (line: Option<String>)
        ensures
            line is Some <==> self.enabled,
            line matches Some(l) ==> l@ == info_line(message@),
    {
        if self.enabled {
            let mut l = String::from_str("[INFO] ");
            l.append(message);
            Some(l)
        } else {
            None
        }
    }
}

} // verus!
