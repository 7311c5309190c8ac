//! The market module's start-up.

use crate::logging::{info_line, Logger};
use vstd::prelude::*;

verus! {

/// The message the market module logs when it starts.
pub const INIT_MESSAGE: &'static str = "market module initialized";

/// Starts the market module: the line it logs, if logging is on.
pub fn init(logger: &Logger) -> (line: Option<String>)
    ensures
        line is Some <==> logger.enabled,
        line matches Some(l) ==> l@ == info_line(INIT_MESSAGE@),
{
    logger.info(INIT_MESSAGE)
}

} // verus!
