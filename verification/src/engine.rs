//! The engine's handling of system events: what it logs and when it stops.

use crate::logging::{info_line, Logger};
use vstd::prelude::*;

verus! {

/// The kinds of event the engine receives.
#[derive(Debug, Clone, Copy, PartialEq, Eq, Structural)]
pub enum SystemEventKind {
    Started,
    Market,
    Account,
    Execution,
    Shutdown,
}

/// What the engine does with one event: the line it logs, if any, and
/// whether it stops.
#[derive(Debug, Clone)]
pub struct EngineStep {
    pub log: Option<String>,
    pub stop: bool,
}

/// The message the engine logs for an event kind; market events are not
/// logged.
pub open spec fn event_message(kind: SystemEventKind) -> Option<Seq<char>> {
    match kind {
        SystemEventKind::Started => Some("engine received started event"@),
        SystemEventKind::Market => None,
        SystemEventKind::Account => Some("engine received account event"@),
        SystemEventKind::Execution => Some("engine received execution event"@),
        SystemEventKind::Shutdown => Some("engine shutting down"@),
    }
}

/// The message the engine logs when it starts.
pub const STARTED_MESSAGE: &'static str = "engine started";

/// The line the engine logs when it starts, if logging is on.
pub fn started(logger: &Logger) -> (line: Option<String>)
    ensures
        line is Some <==> logger.enabled,
        line matches Some(l) ==> l@ == info_line(STARTED_MESSAGE@),
{
    logger.info(STARTED_MESSAGE)
}

/// Handles one event: logs its message (see `event_message`) when logging
/// is on, and stops exactly on shutdown.
pub fn step(logger: &Logger, kind: SystemEventKind) -> (s: EngineStep)
    ensures
        s.stop == (kind == SystemEventKind::Shutdown),
        s.log is Some <==> (logger.enabled && event_message(kind) is Some),
        s.log matches Some(l) ==> l@ == info_line(event_message(kind)->Some_0),
{
    match kind {
        SystemEventKind::Started => EngineStep {
            log: logger.info("engine received started event"),
            stop: false,
        },
        SystemEventKind::Market => EngineStep { log: None, stop: false },
        SystemEventKind::Account => EngineStep {
            log: logger.info("engine received account event"),
            stop: false,
        },
        SystemEventKind::Execution => EngineStep {
            log: logger.info("engine received execution event"),
            stop: false,
        },
        SystemEventKind::Shutdown => EngineStep {
            log: logger.info("engine shutting down"),
            stop: true,
        },
    }
}

} // verus!
