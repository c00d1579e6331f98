//! What the operator's interface shares with the checks: the clock, the
//! events that the checks emit, and the names of its endpoints.

use crate::decimal::{decimal_chars, decimal_text};
use crate::text::{same_str, text_of};
use vstd::prelude::*;

verus! {

/// What an event records.
#[derive(Debug, Clone, Copy, PartialEq, Eq, Structural)]
pub enum EventType {
    Ban,
    Unban,
    Challenge,
    Block,
    AdminAction,
}

/// One entry of the event log.
#[derive(Debug, Clone)]
pub struct EventLogEntry {
    /// Seconds since the Unix epoch.
    pub ts: u64,
    pub event: EventType,
    pub ip: Option<String>,
    pub reason: Option<String>,
    pub outcome: Option<String>,
    pub admin: Option<String>,
}

/// An event as contracts speak of it.
pub struct EventView {
    pub ts: u64,
    pub event: EventType,
    pub ip: Option<Seq<char>>,
    pub reason: Option<Seq<char>>,
    pub outcome: Option<Seq<char>>,
    pub admin: Option<Seq<char>>,
}

/// The characters of an optional string.
pub open spec fn opt_text(s: Option<String>) -> Option<Seq<char>> {
    match s {
        Some(t) => Some(t@),
        None => None,
    }
}

impl View for EventLogEntry {
    type V = EventView;

    open spec fn view(&self) -> EventView {
        EventView {
            ts: self.ts,
            event: self.event,
            ip: opt_text(self.ip),
            reason: opt_text(self.reason),
            outcome: opt_text(self.outcome),
            admin: opt_text(self.admin),
        }
    }
}

/// `SystemTime::now` as whole seconds since the Unix epoch; zero where
/// the clock stands before the epoch. Nothing is known of the value.
#[verifier::external_body]
pub fn now_ts() -> (now: u64) {
    match std::time::SystemTime::now().duration_since(std::time::UNIX_EPOCH) {
        Ok(d) => d.as_secs(),
        Err(_) => 0,
    }
}

/// Seconds in an hour: the width of an event-log bucket.
pub const SECONDS_PER_HOUR: u64 = 3600;

/// The key of the event-log bucket that holds the events of time `ts`.
pub open spec fn event_log_key_of(ts: u64) -> Seq<char> {
    seq!['e', 'v', 'e', 'n', 't', 'l', 'o', 'g', ':'] + decimal_text((ts / 3600) as nat)
}

/// The key of the event-log bucket that holds the events of time `ts`:
/// one bucket for each hour.
pub fn event_log_key(ts: u64) -> (key: String)
    ensures
        key@ == event_log_key_of(ts),
{
    let mut chars: Vec<char> = vec!['e', 'v', 'e', 'n', 't', 'l', 'o', 'g', ':'];
    let mut hour = decimal_chars(ts / SECONDS_PER_HOUR);
    chars.append(&mut hour);
    assert(chars@ =~= event_log_key_of(ts));
    text_of(chars.as_slice())
}

/// Whether `path` names an endpoint of the operator's interface.
pub open spec fn is_admin_endpoint(path: Seq<char>) -> bool {
    path == "/admin"@ || path == "/admin/ban"@ || path == "/admin/unban"@ || path
        == "/admin/analytics"@ || path == "/admin/events"@ || path == "/admin/config"@ || path
        == "/admin/maze"@ || path == "/admin/robots"@ || path == "/admin/cdp"@
}

/// Whether `path` names an endpoint of the operator's interface. Anything
/// else under `/admin` is refused.
pub fn sanitize_path(path: &str) -> (ok: bool)
    ensures
        ok == is_admin_endpoint(path@),
{
    same_str(path, "/admin") || same_str(path, "/admin/ban") || same_str(path, "/admin/unban")
        || same_str(path, "/admin/analytics") || same_str(path, "/admin/events") || same_str(
        path,
        "/admin/config",
    ) || same_str(path, "/admin/maze") || same_str(path, "/admin/robots") || same_str(
        path,
        "/admin/cdp",
    )
}

} // verus!
