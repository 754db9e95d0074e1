//! The data the engine keeps: monitor definitions, control messages and
//! paging arguments.
use vstd::prelude::*;

verus! {

/// How a monitor's liveness is checked.
#[derive(Debug, Clone, Copy, PartialEq, Eq, Structural)]
pub enum MonitorKind {
    /// The target contacts the engine.
    Heartbeat,
    /// The engine contacts the target.
    Ping,
}

/// A registered monitor's definition.
#[derive(Debug, Clone)]
pub struct Monitor {
    pub id: String,
    pub kind: MonitorKind,
    pub schedule: String,
    pub url: Option<String>,
    pub secret: Option<String>,
}

/// A control message for a monitor's worker.
#[derive(Debug, Clone, Copy, PartialEq, Eq, Structural)]
pub enum Message {
    Shutdown,
    Heartbeat,
}

/// Paging arguments of a listing, 1-indexed.
#[derive(Debug, Clone, Copy, PartialEq, Eq, Structural)]
pub struct Page {
    pub size: usize,
    pub page: usize,
}

pub const DEFAULT_PAGE_SIZE: usize = 25;

impl Default for Page {
    fn default() -> (r: Self)
        ensures
            r.size == DEFAULT_PAGE_SIZE,
            r.page == 1,
    {
        Page { size: DEFAULT_PAGE_SIZE, page: 1 }
    }
}

/// A copy of an optional string, equal to it.
pub fn copy_text(s: &Option<String>) -> (r: Option<String>)
    ensures
        r == *s,
{
    match s {
        Some(t) => Some(t.clone()),
        None => None,
    }
}

impl Monitor {
    /// A field-for-field copy of this definition.
    pub fn snapshot(&self) -> (r: Monitor)
        ensures
            r == *self,
    {
        Monitor {
            id: self.id.clone(),
            kind: self.kind,
            schedule: self.schedule.clone(),
            url: copy_text(&self.url),
            secret: copy_text(&self.secret),
        }
    }
}

/// The rule for a heartbeat's shared secret: both absent, or both present
/// and equal.
pub open spec fn secrets_agree(stored: Option<String>, supplied: Option<String>) -> bool {
    match (stored, supplied) {
        (Some(a), Some(b)) => a@ == b@,
        (None, None) => true,
        _ => false,
    }
}

/// Whether a supplied secret satisfies a monitor's stored secret.
pub fn secrets_match(stored: &Option<String>, supplied: &Option<String>) -> (r: bool)
    ensures
        r == secrets_agree(*stored, *supplied),
{
    match (stored, supplied) {
        (Some(a), Some(b)) => *a == *b,
        (None, None) => true,
        _ => false,
    }
}

} // verus!
