//! The decisions of a monitor's worker: which loop it runs, what each
//! control message or poll result turns into, and the events it broadcasts.
use vstd::prelude::*;
use crate::models::{Message, Monitor, MonitorKind};

verus! {

/// Seconds a ping worker waits before each poll.
pub const PING_INTERVAL_SECS: u64 = 3;

/// A status event broadcast to a monitor's subscribers.
#[derive(Debug, Clone, Copy, PartialEq, Eq, Structural)]
pub enum Event {
    HeartbeatReceived,
    PingSucceeded,
    PingFailed,
}

impl Event {
    pub open spec fn spec_name(self) -> Seq<char> {
        match self {
            Event::HeartbeatReceived => "heartbeat"@,
            _ => "ping"@,
        }
    }

    pub open spec fn spec_message(self) -> Seq<char> {
        match self {
            Event::HeartbeatReceived => "heartbeat received!"@,
            Event::PingSucceeded => "ping succeeded!"@,
            Event::PingFailed => "ping failed"@,
        }
    }

    /// The event's name on the event stream.
    pub fn name(&self) -> (r: &'static str)
        ensures
            r@ == self.spec_name(),
    {
        match self {
            Event::HeartbeatReceived => "heartbeat",
            _ => "ping",
        }
    }

    /// The human-readable message of the event's payload.
    pub fn message(&self) -> (r: &'static str)
        ensures
            r@ == self.spec_message(),
    {
        match self {
            Event::HeartbeatReceived => "heartbeat received!",
            Event::PingSucceeded => "ping succeeded!",
            Event::PingFailed => "ping failed",
        }
    }

    /// Whether the event reports a live target.
    pub fn status(&self) -> (r: bool)
        ensures
            r == (*self != Event::PingFailed),
    {
        !matches!(self, Event::PingFailed)
    }
}

/// The loop a worker runs, chosen once when it starts.
#[derive(Debug, Clone)]
pub enum WorkerPlan {
    /// Poll this url every `PING_INTERVAL_SECS` seconds.
    Poll(String),
    /// Wait for control messages.
    Listen,
}

/// The loop for a monitor: heartbeat monitors listen, ping monitors poll
/// their url; a ping monitor without a url gets no worker.
pub fn worker_plan(monitor: &Monitor) -> (r: Option<WorkerPlan>)
    ensures
        monitor.kind == MonitorKind::Heartbeat ==> r == Some(WorkerPlan::Listen),
        monitor.kind == MonitorKind::Ping && monitor.url is None ==> r is None,
        monitor.kind == MonitorKind::Ping && monitor.url is Some ==> r == Some(
            WorkerPlan::Poll(monitor.url->Some_0),
        ),
{
    match monitor.kind {
        MonitorKind::Heartbeat => Some(WorkerPlan::Listen),
        MonitorKind::Ping => match &monitor.url {
            Some(u) => Some(WorkerPlan::Poll(u.clone())),
            None => None,
        },
    }
}

/// What a listening worker does with a control message: broadcast an event
/// for a heartbeat, or stop (`None`) on shutdown.
pub fn on_message(msg: Message) -> (r: Option<Event>)
    ensures
        msg == Message::Heartbeat ==> r == Some(Event::HeartbeatReceived),
        msg == Message::Shutdown ==> r is None,
{
    match msg {
        Message::Heartbeat => Some(Event::HeartbeatReceived),
        Message::Shutdown => None,
    }
}

/// The event for one poll: the response's status code, or `None` when no
/// response came. Only a success status (2xx) counts as alive.
pub fn classify_ping(status: Option<u16>) -> (r: Event)
    ensures
        r == (match status {
            Some(s) => if 200 <= s < 300 {
                Event::PingSucceeded
            } else {
                Event::PingFailed
            },
            None => Event::PingFailed,
        }),
{
    match status {
        Some(s) => if 200 <= s && s < 300 {
            Event::PingSucceeded
        } else {
            Event::PingFailed
        },
        None => Event::PingFailed,
    }
}

} // verus!
