use vstd::prelude::*;

verus! {

/// Control events broadcast by the model to every block.
#[derive(Clone, Copy, Debug, PartialEq, Eq, Structural)]
pub enum SystemEvent {
    /// Start of the run; carries the shared epoch in nanoseconds.
    Start(u64),
    Stop,
}

/// The kinds of data events.
#[derive(Clone, Copy, Debug, PartialEq, Eq, Structural)]
pub enum EventType {
    Trigger,
}

/// A data event. `timestamp` is in nanoseconds relative to the run's epoch.
#[derive(Clone, Copy, Debug, PartialEq, Eq, Structural)]
pub struct Event {
    pub timestamp: u64,
    pub event_type: EventType,
}

/// The event type that a configuration names. `Trigger` is the only type so
/// far, and every name stands for it.
pub fn event_type_named(name: &str) -> (r: EventType)
    ensures
        r == EventType::Trigger,
{
    EventType::Trigger
}

impl Event {
    pub fn new(timestamp: u64, event_type: EventType) -> (r: Event)
        ensures
            r.timestamp == timestamp,
            r.event_type == event_type,
    {
        Event { timestamp, event_type }
    }
}

} // verus!
