//! A typed event bus. Handlers are accepted and events emitted; no event
//! is delivered yet.
use vstd::prelude::*;

verus! {

/// The event bus.
pub struct EventBus;

impl EventBus {
    /// An empty bus.
    pub fn new() -> (r: Self)
        ensures
            r == EventBus,
    {
        EventBus
    }

    /// Registers `handler` for events of type `event_type`; the bus keeps
    /// no handlers, so it is unchanged.
    pub fn on<F, E>(&mut self, event_type: &str, handler: F)
        where
            F: Fn(&E),
        ensures
            *final(self) == *old(self),
    {
    }

    /// Emits `event`; the bus delivers nothing and is unchanged.
    pub fn emit<E>(&mut self, event: &E)
        ensures
            *final(self) == *old(self),
    {
    }
}

} // verus!
