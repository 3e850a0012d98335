//! The terminal event loop's poll interval.

use vstd::prelude::*;
use std::time::Duration;

verus! {

/// Polls the terminal for input every `tick_rate`.
pub struct EventHandler {
    tick_rate: Duration,
}

impl EventHandler {
    /// The poll interval.
    pub closed spec fn interval(&self) -> Duration {
        self.tick_rate
    }

    pub fn new(tick_rate: Duration) -> (r: EventHandler)
        ensures
            r.interval() == tick_rate,
    {
        EventHandler { tick_rate }
    }

    /// How long one poll waits for a key.
    pub fn tick_rate(&self) -> (r: &Duration)
        ensures
            *r == self.interval(),
    {
        &self.tick_rate
    }
}

} // verus!
