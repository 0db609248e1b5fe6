//! The transport clock that every part of a track reads.
use vstd::prelude::*;

verus! {

/// A point on the transport timeline, counted in ticks from its start.
#[derive(Debug, Clone, Copy, PartialEq, Eq, Structural)]
pub struct TimeStamp {
    pub tick: u64,
}

/// The transport clock of one render pass.
///
/// It is a plain value: two parts of a track read the same clock when they
/// hold equal time managers. Handing a track a new clock is done through
/// [`TimeKeeper::set_time_manager`], which passes it on to every part.
#[derive(Debug, Clone, Copy, PartialEq, Eq, Structural)]
pub struct TimeManager {
    pub origin: TimeStamp,
}

impl TimeManager {
    /// The clock whose time origin is `origin`.
    pub fn new(origin: TimeStamp) -> (t: Self)
        ensures
            t.origin == origin,
    {
        TimeManager { origin }
    }

    /// The time origin of the current render.
    pub fn zero(&self) -> (z: TimeStamp)
        ensures
            z == self.origin,
    {
        self.origin
    }
}

impl Default for TimeManager {
    /// The clock that starts at tick 0.
    fn default() -> (t: Self)
        ensures
            t.origin.tick == 0,
    {
        TimeManager { origin: TimeStamp { tick: 0 } }
    }
}

/// A part that reads the transport clock and can be given a new one.
pub trait TimeKeeper {
    /// Makes `time_manager` the clock that this part reads from now on.
    fn set_time_manager(&mut self, time_manager: TimeManager);
}

} // verus!
