//! Control values and the manager that evaluates them over time.
use crate::time::{TimeKeeper, TimeManager};
use vstd::prelude::*;

verus! {

/// A control value, such as the velocity of a note.
#[derive(Debug, Clone, Copy, PartialEq, Eq, Structural)]
pub enum CtrlVal {
    /// A level that stays as it is.
    Fixed(u8),
    /// The level of the automation lane with this number, read when the
    /// track is rendered.
    Lane(u16),
}

/// Evaluates automated control values against the transport clock.
#[derive(Debug, Clone, Copy, PartialEq, Eq, Structural)]
pub struct AutomationManager {
    pub time_manager: TimeManager,
}

impl AutomationManager {
    /// A manager that reads the default clock.
    pub fn new() -> (m: Self)
        ensures
            m.time_manager.origin.tick == 0,
    {
        AutomationManager { time_manager: TimeManager::default() }
    }
}

impl AutomationManager {
    /// The manager with its clock replaced by `time_manager`.
    pub open spec fn retimed(self, time_manager: TimeManager) -> AutomationManager {
        AutomationManager { time_manager }
    }
}

impl TimeKeeper for AutomationManager {
    fn set_time_manager(&mut self, time_manager: TimeManager)
        ensures
            *final(self) == old(self).retimed(time_manager),
    {
        self.time_manager = time_manager;
    }
}

} // verus!
