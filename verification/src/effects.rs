//! The effect chain of a track and the control panel that it reads.
use crate::auto::AutomationManager;
use crate::time::{TimeKeeper, TimeManager, TimeStamp};
use crate::wave::Wave;
use vstd::prelude::*;

verus! {

/// The controls that an effect chain reads while it runs.
#[derive(Debug, Clone, Copy, PartialEq, Eq, Structural)]
pub enum CtrlPanel {
    /// No controls: every effect runs on its own settings.
    Bypass,
    /// Controls whose values come from automation.
    Automated(AutomationManager),
}

impl CtrlPanel {
    /// Whether every clock inside the panel is `time_manager`.
    pub open spec fn keeps_time(&self, time_manager: TimeManager) -> bool {
        match self {
            CtrlPanel::Bypass => true,
            CtrlPanel::Automated(manager) => manager.time_manager == time_manager,
        }
    }

    /// The panel with every clock inside it replaced by `time_manager`.
    pub open spec fn retimed(self, time_manager: TimeManager) -> CtrlPanel {
        match self {
            CtrlPanel::Bypass => CtrlPanel::Bypass,
            CtrlPanel::Automated(manager) => CtrlPanel::Automated(manager.retimed(time_manager)),
        }
    }
}

impl TimeKeeper for CtrlPanel {
    fn set_time_manager(&mut self, time_manager: TimeManager)
        ensures
            *final(self) == old(self).retimed(time_manager),
    {
        match self {
            CtrlPanel::Bypass => {},
            CtrlPanel::Automated(manager) => {
                manager.set_time_manager(time_manager);
            },
        }
    }
}

/// A chain of effects that processes the audio of one track.
pub trait Effect<W: Wave>: TimeKeeper {
    /// Runs the chain over `wave` in place. The chain may read its settings
    /// from `control_panel`; `zero` is the time origin of the render.
    fn apply(&self, wave: &mut W, control_panel: &CtrlPanel, zero: TimeStamp);
}

/// Runs `chain` over `wave` and returns the processed audio.
pub fn process<W: Wave, E: Effect<W>>(chain: &E, wave: W, control_panel: &CtrlPanel, zero: TimeStamp) -> (out: W)
    ensures
        exists|buffer: &mut W|
            *buffer == wave && *final(buffer) == out && call_ensures(
                E::apply,
                (chain, buffer, control_panel, zero),
                (),
            ),
{
    let mut wave = wave;
    chain.apply(&mut wave, control_panel, zero);
    wave
}

/// `after` is what [`process`] may return for `before`: what `chain.apply`
/// makes of it under these controls.
pub open spec fn is_processed<W: Wave, E: Effect<W>>(
    chain: E,
    before: W,
    control_panel: CtrlPanel,
    zero: TimeStamp,
    after: W,
) -> bool {
    call_ensures(process::<W, E>, (&chain, before, &control_panel, zero), after)
}

/// The chain that leaves the audio as it is.
#[derive(Debug, Clone, Copy, PartialEq, Eq, Structural)]
pub struct Bypass;

impl TimeKeeper for Bypass {
    fn set_time_manager(&mut self, time_manager: TimeManager)
        ensures
            *final(self) == *old(self),
    {
    }
}

impl<W: Wave> Effect<W> for Bypass {
    fn apply(&self, wave: &mut W, control_panel: &CtrlPanel, zero: TimeStamp)
        ensures
            *final(wave) == *old(wave),
    {
    }
}

} // verus!
