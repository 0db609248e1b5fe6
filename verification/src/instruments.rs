//! Instruments: what turns the notes of a track into audio.
use crate::auto::AutomationManager;
use crate::error::Error;
use crate::time::{TimeKeeper, TimeManager};
use crate::tracks::midi::Note;
use crate::wave::Wave;
use std::marker::PhantomData;
use vstd::prelude::*;

verus! {

/// An instrument that plays notes into a buffer of type `W`.
///
/// The library asks nothing of an implementation but that its methods
/// return. What a track or a song does with an instrument is stated through
/// the relations below, over what the methods return.
pub trait MidiInstrument<W: Wave>: TimeKeeper {
    /// The audio of `notes`, from the start of the timeline on.
    fn play_notes(&self, notes: &Vec<Note>) -> W;

    /// The name of the instrument.
    fn name(&self) -> &str;

    /// Makes `automation_manager` the source of the automated control values
    /// that the instrument reads.
    fn set_automation_manager(&mut self, automation_manager: AutomationManager);

    /// Binds the instrument to channel `channel` of a song.
    /// `Err(Error::Overwrite)` says that the instrument cannot take this
    /// channel because it is in use; any other error says that the
    /// instrument cannot be bound at all.
    fn put_in_song(&mut self, channel: u8) -> Result<(), Error>;
}

/// `raw` is what `instrument.play_notes` returns for `notes`.
pub open spec fn is_rendition<W: Wave, I: MidiInstrument<W>>(instrument: I, notes: Vec<Note>, raw: W) -> bool {
    call_ensures(I::play_notes, (&instrument, &notes), raw)
}

/// `name` is what `instrument.name` returns.
pub open spec fn is_name_of<W: Wave, I: MidiInstrument<W>>(instrument: I, name: &str) -> bool {
    call_ensures(<I as MidiInstrument<W>>::name, (&instrument,), name)
}

/// `verdict` is what `put_in_song` returns when `instrument` is offered
/// `channel`.
pub open spec fn is_verdict<W: Wave, I: MidiInstrument<W>>(
    instrument: I,
    channel: u8,
    verdict: Result<(), Error>,
) -> bool {
    exists|slot: &mut I|
        *slot == instrument && call_ensures(
            <I as MidiInstrument<W>>::put_in_song,
            (slot, channel),
            verdict,
        )
}

/// Every instrument of type `I` takes every channel that it is offered.
pub open spec fn takes_every_channel<W: Wave, I: MidiInstrument<W>>() -> bool {
    forall|instrument: I, channel: u8, verdict: Result<(), Error>|
        is_verdict::<W, I>(instrument, channel, verdict) ==> verdict is Ok
}

/// The instrument that plays nothing: its audio is the empty buffer, and it
/// takes every channel.
pub struct EmptyInstrument<W> {
    buffer: PhantomData<W>,
}

impl<W> EmptyInstrument<W> {
    /// The silent instrument. It holds no state, so there is only one.
    pub fn new() -> Self {
        EmptyInstrument { buffer: PhantomData }
    }

    /// Any two silent instruments are the same value.
    pub proof fn lemma_holds_no_state(self, other: Self)
        ensures
            self == other,
    {
    }
}

impl<W> TimeKeeper for EmptyInstrument<W> {
    fn set_time_manager(&mut self, time_manager: TimeManager)
        ensures
            *final(self) == *old(self),
    {
    }
}

impl<W: Wave> MidiInstrument<W> for EmptyInstrument<W> {
    fn play_notes(&self, notes: &Vec<Note>) -> (raw: W)
        ensures
            raw@.len() == 0,
    {
        W::new()
    }

    fn name(&self) -> (name: &str)
        ensures
            name@.len() == 0,
    {
        proof {
            reveal_strlit("");
        }
        ""
    }

    fn set_automation_manager(&mut self, automation_manager: AutomationManager)
        ensures
            *final(self) == *old(self),
    {
    }

    fn put_in_song(&mut self, channel: u8) -> (verdict: Result<(), Error>)
        ensures
            verdict is Ok,
            *final(self) == *old(self),
    {
        Ok(())
    }
}

/// The silent instrument takes every channel.
pub proof fn lemma_silent_instrument_takes_every_channel<W: Wave>()
    ensures
        takes_every_channel::<W, EmptyInstrument<W>>(),
{
}

} // verus!
