//! The kinds of track that a song can hold.
use crate::effects::Effect;
use crate::instruments::MidiInstrument;
use crate::wave::Wave;
use vstd::prelude::*;

pub mod midi;

verus! {

/// A track of a song.
pub enum Track<W: Wave, I, E> {
    /// A track of notes played by an instrument.
    Midi(midi::MidiTrack<W, I, E>),
}

impl<W: Wave, I: MidiInstrument<W>, E: Effect<W>> Track<W, I, E> {
    /// `out` is a rendering of the track.
    pub open spec fn renders(&self, out: W) -> bool {
        match self {
            Track::Midi(track) => track.renders(out),
        }
    }

    /// Whether the parts that the track can see into read the track's clock.
    pub open spec fn is_synchronized(&self) -> bool {
        match self {
            Track::Midi(track) => track.is_synchronized(),
        }
    }

    /// Renders the track.
    pub fn play(&self) -> (out: W)
        ensures
            self.renders(out),
    {
        match self {
            Track::Midi(track) => track.play(),
        }
    }
}

} // verus!
