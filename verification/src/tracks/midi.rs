//! Notes, and the track that plays them on an instrument.
use crate::auto::{AutomationManager, CtrlVal};
use crate::effects::{Bypass, CtrlPanel, Effect};
use crate::error::Error;
use crate::instruments::{EmptyInstrument, MidiInstrument};
use crate::time::{TimeKeeper, TimeManager, TimeStamp};
use crate::wave::{Sample, Wave};
use vstd::prelude::*;

verus! {

/// A note number between 0 and 127; note 69 is the A above middle C.
#[derive(Debug, Clone, Copy, PartialEq, Eq, Structural)]
pub struct Pitch {
    value: u8,
}

impl Pitch {
    #[verifier::type_invariant]
    spec fn in_range(self) -> bool {
        self.value < 0x80
    }

    /// The note number.
    pub closed spec fn view(&self) -> u8 {
        self.value
    }

    /// What [`Pitch::new`] returns for `value`: the pitch with that number
    /// where it is below 128, nothing otherwise.
    pub closed spec fn checked(value: u8) -> Option<Pitch> {
        if value < 0x80 {
            Some(Pitch { value })
        } else {
            None
        }
    }

    /// The pitch with note number `value`, or `None` for a number above 127.
    pub fn new(value: u8) -> (r: Option<Self>)
        ensures
            r == Self::checked(value),
            value < 128 ==> r is Some && r->0@ == value,
            value >= 128 ==> r is None,
    {
        if value < 0x80 {
            Some(Self { value })
        } else {
            None
        }
    }

    /// The note number.
    pub fn get(&self) -> (value: u8)
        ensures
            value == self@,
            value < 128,
    {
        proof {
            use_type_invariant(self);
        }
        self.value
    }

    /// The pitch with note number `value`, which the caller knows to be
    /// below 128.
    pub fn new_unchecked(value: u8) -> (r: Self)
        requires
            value < 128,
        ensures
            r@ == value,
    {
        Self { value }
    }

    /// The frequency of the pitch in hertz, in equal temperament with note
    /// 69 at 440 Hz.
    pub fn get_freq<S: Sample>(&self) -> (frequency: S)
        ensures
            is_frequency(self@, frequency),
    {
        let concert_pitch = S::from_count(440);
        let two = S::from_count(2);
        let note = S::from_count(self.value as usize);
        let reference = S::from_count(69);
        let semitones = note.minus(reference);
        let twelve = S::from_count(12);
        let octaves = semitones.over(twelve);
        let ratio = two.powf(octaves);
        let frequency = concert_pitch.times(ratio);
        assert(crate::wave::is_count(self.value as usize, note) && crate::wave::is_count(69, reference)
            && crate::wave::is_difference(note, reference, semitones) && crate::wave::is_count(12, twelve)
            && crate::wave::is_quotient(semitones, twelve, octaves));
        assert(crate::wave::is_count(440, concert_pitch) && crate::wave::is_count(2, two) && is_octaves(
            self.value,
            octaves,
        ) && crate::wave::is_power(two, octaves, ratio) && crate::wave::is_product(
            concert_pitch,
            ratio,
            frequency,
        ));
        frequency
    }

    /// Every number below 128 makes a pitch that gives the number back, and
    /// no other number makes one.
    pub proof fn lemma_round_trip(value: u8)
        ensures
            value < 128 ==> Self::checked(value) is Some && Self::checked(value)->0@ == value,
            value >= 128 ==> Self::checked(value) is None,
    {
    }
}

/// `octaves` is the distance of note `value` from note 69 in octaves:
/// `(value - 69) / 12`, computed in `S`.
pub open spec fn is_octaves<S: Sample>(value: u8, octaves: S) -> bool {
    exists|note: S, reference: S, semitones: S, twelve: S|
        crate::wave::is_count(value as usize, note) && crate::wave::is_count(69, reference)
            && crate::wave::is_difference(note, reference, semitones) && crate::wave::is_count(12, twelve)
            && crate::wave::is_quotient(semitones, twelve, octaves)
}

/// `frequency` is `440 * 2^octaves` computed in `S`, for the distance of
/// note `value` from note 69 in octaves.
pub open spec fn is_frequency<S: Sample>(value: u8, frequency: S) -> bool {
    exists|concert_pitch: S, two: S, octaves: S, ratio: S|
        crate::wave::is_count(440, concert_pitch) && crate::wave::is_count(2, two) && is_octaves(value, octaves)
            && crate::wave::is_power(two, octaves, ratio) && crate::wave::is_product(
            concert_pitch,
            ratio,
            frequency,
        )
}

/// A pitch that sounds from `on` to `off` on the transport timeline.
#[derive(Debug, Clone, Copy, PartialEq, Eq, Structural)]
pub struct Note {
    pub pitch: Pitch,
    pub on: TimeStamp,
    pub off: TimeStamp,
    pub velocity: CtrlVal,
}

/// A track of notes: an instrument plays them, an effect chain processes
/// the audio, and the gain sets its level.
///
/// The instrument, the effect chain, the control panel and the automation
/// manager all read the transport clock. [`TimeKeeper::set_time_manager`]
/// hands a clock to every one of them.
pub struct MidiTrack<W: Wave, I, E> {
    pub name: String,
    pub instrument: I,
    pub gain: W::Sample,
    pub effects: E,
    pub control_panel: CtrlPanel,
    pub notes: Vec<Note>,
    pub automation_manager: AutomationManager,
    pub time_manager: TimeManager,
}

impl<W: Wave, I: MidiInstrument<W>, E: Effect<W>> MidiTrack<W, I, E> {
    /// `out` is a rendering of the track: the gain applied to what the
    /// effect chain makes, at the time origin of the track's clock, of what
    /// the instrument plays for the notes.
    pub open spec fn renders(&self, out: W) -> bool {
        exists|raw: W, processed: W|
            crate::instruments::is_rendition(self.instrument, self.notes, raw)
                && crate::effects::is_processed(
                self.effects,
                raw,
                self.control_panel,
                self.time_manager.origin,
                processed,
            ) && crate::wave::is_scaled(processed@, self.gain, out@)
    }

    /// Whether the parts that the track can see into read the track's clock.
    pub open spec fn is_synchronized(&self) -> bool {
        &&& self.automation_manager.time_manager == self.time_manager
        &&& self.control_panel.keeps_time(self.time_manager)
    }

    /// Whether `self` is `before` with the clock of `before` handed to every
    /// part; the instrument and the effect chain may have changed with it.
    pub open spec fn is_synchronized_form_of(&self, before: Self) -> bool {
        &&& self.name == before.name
        &&& self.gain == before.gain
        &&& self.notes == before.notes
        &&& self.time_manager == before.time_manager
        &&& self.automation_manager == before.automation_manager.retimed(before.time_manager)
        &&& self.control_panel == before.control_panel.retimed(before.time_manager)
    }

    /// Hands the track's automation manager to the instrument.
    pub fn set_automation_manager(&mut self)
        ensures
            exists|slot: &mut I|
                *slot == old(self).instrument && *final(slot) == final(self).instrument && call_ensures(
                    <I as MidiInstrument<W>>::set_automation_manager,
                    (slot, old(self).automation_manager),
                    (),
                ),
            *final(self) == (MidiTrack { instrument: final(self).instrument, ..*old(self) }),
    {
        self.instrument.set_automation_manager(self.automation_manager);
    }

    /// Renders the track.
    pub fn play(&self) -> (out: W)
        ensures
            self.renders(out),
    {
        let raw = self.instrument.play_notes(&self.notes);
        let mut wave = crate::effects::process(
            &self.effects,
            raw,
            &self.control_panel,
            self.time_manager.zero(),
        );
        let ghost processed = wave;
        wave.scale(self.gain);
        assert(crate::instruments::is_rendition(self.instrument, self.notes, raw)
            && crate::effects::is_processed(
            self.effects,
            raw,
            self.control_panel,
            self.time_manager.origin,
            processed,
        ) && crate::wave::is_scaled(processed@, self.gain, wave@));
        wave
    }

    /// Offers the instrument channel `channel` of a song, and returns the
    /// track with the instrument's answer. Where the instrument takes the
    /// channel, the track's clock is handed to every part and the
    /// automation manager to the instrument; otherwise only the instrument
    /// may have changed.
    pub fn put_in_song(self, channel: u8) -> (outcome: (Self, Result<(), Error>))
        ensures
            crate::instruments::is_verdict::<W, I>(self.instrument, channel, outcome.1),
            outcome.1 is Ok ==> outcome.0.is_synchronized_form_of(self),
            outcome.1 is Ok ==> exists|bound: &mut I, timed: &mut I, automated: &mut I|
                {
                    &&& *bound == self.instrument
                    &&& call_ensures(<I as MidiInstrument<W>>::put_in_song, (bound, channel), outcome.1)
                    &&& *timed == *final(bound)
                    &&& call_ensures(<I as TimeKeeper>::set_time_manager, (timed, self.time_manager), ())
                    &&& *automated == *final(timed)
                    &&& call_ensures(
                        <I as MidiInstrument<W>>::set_automation_manager,
                        (automated, outcome.0.automation_manager),
                        (),
                    )
                    &&& outcome.0.instrument == *final(automated)
                },
            outcome.1 is Ok ==> exists|timed: &mut E|
                {
                    &&& *timed == self.effects
                    &&& call_ensures(<E as TimeKeeper>::set_time_manager, (timed, self.time_manager), ())
                    &&& outcome.0.effects == *final(timed)
                },
            outcome.1 is Err ==> exists|bound: &mut I|
                {
                    &&& *bound == self.instrument
                    &&& call_ensures(<I as MidiInstrument<W>>::put_in_song, (bound, channel), outcome.1)
                    &&& outcome.0 == (MidiTrack { instrument: *final(bound), ..self })
                },
    {
        let mut track = self;
        let verdict = track.instrument.put_in_song(channel);
        if verdict.is_ok() {
            let clock = track.time_manager;
            track.set_time_manager(clock);
            track.set_automation_manager();
        }
        (track, verdict)
    }
}

/// `after` and `verdict` are what [`MidiTrack::put_in_song`] may return
/// when the track `before` is offered `channel`.
pub open spec fn is_offer<W: Wave, I: MidiInstrument<W>, E: Effect<W>>(
    before: MidiTrack<W, I, E>,
    channel: u8,
    after: MidiTrack<W, I, E>,
    verdict: Result<(), Error>,
) -> bool {
    call_ensures(MidiTrack::<W, I, E>::put_in_song, (before, channel), (after, verdict))
}

impl<W: Wave, I: MidiInstrument<W>, E: Effect<W>> TimeKeeper for MidiTrack<W, I, E> {
    /// Makes `time_manager` the clock of the track and of every part of it.
    fn set_time_manager(&mut self, time_manager: TimeManager)
        ensures
            final(self).time_manager == time_manager,
            final(self).automation_manager == old(self).automation_manager.retimed(time_manager),
            final(self).control_panel == old(self).control_panel.retimed(time_manager),
            exists|slot: &mut I|
                *slot == old(self).instrument && *final(slot) == final(self).instrument && call_ensures(
                    <I as TimeKeeper>::set_time_manager,
                    (slot, time_manager),
                    (),
                ),
            exists|slot: &mut E|
                *slot == old(self).effects && *final(slot) == final(self).effects && call_ensures(
                    <E as TimeKeeper>::set_time_manager,
                    (slot, time_manager),
                    (),
                ),
            final(self).name == old(self).name,
            final(self).gain == old(self).gain,
            final(self).notes == old(self).notes,
            final(self).is_synchronized(),
    {
        self.instrument.set_time_manager(time_manager);
        self.effects.set_time_manager(time_manager);
        self.control_panel.set_time_manager(time_manager);
        self.automation_manager.set_time_manager(time_manager);
        self.time_manager = time_manager;
    }
}

impl<W: Wave, I: MidiInstrument<W>> MidiTrack<W, I, Bypass> {
    /// The track that plays `instrument` under its name, with no notes, no
    /// effects, unit gain and the default clock.
    pub fn from_instrument(instrument: I) -> (track: Self)
        ensures
            exists|name: &str|
                crate::instruments::is_name_of::<W, I>(instrument, name) && track.name@ == name@,
            track.instrument == instrument,
            crate::wave::is_unit(track.gain),
            track.control_panel is Bypass,
            track.notes@.len() == 0,
            track.automation_manager == (AutomationManager { time_manager: track.time_manager }),
            track.time_manager.origin.tick == 0,
            track.is_synchronized(),
    {
        let label = instrument.name();
        let name = label.to_owned();
        assert(crate::instruments::is_name_of::<W, I>(instrument, label) && name@ == label@);
        let clock = TimeManager::default();
        MidiTrack {
            name,
            instrument,
            gain: W::Sample::one(),
            effects: Bypass,
            control_panel: CtrlPanel::Bypass,
            notes: Vec::new(),
            automation_manager: AutomationManager::new(),
            time_manager: clock,
        }
    }
}

impl<W: Wave> MidiTrack<W, EmptyInstrument<W>, Bypass> {
    /// The silent track: no name, the silent instrument, no notes, no
    /// effects, unit gain and the default clock.
    pub fn new() -> (track: Self)
        ensures
            track.name@.len() == 0,
            crate::wave::is_unit(track.gain),
            track.control_panel is Bypass,
            track.notes@.len() == 0,
            track.automation_manager == (AutomationManager { time_manager: track.time_manager }),
            track.time_manager.origin.tick == 0,
            track.is_synchronized(),
    {
        let clock = TimeManager::default();
        MidiTrack {
            name: String::new(),
            instrument: EmptyInstrument::new(),
            gain: W::Sample::one(),
            effects: Bypass,
            control_panel: CtrlPanel::Bypass,
            notes: Vec::new(),
            automation_manager: AutomationManager::new(),
            time_manager: clock,
        }
    }
}

impl<W: Wave> MidiTrack<W, EmptyInstrument<W>, Bypass> {
    /// A track of the silent instrument without effects renders to the
    /// empty buffer, whatever its notes and its gain.
    pub proof fn lemma_renders_nothing(&self, out: W)
        requires
            self.renders(out),
        ensures
            out@.len() == 0,
    {
    }
}

impl<W: Wave> Default for MidiTrack<W, EmptyInstrument<W>, Bypass> {
    fn default() -> (track: Self)
        ensures
            track.name@.len() == 0,
            crate::wave::is_unit(track.gain),
            track.control_panel is Bypass,
            track.notes@.len() == 0,
            track.automation_manager == (AutomationManager { time_manager: track.time_manager }),
            track.time_manager.origin.tick == 0,
            track.is_synchronized(),
    {
        Self::new()
    }
}

} // verus!
