use mixdown::auto::{AutomationManager, CtrlVal};
use mixdown::effects::{process, Bypass, CtrlPanel, Effect};
use mixdown::error::Error;
use mixdown::instruments::{EmptyInstrument, MidiInstrument};
use mixdown::time::{TimeKeeper, TimeManager, TimeStamp};
use mixdown::tracks::midi::{MidiTrack, Note, Pitch};
use mixdown::tracks::Track;
use mixdown::wave::{Mono, Sample, Wave};

#[derive(Clone, Copy, Debug, PartialEq)]
struct Amp(f64);

impl Sample for Amp {
    fn zero() -> Self {
        Amp(0.0)
    }

    fn one() -> Self {
        Amp(1.0)
    }

    fn plus(self, other: Self) -> Self {
        Amp(self.0 + other.0)
    }

    fn minus(self, other: Self) -> Self {
        Amp(self.0 - other.0)
    }

    fn times(self, other: Self) -> Self {
        Amp(self.0 * other.0)
    }

    fn over(self, divisor: Self) -> Self {
        Amp(self.0 / divisor.0)
    }

    fn root(self) -> Self {
        Amp(self.0.sqrt())
    }

    fn powf(self, exponent: Self) -> Self {
        Amp(self.0.powf(exponent.0))
    }

    fn from_count(count: usize) -> Self {
        Amp(count as f64)
    }

    fn is_zero(self) -> bool {
        self.0 == 0.0
    }
}

fn wave(samples: &[f64]) -> Mono<Amp> {
    Mono::from_vec(samples.iter().map(|x| Amp(*x)).collect())
}

fn samples(wave: &Mono<Amp>) -> Vec<f64> {
    wave.get_vec().iter().map(|a| a.0).collect()
}

fn clock(tick: u64) -> TimeManager {
    TimeManager::new(TimeStamp { tick })
}

fn note(number: u8, on: u64, off: u64) -> Note {
    Note {
        pitch: Pitch::new(number).unwrap(),
        on: TimeStamp { tick: on },
        off: TimeStamp { tick: off },
        velocity: CtrlVal::Fixed(100),
    }
}

/// Plays a fixed phrase, followed by one sample per note that holds the
/// note's number. Refuses the channels in `taken` and fails on `broken`.
struct Tone {
    phrase: Vec<f64>,
    taken: Vec<u8>,
    broken: Option<u8>,
    clock: Option<TimeManager>,
    automation: Option<AutomationManager>,
    channel: Option<u8>,
    offered: Vec<u8>,
}

impl Tone {
    fn new(phrase: &[f64]) -> Self {
        Tone {
            phrase: phrase.to_vec(),
            taken: Vec::new(),
            broken: None,
            clock: None,
            automation: None,
            channel: None,
            offered: Vec::new(),
        }
    }
}

impl TimeKeeper for Tone {
    fn set_time_manager(&mut self, time_manager: TimeManager) {
        self.clock = Some(time_manager);
    }
}

impl MidiInstrument<Mono<Amp>> for Tone {
    fn play_notes(&self, notes: &Vec<Note>) -> Mono<Amp> {
        let mut out: Vec<Amp> = self.phrase.iter().map(|x| Amp(*x)).collect();
        for note in notes {
            out.push(Amp(note.pitch.get() as f64));
        }
        Mono::from_vec(out)
    }

    fn name(&self) -> &str {
        "tone"
    }

    fn set_automation_manager(&mut self, automation_manager: AutomationManager) {
        self.automation = Some(automation_manager);
    }

    fn put_in_song(&mut self, channel: u8) -> Result<(), Error> {
        self.offered.push(channel);
        if self.broken == Some(channel) {
            Err(Error::Rejected)
        } else if self.taken.contains(&channel) {
            Err(Error::Overwrite)
        } else {
            self.channel = Some(channel);
            Ok(())
        }
    }
}

/// Adds the tick of the time origin to every sample, and doubles the
/// samples where the control panel is automated.
struct Shift {
    clock: Option<TimeManager>,
}

impl TimeKeeper for Shift {
    fn set_time_manager(&mut self, time_manager: TimeManager) {
        self.clock = Some(time_manager);
    }
}

impl Effect<Mono<Amp>> for Shift {
    fn apply(&self, wave: &mut Mono<Amp>, control_panel: &CtrlPanel, zero: TimeStamp) {
        let factor = match control_panel {
            CtrlPanel::Bypass => 1.0,
            CtrlPanel::Automated(_) => 2.0,
        };
        wave.scale(Amp(factor));
        let shift: Mono<Amp> = Mono::from_vec(vec![Amp(zero.tick as f64); wave.len()]);
        wave.add_consuming(shift, 0);
    }
}

fn track_of(instrument: Tone, effects: Shift, gain: f64) -> MidiTrack<Mono<Amp>, Tone, Shift> {
    MidiTrack {
        name: String::from("lead"),
        instrument,
        gain: Amp(gain),
        effects,
        control_panel: CtrlPanel::Bypass,
        notes: Vec::new(),
        automation_manager: AutomationManager::new(),
        time_manager: TimeManager::default(),
    }
}

#[test]
fn the_default_clock_starts_at_tick_zero() {
    assert_eq!(TimeManager::default().zero(), TimeStamp { tick: 0 });
    assert_eq!(TimeManager::default(), clock(0));
}

#[test]
fn a_clock_gives_its_origin() {
    assert_eq!(clock(480).zero(), TimeStamp { tick: 480 });
    assert_eq!(clock(480).origin, TimeStamp { tick: 480 });
}

#[test]
fn a_new_automation_manager_reads_the_default_clock() {
    assert_eq!(AutomationManager::new().time_manager, TimeManager::default());
}

#[test]
fn an_automation_manager_takes_a_new_clock() {
    let mut manager = AutomationManager::new();
    manager.set_time_manager(clock(96));
    assert_eq!(manager.time_manager, clock(96));
}

#[test]
fn a_bypass_panel_stays_a_bypass_panel() {
    let mut panel = CtrlPanel::Bypass;
    panel.set_time_manager(clock(96));
    assert_eq!(panel, CtrlPanel::Bypass);
}

#[test]
fn an_automated_panel_takes_a_new_clock() {
    let mut panel = CtrlPanel::Automated(AutomationManager::new());
    panel.set_time_manager(clock(96));
    assert_eq!(panel, CtrlPanel::Automated(AutomationManager { time_manager: clock(96) }));
}

#[test]
fn the_bypass_chain_returns_the_audio_unchanged() {
    let mut chain = Bypass;
    chain.set_time_manager(clock(7));
    let mut audio = wave(&[0.5, -1.0]);
    chain.apply(&mut audio, &CtrlPanel::Bypass, TimeStamp { tick: 7 });
    assert_eq!(samples(&audio), vec![0.5, -1.0]);
    let out = process(&chain, audio, &CtrlPanel::Bypass, TimeStamp { tick: 7 });
    assert_eq!(samples(&out), vec![0.5, -1.0]);
}

#[test]
fn process_runs_the_chain_over_the_audio() {
    let chain = Shift { clock: None };
    let out = process(&chain, wave(&[1.0, 2.0]), &CtrlPanel::Bypass, TimeStamp { tick: 3 });
    assert_eq!(samples(&out), vec![4.0, 5.0]);
    let panel = CtrlPanel::Automated(AutomationManager::new());
    let out = process(&chain, wave(&[1.0, 2.0]), &panel, TimeStamp { tick: 0 });
    assert_eq!(samples(&out), vec![2.0, 4.0]);
}

#[test]
fn the_silent_instrument_plays_nothing() {
    let instrument: EmptyInstrument<Mono<Amp>> = EmptyInstrument::new();
    let out = instrument.play_notes(&vec![note(60, 0, 10), note(64, 10, 20)]);
    assert!(out.is_empty());
    assert_eq!(instrument.name(), "");
}

#[test]
fn the_silent_instrument_takes_every_channel() {
    let mut instrument: EmptyInstrument<Mono<Amp>> = EmptyInstrument::new();
    for channel in 0..=255u8 {
        assert_eq!(instrument.put_in_song(channel), Ok(()));
    }
}

#[test]
fn a_new_track_is_silent_and_plain() {
    let track: MidiTrack<Mono<Amp>, EmptyInstrument<Mono<Amp>>, Bypass> = MidiTrack::new();
    assert_eq!(track.name, "");
    assert_eq!(track.gain, Amp(1.0));
    assert_eq!(track.control_panel, CtrlPanel::Bypass);
    assert!(track.notes.is_empty());
    assert_eq!(track.time_manager, TimeManager::default());
    assert_eq!(track.automation_manager.time_manager, track.time_manager);
    assert!(track.play().is_empty());
}

#[test]
fn the_default_track_is_the_new_track() {
    let track: MidiTrack<Mono<Amp>, EmptyInstrument<Mono<Amp>>, Bypass> = MidiTrack::default();
    assert_eq!(track.name, "");
    assert_eq!(track.gain, Amp(1.0));
    assert!(track.notes.is_empty());
    assert!(track.play().is_empty());
}

#[test]
fn a_new_track_stays_silent_with_notes_and_gain() {
    let mut track: MidiTrack<Mono<Amp>, EmptyInstrument<Mono<Amp>>, Bypass> = MidiTrack::new();
    track.notes.push(note(60, 0, 10));
    track.gain = Amp(4.0);
    assert!(track.play().is_empty());
}

#[test]
fn from_instrument_takes_the_name_of_the_instrument() {
    let track = MidiTrack::from_instrument(Tone::new(&[1.0]));
    assert_eq!(track.name, "tone");
    assert_eq!(track.gain, Amp(1.0));
    assert_eq!(track.control_panel, CtrlPanel::Bypass);
    assert!(track.notes.is_empty());
    assert_eq!(track.time_manager, TimeManager::default());
    assert_eq!(track.automation_manager.time_manager, TimeManager::default());
    assert_eq!(track.instrument.phrase, vec![1.0]);
    assert_eq!(track.instrument.clock, None);
}

#[test]
fn play_gives_what_the_instrument_plays_at_unit_gain() {
    let mut track = MidiTrack::from_instrument(Tone::new(&[0.5, -0.5]));
    track.notes.push(note(60, 0, 10));
    track.notes.push(note(72, 10, 20));
    assert_eq!(samples(&track.play()), vec![0.5, -0.5, 60.0, 72.0]);
}

#[test]
fn play_applies_the_gain() {
    let mut track = MidiTrack::from_instrument(Tone::new(&[1.0, 2.0, 3.0]));
    track.gain = Amp(0.5);
    assert_eq!(samples(&track.play()), vec![0.5, 1.0, 1.5]);
}

#[test]
fn play_runs_the_effects_before_the_gain() {
    let mut track = track_of(Tone::new(&[1.0, 2.0]), Shift { clock: None }, 10.0);
    track.time_manager = clock(3);
    assert_eq!(samples(&track.play()), vec![40.0, 50.0]);
}

#[test]
fn play_hands_the_control_panel_to_the_effects() {
    let mut track = track_of(Tone::new(&[1.0, 2.0]), Shift { clock: None }, 1.0);
    track.control_panel = CtrlPanel::Automated(AutomationManager::new());
    assert_eq!(samples(&track.play()), vec![2.0, 4.0]);
}

#[test]
fn play_does_not_change_the_track() {
    let track = MidiTrack::from_instrument(Tone::new(&[1.0]));
    let first = samples(&track.play());
    let second = samples(&track.play());
    assert_eq!(first, second);
}

#[test]
fn a_new_clock_reaches_every_part_of_the_track() {
    let mut track = track_of(Tone::new(&[1.0]), Shift { clock: None }, 1.0);
    track.control_panel = CtrlPanel::Automated(AutomationManager::new());
    track.set_time_manager(clock(960));
    assert_eq!(track.time_manager, clock(960));
    assert_eq!(track.instrument.clock, Some(clock(960)));
    assert_eq!(track.effects.clock, Some(clock(960)));
    assert_eq!(track.control_panel, CtrlPanel::Automated(AutomationManager { time_manager: clock(960) }));
    assert_eq!(track.automation_manager.time_manager, clock(960));
    assert_eq!(track.name, "lead");
    assert_eq!(track.gain, Amp(1.0));
}

#[test]
fn a_new_clock_moves_the_time_origin_of_the_effects() {
    let mut track = track_of(Tone::new(&[1.0]), Shift { clock: None }, 1.0);
    assert_eq!(samples(&track.play()), vec![1.0]);
    track.set_time_manager(clock(5));
    assert_eq!(samples(&track.play()), vec![6.0]);
}

#[test]
fn set_automation_manager_hands_the_manager_to_the_instrument() {
    let mut track = MidiTrack::from_instrument(Tone::new(&[1.0]));
    track.automation_manager = AutomationManager { time_manager: clock(12) };
    track.set_automation_manager();
    assert_eq!(track.instrument.automation, Some(AutomationManager { time_manager: clock(12) }));
    assert_eq!(track.instrument.clock, None);
    assert_eq!(track.time_manager, TimeManager::default());
}

#[test]
fn put_in_song_binds_and_synchronizes() {
    let mut track = track_of(Tone::new(&[1.0]), Shift { clock: None }, 1.0);
    track.time_manager = clock(24);
    track.control_panel = CtrlPanel::Automated(AutomationManager::new());
    let (track, verdict) = track.put_in_song(9);
    assert_eq!(verdict, Ok(()));
    assert_eq!(track.name, "lead");
    assert_eq!(track.instrument.channel, Some(9));
    assert_eq!(track.instrument.clock, Some(clock(24)));
    assert_eq!(track.instrument.automation, Some(AutomationManager { time_manager: clock(24) }));
    assert_eq!(track.effects.clock, Some(clock(24)));
    assert_eq!(track.control_panel, CtrlPanel::Automated(AutomationManager { time_manager: clock(24) }));
    assert_eq!(track.automation_manager.time_manager, clock(24));
    assert_eq!(track.time_manager, clock(24));
}

#[test]
fn put_in_song_reports_a_taken_channel_and_hands_out_no_clock() {
    let mut instrument = Tone::new(&[1.0]);
    instrument.taken = vec![4];
    let mut track = track_of(instrument, Shift { clock: None }, 1.0);
    track.time_manager = clock(24);
    let (track, verdict) = track.put_in_song(4);
    assert_eq!(verdict, Err(Error::Overwrite));
    assert_eq!(track.instrument.offered, vec![4]);
    assert_eq!(track.instrument.channel, None);
    assert_eq!(track.instrument.clock, None);
    assert_eq!(track.effects.clock, None);
    assert_eq!(track.automation_manager.time_manager, TimeManager::default());
    assert_eq!(track.time_manager, clock(24));
}

#[test]
fn put_in_song_reports_a_broken_binding() {
    let mut instrument = Tone::new(&[1.0]);
    instrument.broken = Some(0);
    let track = MidiTrack::from_instrument(instrument);
    let (track, verdict) = track.put_in_song(0);
    assert_eq!(verdict, Err(Error::Rejected));
    assert_eq!(track.instrument.channel, None);
    assert_eq!(track.instrument.clock, None);
    assert_eq!(track.name, "tone");
}

#[test]
fn a_track_plays_through_the_track_enum() {
    let track = Track::Midi(MidiTrack::from_instrument(Tone::new(&[0.25, 0.75])));
    assert_eq!(samples(&track.play()), vec![0.25, 0.75]);
}

#[test]
fn a_note_keeps_its_fields() {
    let n = note(64, 100, 200);
    assert_eq!(n.pitch.get(), 64);
    assert_eq!(n.on, TimeStamp { tick: 100 });
    assert_eq!(n.off, TimeStamp { tick: 200 });
    assert_eq!(n.velocity, CtrlVal::Fixed(100));
    let copy = n;
    assert_eq!(copy, n);
    let automated = Note { velocity: CtrlVal::Lane(3), ..n };
    assert_ne!(automated, n);
}
