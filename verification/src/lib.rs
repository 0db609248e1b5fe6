//! Songs as sets of instrument tracks, rendered into one buffer of samples.
//!
//! A [`Song`] keeps its tracks under channel ids. Rendering a track asks its
//! instrument for raw audio, runs the effect chain over it and applies the
//! track's gain; rendering a song mixes the tracks into one [`wave::Wave`].
//!
//! Sample arithmetic is left to the [`wave::Sample`] type that the caller
//! picks. Every contract here holds for each such type.
use crate::effects::{Bypass, Effect};
use crate::error::Error;
use crate::instruments::{EmptyInstrument, MidiInstrument};
use crate::tracks::midi::MidiTrack;
use crate::tracks::Track;
use crate::wave::Wave;
use std::collections::HashMap;
use vstd::prelude::*;

pub mod auto;
pub mod effects;
pub mod error;
pub mod instruments;
pub mod time;
pub mod tracks;
pub mod wave;

verus! {

/// A named set of tracks, each under a channel id of its own.
pub struct Song<W: Wave, I: MidiInstrument<W>, E: Effect<W>> {
    name: String,
    tracks: HashMap<u8, Track<W, I, E>>,
}

/// Channel `channel` does not take the track: either it is in use, and
/// the track stays as it is, or it is offered and the instrument refuses it
/// as taken, which makes `after` of `before`.
pub open spec fn is_passed_over<W: Wave, I: MidiInstrument<W>, E: Effect<W>>(
    tracks: Map<u8, Track<W, I, E>>,
    channel: u8,
    before: MidiTrack<W, I, E>,
    after: MidiTrack<W, I, E>,
) -> bool {
    if tracks.contains_key(channel) {
        after == before
    } else {
        crate::tracks::midi::is_offer(before, channel, after, Err(Error::Overwrite))
    }
}

/// The step from `trail[channel]` to `trail[channel + 1]` passes over
/// `channel`.
pub open spec fn is_pass_at<W: Wave, I: MidiInstrument<W>, E: Effect<W>>(
    tracks: Map<u8, Track<W, I, E>>,
    trail: Seq<MidiTrack<W, I, E>>,
    channel: int,
) -> bool {
    is_passed_over(tracks, channel as u8, trail[channel], trail[channel + 1])
}

/// `trail` follows `track` through the channels from 0 on, none of which
/// takes it: `trail[c]` is the track as the channels below `c` have left
/// it.
pub open spec fn is_trail<W: Wave, I: MidiInstrument<W>, E: Effect<W>>(
    tracks: Map<u8, Track<W, I, E>>,
    track: MidiTrack<W, I, E>,
    trail: Seq<MidiTrack<W, I, E>>,
) -> bool {
    &&& 1 <= trail.len() <= 257
    &&& trail[0] == track
    &&& forall|channel: int| 0 <= channel < trail.len() - 1 ==> #[trigger] is_pass_at(tracks, trail, channel)
}

/// The channel that `trail` leads `track` to is channel `trail.len() - 1`.
pub open spec fn reached<W: Wave, I, E>(trail: Seq<MidiTrack<W, I, E>>) -> u8 {
    (trail.len() - 1) as u8
}

/// `trail` leads `track` to a free channel, and offering that channel to
/// the track as the trail has left it gives `bound` and `verdict`.
pub open spec fn is_decided<W: Wave, I: MidiInstrument<W>, E: Effect<W>>(
    tracks: Map<u8, Track<W, I, E>>,
    track: MidiTrack<W, I, E>,
    trail: Seq<MidiTrack<W, I, E>>,
    bound: MidiTrack<W, I, E>,
    verdict: Result<(), Error>,
) -> bool {
    &&& is_trail(tracks, track, trail)
    &&& trail.len() <= 256
    &&& !tracks.contains_key(reached(trail))
    &&& crate::tracks::midi::is_offer(trail.last(), reached(trail), bound, verdict)
}

/// `after` and `result` are an outcome of registering `track` in a song
/// whose tracks are `before`.
///
/// The free channels are offered to the track from the lowest up, each to
/// the track as the offers before have left it. A channel that the
/// instrument refuses as taken is passed over. The track goes under the
/// first channel that the instrument takes, as that offer has made it. Any
/// other answer of the instrument ends the registration with
/// `Error::Rejected`; `Error::Overflow` says that every channel was passed
/// over. On every error the song is as it was.
pub open spec fn registers<W: Wave, I: MidiInstrument<W>, E: Effect<W>>(
    before: Map<u8, Track<W, I, E>>,
    track: MidiTrack<W, I, E>,
    after: Map<u8, Track<W, I, E>>,
    result: Result<(), Error>,
) -> bool {
    match result {
        Ok(()) => exists|trail: Seq<MidiTrack<W, I, E>>, bound: MidiTrack<W, I, E>, verdict: Result<(), Error>|
            {
                &&& #[trigger] is_decided(before, track, trail, bound, verdict)
                &&& verdict is Ok
                &&& after == before.insert(reached(trail), Track::Midi(bound))
            },
        Err(Error::Rejected) => after == before && exists|
            trail: Seq<MidiTrack<W, I, E>>,
            bound: MidiTrack<W, I, E>,
            verdict: Result<(), Error>,
        |
            {
                &&& #[trigger] is_decided(before, track, trail, bound, verdict)
                &&& verdict is Err
                &&& verdict != Err::<(), Error>(Error::Overwrite)
            },
        Err(Error::Overflow) => after == before && exists|trail: Seq<MidiTrack<W, I, E>>| #[trigger]
            is_trail(before, track, trail) && trail.len() == 257,
        Err(Error::Overwrite) => false,
    }
}

/// `after` is `before` with the track on `channel` mixed in at offset 0, or
/// `before` itself where the channel holds no track.
pub open spec fn is_mix_step<W: Wave, I: MidiInstrument<W>, E: Effect<W>>(
    tracks: Map<u8, Track<W, I, E>>,
    channel: u8,
    before: Seq<W::Sample>,
    after: Seq<W::Sample>,
) -> bool {
    if tracks.contains_key(channel) {
        exists|part: W| tracks[channel].renders(part) && crate::wave::is_mix(before, part@, 0, after)
    } else {
        after == before
    }
}

/// The step from `partial[channel]` to `partial[channel + 1]` mixes in the
/// track on `channel`.
pub open spec fn is_step_at<W: Wave, I: MidiInstrument<W>, E: Effect<W>>(
    tracks: Map<u8, Track<W, I, E>>,
    partial: Seq<Seq<W::Sample>>,
    channel: int,
) -> bool {
    is_mix_step(tracks, channel as u8, partial[channel], partial[channel + 1])
}

/// `partial` leads from the empty buffer to `out` by mixing in the tracks
/// in the order of their channels: `partial[c]` is the mix of the tracks on
/// the channels below `c`.
pub open spec fn is_mix_run<W: Wave, I: MidiInstrument<W>, E: Effect<W>>(
    tracks: Map<u8, Track<W, I, E>>,
    partial: Seq<Seq<W::Sample>>,
    out: Seq<W::Sample>,
) -> bool {
    &&& partial.len() == 257
    &&& partial[0].len() == 0
    &&& partial[256] == out
    &&& forall|channel: int| 0 <= channel < 256 ==> #[trigger] is_step_at(tracks, partial, channel)
}

/// `out` is the mixdown of `tracks`: starting from the empty buffer, the
/// tracks are mixed in at offset 0 one after the other, in the order of
/// their channels.
pub open spec fn is_mixdown<W: Wave, I: MidiInstrument<W>, E: Effect<W>>(
    tracks: Map<u8, Track<W, I, E>>,
    out: Seq<W::Sample>,
) -> bool {
    exists|partial: Seq<Seq<W::Sample>>| is_mix_run(tracks, partial, out)
}

impl<W: Wave, I: MidiInstrument<W>, E: Effect<W>> Song<W, I, E> {
    #[verifier::type_invariant]
    spec fn every_track_synchronized(self) -> bool {
        forall|channel: u8| #[trigger]
            self.tracks@.contains_key(channel) ==> self.tracks@[channel].is_synchronized()
    }

    /// The name of the song.
    pub closed spec fn name(&self) -> Seq<char> {
        self.name@
    }

    /// The tracks of the song by channel.
    pub closed spec fn tracks(&self) -> Map<u8, Track<W, I, E>> {
        self.tracks@
    }

    /// A song holds finitely many tracks.
    pub proof fn lemma_tracks_finite(&self)
        ensures
            self.tracks().dom().finite(),
    {
    }

    /// The name of the song.
    pub fn get_name(&self) -> (name: &str)
        ensures
            name@ == self.name(),
    {
        self.name.as_str()
    }

    /// The song called `name`, with no tracks.
    pub fn new(name: String) -> (song: Self)
        ensures
            song.name() == name@,
            song.tracks() == Map::<u8, Track<W, I, E>>::empty(),
    {
        Self { name, tracks: HashMap::new() }
    }

    /// The number of tracks.
    pub fn track_count(&self) -> (count: usize)
        ensures
            count == self.tracks().len(),
            count <= 256,
    {
        proof {
            lemma_at_most_256(self.tracks().dom());
        }
        self.tracks.len()
    }

    /// The track on `channel`, if there is one. A track of a song is always
    /// synchronized.
    pub fn get_track(&self, channel: u8) -> (track: Option<&Track<W, I, E>>)
        ensures
            track == if self.tracks().contains_key(channel) {
                Some(&self.tracks()[channel])
            } else {
                None
            },
            track matches Some(t) ==> t.is_synchronized(),
    {
        proof {
            use_type_invariant(self);
        }
        self.tracks.get(&channel)
    }

    /// The lowest free channel that is not below `from`.
    pub fn next_free_channel(&self, from: u8) -> (found: Option<u8>)
        ensures
            match found {
                Some(channel) => {
                    &&& from <= channel
                    &&& !self.tracks().contains_key(channel)
                    &&& forall|c: u8| from <= c < channel ==> self.tracks().contains_key(c)
                },
                None => forall|c: u8| from <= c ==> self.tracks().contains_key(c),
            },
    {
        let mut channel: u8 = from;
        loop
            invariant
                from <= channel,
                forall|c: u8| from <= c < channel ==> self.tracks().contains_key(c),
            decreases 255 - channel,
        {
            if !self.tracks.contains_key(&channel) {
                return Some(channel);
            }
            if channel == 255 {
                return None;
            }
            channel += 1;
        }
    }

    /// Registers `track` under the lowest free channel that its instrument
    /// takes.
    pub fn add_midi_track(&mut self, track: MidiTrack<W, I, E>) -> (result: Result<(), Error>)
        ensures
            final(self).name() == old(self).name(),
            registers(old(self).tracks(), track, final(self).tracks(), result),
    {
        let mut bound = track;
        let ghost mut trail: Seq<MidiTrack<W, I, E>> = seq![track];
        let mut from: u8 = 0;
        loop
            invariant
                *self == *old(self),
                trail.len() == from + 1,
                trail[0] == track,
                trail[from as int] == bound,
                forall|c: int| 0 <= c < from ==> #[trigger] is_pass_at(self.tracks(), trail, c),
            decreases 256 - from,
        {
            let found = self.next_free_channel(from);
            let ghost reach: int = match found {
                Some(channel) => channel as int,
                None => 256,
            };
            proof {
                // The channels from `from` up to the one found are in use.
                let ghost longer = trail + Seq::new((reach - from) as nat, |i: int| bound);
                assert forall|c: int| 0 <= c < reach implies #[trigger] is_pass_at(
                    self.tracks(),
                    longer,
                    c,
                ) by {
                    if c < from {
                        assert(is_pass_at(self.tracks(), trail, c));
                    }
                }
                trail = longer;
            }
            let channel = match found {
                Some(channel) => channel,
                None => {
                    assert(is_trail(self.tracks(), track, trail));
                    return Err(Error::Overflow);
                },
            };
            let (next, verdict) = bound.put_in_song(channel);
            match verdict {
                Ok(()) => {
                    assert(is_decided(self.tracks(), track, trail, next, verdict));
                    proof {
                        use_type_invariant(&*self);
                    }
                    // `insert` may unwind: the map is changed outside the
                    // song, which holds an empty one meanwhile.
                    let mut tracks = HashMap::new();
                    std::mem::swap(&mut self.tracks, &mut tracks);
                    tracks.insert(channel, Track::Midi(next));
                    self.tracks = tracks;
                    return Ok(());
                },
                Err(Error::Overwrite) => {
                    proof {
                        let ghost longer = trail.push(next);
                        assert forall|c: int| 0 <= c < channel + 1 implies #[trigger] is_pass_at(
                            self.tracks(),
                            longer,
                            c,
                        ) by {
                            if c < channel {
                                assert(is_pass_at(self.tracks(), trail, c));
                            }
                        }
                        trail = longer;
                    }
                    if channel == 255 {
                        assert(is_trail(self.tracks(), track, trail));
                        return Err(Error::Overflow);
                    }
                    bound = next;
                    from = channel + 1;
                },
                Err(error) => {
                    assert(is_decided(self.tracks(), track, trail, next, verdict));
                    return Err(Error::Rejected);
                },
            }
        }
    }

    /// Renders every track and mixes the renderings into one buffer.
    pub fn get_wave(&self) -> (out: W)
        ensures
            is_mixdown(self.tracks(), out@),
            self.tracks().len() == 0 ==> out@.len() == 0,
    {
        let mut wave = W::new();
        let ghost mut partial: Seq<Seq<W::Sample>> = seq![wave@];
        let mut next: usize = 0;
        while next < 256
            invariant
                next <= 256,
                partial.len() == next + 1,
                partial[0].len() == 0,
                partial[next as int] == wave@,
                forall|c: int| 0 <= c < next ==> #[trigger] is_step_at(self.tracks(), partial, c),
                self.tracks().len() == 0 ==> wave@.len() == 0,
            decreases 256 - next,
        {
            let channel = next as u8;
            match self.tracks.get(&channel) {
                Some(track) => {
                    let part = track.play();
                    proof {
                        part.lemma_len_fits();
                    }
                    wave.add_consuming(part, 0);
                },
                None => {},
            }
            proof {
                let ghost grown = partial.push(wave@);
                assert forall|c: int| 0 <= c < next + 1 implies #[trigger] is_step_at(
                    self.tracks(),
                    grown,
                    c,
                ) by {
                    if c < next {
                        assert(is_step_at(self.tracks(), partial, c));
                    }
                }
                partial = grown;
            }
            next += 1;
        }
        assert(is_mix_run(self.tracks(), partial, wave@));
        wave
    }
}

/// 256 tracks fill a song: every channel is in use.
pub proof fn lemma_256_tracks_fill_a_song<T>(tracks: Map<u8, T>)
    requires
        tracks.dom().finite(),
        tracks.len() == 256,
    ensures
        forall|channel: u8| tracks.contains_key(channel),
{
    let all = Set::<int>::new(|c: int| 0 <= c < 256);
    vstd::set_lib::lemma_int_range(0, 256);
    assert(all =~= vstd::set_lib::set_int_range(0, 256));
    let wide = tracks.dom().map(|c: u8| c as int);
    vstd::set_lib::lemma_map_size(tracks.dom(), wide, |c: u8| c as int);
    vstd::set_lib::lemma_subset_equality(wide, all);
    assert forall|channel: u8| tracks.contains_key(channel) by {
        assert(wide.contains(channel as int));
    }
}

/// Along a trail only the instrument of the track changes.
pub proof fn lemma_trail_changes_the_instrument_only<W: Wave, I: MidiInstrument<W>, E: Effect<W>>(
    tracks: Map<u8, Track<W, I, E>>,
    track: MidiTrack<W, I, E>,
    trail: Seq<MidiTrack<W, I, E>>,
    channel: int,
)
    requires
        is_trail(tracks, track, trail),
        0 <= channel < trail.len(),
    ensures
        trail[channel] == (MidiTrack { instrument: trail[channel].instrument, ..track }),
    decreases channel,
{
    if channel > 0 {
        lemma_trail_changes_the_instrument_only(tracks, track, trail, channel - 1);
        assert(is_pass_at(tracks, trail, channel - 1));
    }
}

/// A successful registration never uses a channel that is in use: the song
/// gains one track, under a channel that was free, and every track that was
/// there stays where it was. The new track is the given one with its clock
/// handed to every part.
pub proof fn lemma_registration_adds_one<W: Wave, I: MidiInstrument<W>, E: Effect<W>>(
    before: Map<u8, Track<W, I, E>>,
    track: MidiTrack<W, I, E>,
    after: Map<u8, Track<W, I, E>>,
    result: Result<(), Error>,
)
    requires
        before.dom().finite(),
        registers(before, track, after, result),
        result is Ok,
    ensures
        after.len() == before.len() + 1,
        exists|channel: u8, bound: MidiTrack<W, I, E>|
            {
                &&& !before.contains_key(channel)
                &&& bound.is_synchronized_form_of(track)
                &&& bound.is_synchronized()
                &&& #[trigger] before.insert(channel, Track::Midi(bound)) == after
            },
        forall|channel: u8| #[trigger]
            before.contains_key(channel) ==> after.contains_key(channel) && after[channel] == before[channel],
{
    let (trail, bound, verdict) = choose|
        trail: Seq<MidiTrack<W, I, E>>,
        bound: MidiTrack<W, I, E>,
        verdict: Result<(), Error>,
    |
        {
            &&& #[trigger] is_decided(before, track, trail, bound, verdict)
            &&& verdict is Ok
            &&& after == before.insert(reached(trail), Track::Midi(bound))
        };
    lemma_trail_changes_the_instrument_only(before, track, trail, trail.len() - 1);
    assert(before.insert(reached(trail), Track::Midi(bound)) == after);
}

/// A failed registration leaves the song as it was.
pub proof fn lemma_failed_registration_changes_nothing<W: Wave, I: MidiInstrument<W>, E: Effect<W>>(
    before: Map<u8, Track<W, I, E>>,
    track: MidiTrack<W, I, E>,
    after: Map<u8, Track<W, I, E>>,
    result: Result<(), Error>,
)
    requires
        registers(before, track, after, result),
        result is Err,
    ensures
        after == before,
{
}

/// Registering a track in a song of 256 tracks fails with
/// `Error::Overflow`, and the song keeps its 256 tracks.
pub proof fn lemma_full_song_overflows<W: Wave, I: MidiInstrument<W>, E: Effect<W>>(
    before: Map<u8, Track<W, I, E>>,
    track: MidiTrack<W, I, E>,
    after: Map<u8, Track<W, I, E>>,
    result: Result<(), Error>,
)
    requires
        before.dom().finite(),
        before.len() == 256,
        registers(before, track, after, result),
    ensures
        result == Err::<(), Error>(Error::Overflow),
        after == before,
{
    lemma_256_tracks_fill_a_song(before);
}

/// Where the instruments take every channel, the lowest free channel wins:
/// registration succeeds exactly when a channel is free, and the track then
/// stands under the lowest free one.
pub proof fn lemma_lowest_free_channel_wins<W: Wave, I: MidiInstrument<W>, E: Effect<W>>(
    before: Map<u8, Track<W, I, E>>,
    track: MidiTrack<W, I, E>,
    after: Map<u8, Track<W, I, E>>,
    result: Result<(), Error>,
)
    requires
        crate::instruments::takes_every_channel::<W, I>(),
        registers(before, track, after, result),
    ensures
        result is Ok <==> exists|channel: u8| !before.contains_key(channel),
        result is Ok ==> exists|channel: u8, bound: MidiTrack<W, I, E>|
            {
                &&& !before.contains_key(channel)
                &&& forall|c: u8| c < channel ==> before.contains_key(c)
                &&& bound.is_synchronized_form_of(track)
                &&& #[trigger] before.insert(channel, Track::Midi(bound)) == after
            },
        result is Err ==> result == Err::<(), Error>(Error::Overflow) && after == before,
{
    match result {
        Ok(()) => {
            let (trail, bound, verdict) = choose|
                trail: Seq<MidiTrack<W, I, E>>,
                bound: MidiTrack<W, I, E>,
                verdict: Result<(), Error>,
            |
                {
                    &&& #[trigger] is_decided(before, track, trail, bound, verdict)
                    &&& verdict is Ok
                    &&& after == before.insert(reached(trail), Track::Midi(bound))
                };
            lemma_trail_changes_the_instrument_only(before, track, trail, trail.len() - 1);
            assert forall|c: u8| c < reached(trail) implies before.contains_key(c) by {
                assert(is_pass_at(before, trail, c as int));
            }
            assert(before.insert(reached(trail), Track::Midi(bound)) == after);
        },
        Err(Error::Overflow) => {
            let trail = choose|trail: Seq<MidiTrack<W, I, E>>| #[trigger]
                is_trail(before, track, trail) && trail.len() == 257;
            assert forall|c: u8| before.contains_key(c) by {
                assert(is_pass_at(before, trail, c as int));
            }
        },
        Err(Error::Rejected) => {},
        Err(Error::Overwrite) => {},
    }
}

/// Across channels that hold no track the partial mix does not change.
proof fn lemma_idle_steps<W: Wave, I: MidiInstrument<W>, E: Effect<W>>(
    tracks: Map<u8, Track<W, I, E>>,
    partial: Seq<Seq<W::Sample>>,
    low: int,
    high: int,
)
    requires
        0 <= low <= high <= 256,
        partial.len() == 257,
        forall|channel: int| low <= channel < high ==> #[trigger] is_step_at(tracks, partial, channel),
        forall|channel: u8| low <= channel < high ==> !tracks.contains_key(channel),
    ensures
        partial[high] == partial[low],
    decreases high - low,
{
    if low < high {
        lemma_idle_steps(tracks, partial, low, high - 1);
        assert(is_step_at(tracks, partial, high - 1));
    }
}

/// The mixdown of a song without tracks is the empty buffer.
pub proof fn lemma_empty_song_is_silent<W: Wave, I: MidiInstrument<W>, E: Effect<W>>(
    tracks: Map<u8, Track<W, I, E>>,
    out: Seq<W::Sample>,
)
    requires
        forall|channel: u8| !tracks.contains_key(channel),
        is_mixdown(tracks, out),
    ensures
        out.len() == 0,
{
    let partial = choose|partial: Seq<Seq<W::Sample>>| is_mix_run(tracks, partial, out);
    lemma_idle_steps(tracks, partial, 0, 256);
}

/// The mixdown of a song with a single track is a rendering of that track
/// mixed into the empty buffer at offset 0.
pub proof fn lemma_lone_track<W: Wave, I: MidiInstrument<W>, E: Effect<W>>(
    tracks: Map<u8, Track<W, I, E>>,
    channel: u8,
    out: Seq<W::Sample>,
)
    requires
        forall|c: u8| tracks.contains_key(c) <==> c == channel,
        is_mixdown(tracks, out),
    ensures
        exists|part: W|
            tracks[channel].renders(part) && crate::wave::is_mix(Seq::<W::Sample>::empty(), part@, 0, out),
{
    let partial = choose|partial: Seq<Seq<W::Sample>>| is_mix_run(tracks, partial, out);
    lemma_idle_steps(tracks, partial, 0, channel as int);
    lemma_idle_steps(tracks, partial, channel + 1, 256);
    assert(is_step_at(tracks, partial, channel as int));
}

/// The mixdown of a song whose single track is a silent one is the empty
/// buffer, as is every rendering of that track.
pub proof fn lemma_lone_silent_track<W: Wave>(
    tracks: Map<u8, Track<W, EmptyInstrument<W>, Bypass>>,
    channel: u8,
    out: Seq<W::Sample>,
    part: W,
)
    requires
        forall|c: u8| tracks.contains_key(c) <==> c == channel,
        is_mixdown(tracks, out),
        tracks[channel].renders(part),
    ensures
        out == part@,
        out.len() == 0,
{
    lemma_lone_track(tracks, channel, out);
    let mixed = choose|mixed: W|
        tracks[channel].renders(mixed) && crate::wave::is_mix(Seq::<W::Sample>::empty(), mixed@, 0, out);
    match tracks[channel] {
        Track::Midi(track) => {
            track.lemma_renders_nothing(mixed);
            track.lemma_renders_nothing(part);
        },
    }
}

/// A set of channel ids has at most 256 members.
proof fn lemma_at_most_256(channels: Set<u8>)
    requires
        channels.finite(),
    ensures
        channels.len() <= 256,
{
    let all = Set::<int>::new(|c: int| 0 <= c < 256);
    vstd::set_lib::lemma_int_range(0, 256);
    assert(all =~= vstd::set_lib::set_int_range(0, 256));
    let wide = channels.map(|c: u8| c as int);
    vstd::set_lib::lemma_len_subset(wide, all);
    vstd::set_lib::lemma_map_size(channels, wide, |c: u8| c as int);
}

} // verus!
