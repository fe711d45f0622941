//! Track extraction: turning a decoded MIDI event stream into an absolute-
//! time event list, applying the playability and transposition policy per
//! event, and keeping the same-pitch repeat-distance metrics.
//!
//! The whole algorithm is mirrored by the specification fold
//! [`extract_step`] / [`extract_run`]; the executable extractor is proved
//! equal to that fold, and the laws about extraction are proved from it.

use vstd::prelude::*;

use crate::event::Event;
use crate::midi::{midi_events_wf, MidiEvent, MidiEventKind};
use crate::music_box::MusicBox;
use crate::note::Note;

verus! {

/// Extraction accepts at most this many decoded events per track. With
/// 28-bit delta times, the total tick time then stays below 2^60.
pub const MAX_TRACK_EVENTS: u64 = 0x1_0000_0000;

/// A delta time is below this (it is a 28-bit number).
pub const MAX_DELTA: u64 = 0x1000_0000;

/// No absolute tick time of an accepted track goes above this.
pub const MAX_TICKS: u64 = 0x1000_0000_0000_0000;

/// The state the extraction fold carries: the running time, the last time
/// each resolved pitch was seen, the events kept so far, and the repeat-
/// distance metrics (`u64::MAX` and `0` until the first repeat).
pub ghost struct ExtractState {
    /// The absolute time reached so far, in ticks.
    pub time: int,
    /// For each resolved MIDI pitch, the absolute time it was last played.
    pub last_seen: Map<int, int>,
    /// The events kept so far, in playing order.
    pub events: Seq<Event>,
    /// The smallest non-zero gap between two plays of one pitch.
    pub min_distance: int,
    /// The largest non-zero gap between two plays of one pitch.
    pub max_distance: int,
}

/// The first octave from `o` upward, through 9, at which the pitch class
/// of `n` is playable; `None` if there is none.
pub open spec fn first_playable_octave_from(n: Note, notes: Seq<Note>, o: int) -> Option<int>
    decreases 10 - o,
        when o <= 10
{
    if o > 9 {
        None
    } else if notes.contains(n.spec_transpose(o as i8)) {
        Some(o)
    } else {
        first_playable_octave_from(n, notes, o + 1)
    }
}

/// The note an incoming pitch resolves to: itself when playable; else,
/// with transposition enabled, the same pitch class at the first playable
/// octave of the search range; else nothing, and the event is skipped.
pub open spec fn resolve_note(pitch: int, notes: Seq<Note>, transpose: bool) -> Option<Note> {
    let n = Note::spec_from_midi_pitch(pitch);
    if notes.contains(n) {
        Some(n)
    } else if !transpose {
        None
    } else {
        match first_playable_octave_from(n, notes, -1) {
            Some(o) => Some(n.spec_transpose(o as i8)),
            None => None,
        }
    }
}

/// The state extraction starts from.
pub open spec fn extract_init() -> ExtractState {
    ExtractState {
        time: 0,
        last_seen: Map::empty(),
        events: Seq::empty(),
        min_distance: u64::MAX as int,
        max_distance: 0,
    }
}

/// One event of the fold. Every event advances time by its delta. A
/// note-on with non-zero velocity that resolves to a playable note is
/// kept: a non-zero gap to the previous play of the same pitch updates
/// the distance metrics (a zero gap is two overlapping notes and is left
/// out of the metrics), the pitch's last-seen time is recorded, and the
/// event is appended. Everything else is skipped.
pub open spec fn extract_step(
    s: ExtractState,
    ev: MidiEvent,
    notes: Seq<Note>,
    transpose: bool,
) -> ExtractState {
    let t = s.time + ev.delta;
    let advanced = ExtractState { time: t, ..s };
    match ev.kind {
        MidiEventKind::NoteOn { pitch, vel } => {
            if vel == 0 {
                advanced
            } else {
                match resolve_note(pitch as int, notes, transpose) {
                    None => advanced,
                    Some(note) => {
                        let p = note.spec_midi_pitch();
                        let seen = s.last_seen.contains_key(p);
                        let d = t - s.last_seen[p];
                        ExtractState {
                            time: t,
                            last_seen: s.last_seen.insert(p, t),
                            events: s.events.push(Event { note, abs: t as u64, vel }),
                            min_distance: if seen && d != 0 && d < s.min_distance {
                                d
                            } else {
                                s.min_distance
                            },
                            max_distance: if seen && d != 0 && d > s.max_distance {
                                d
                            } else {
                                s.max_distance
                            },
                        }
                    },
                }
            }
        },
        _ => advanced,
    }
}

/// The fold of [`extract_step`] over an event sequence.
pub open spec fn extract_run(
    s: ExtractState,
    evs: Seq<MidiEvent>,
    notes: Seq<Note>,
    transpose: bool,
) -> ExtractState
    decreases evs.len(),
{
    if evs.len() == 0 {
        s
    } else {
        extract_run(extract_step(s, evs[0], notes, transpose), evs.drop_first(), notes, transpose)
    }
}

/// What extraction makes of an event sequence, from the initial state.
pub open spec fn extract_spec(evs: Seq<MidiEvent>, notes: Seq<Note>, transpose: bool) -> ExtractState {
    extract_run(extract_init(), evs, notes, transpose)
}

/// What holds of every reachable extraction state: time only grows, event
/// times are bounded by it and non-decreasing, every kept event has a
/// non-zero velocity and a playable note, the last-seen times are bounded
/// by the clock and keyed by real pitches, and the distance metrics are
/// either still untouched or ordered and non-zero.
pub open spec fn extract_state_inv(s: ExtractState, notes: Seq<Note>) -> bool {
    &&& 0 <= s.time
    &&& forall|i: int| 0 <= i < s.events.len() ==> (#[trigger] s.events[i]).abs <= s.time
    &&& forall|i: int, j: int|
        0 <= i <= j < s.events.len() ==> (#[trigger] s.events[i]).abs <= (#[trigger] s.events[j]).abs
    &&& forall|i: int| 0 <= i < s.events.len() ==> (#[trigger] s.events[i]).vel >= 1
    &&& forall|i: int| 0 <= i < s.events.len() ==> notes.contains((#[trigger] s.events[i]).note)
    &&& forall|p: int| s.last_seen.contains_key(p) ==> 0 <= #[trigger] s.last_seen[p] <= s.time
    &&& forall|p: int| #[trigger] s.last_seen.contains_key(p) ==> 0 <= p < 128
    &&& (s.min_distance == u64::MAX && s.max_distance == 0) || (1 <= s.min_distance
        <= s.max_distance <= s.time)
}

/// A found octave is within the search range and playable there.
pub proof fn lemma_first_playable_octave(n: Note, notes: Seq<Note>, o: int)
    requires
        -1 <= o <= 10,
        first_playable_octave_from(n, notes, o) is Some,
    ensures
        o <= first_playable_octave_from(n, notes, o)->Some_0 <= 9,
        notes.contains(n.spec_transpose(first_playable_octave_from(n, notes, o)->Some_0 as i8)),
    decreases 10 - o,
{
    if o <= 9 && !notes.contains(n.spec_transpose(o as i8)) {
        lemma_first_playable_octave(n, notes, o + 1);
    }
}

/// A resolved note is playable on the music box.
pub proof fn lemma_resolved_note_playable(pitch: int, notes: Seq<Note>, transpose: bool)
    requires
        resolve_note(pitch, notes, transpose) is Some,
    ensures
        notes.contains(resolve_note(pitch, notes, transpose)->Some_0),
{
    let n = Note::spec_from_midi_pitch(pitch);
    if !notes.contains(n) && transpose {
        lemma_first_playable_octave(n, notes, -1);
    }
}

/// One step keeps the state invariant, as long as the clock cannot
/// overflow a `u64`.
pub proof fn lemma_extract_step_inv(s: ExtractState, ev: MidiEvent, notes: Seq<Note>, transpose: bool)
    requires
        extract_state_inv(s, notes),
        ev.wf(),
        s.time + ev.delta <= u64::MAX,
        forall|i: int|
            0 <= i < notes.len() ==> (#[trigger] notes[i]).midi_representable(),
    ensures
        extract_state_inv(extract_step(s, ev, notes, transpose), notes),
        extract_step(s, ev, notes, transpose).time == s.time + ev.delta,
        extract_step(s, ev, notes, transpose).events.len() >= s.events.len(),
{
    let t = s.time + ev.delta;
    match ev.kind {
        MidiEventKind::NoteOn { pitch, vel } => {
            if vel != 0 {
                match resolve_note(pitch as int, notes, transpose) {
                    Some(note) => {
                        lemma_resolved_note_playable(pitch as int, notes, transpose);
                        let i = choose|i: int| 0 <= i < notes.len() && notes[i] == note;
                        assert(note.midi_representable());
                        let s2 = extract_step(s, ev, notes, transpose);
                        assert forall|k: int| 0 <= k < s2.events.len() implies (#[trigger] s2.events[k]).abs
                            <= s2.time by {
                            if k < s.events.len() {
                                assert(s.events[k].abs <= s.time);
                            }
                        }
                    },
                    None => {},
                }
            }
        },
        _ => {},
    }
}

/// The fold keeps the state invariant, and the clock grows by at most the
/// largest delta per event.
pub proof fn lemma_extract_run_inv(
    s: ExtractState,
    evs: Seq<MidiEvent>,
    notes: Seq<Note>,
    transpose: bool,
)
    requires
        extract_state_inv(s, notes),
        midi_events_wf(evs),
        s.time + evs.len() * (MAX_DELTA - 1) <= u64::MAX,
        forall|i: int|
            0 <= i < notes.len() ==> (#[trigger] notes[i]).midi_representable(),
    ensures
        extract_state_inv(extract_run(s, evs, notes, transpose), notes),
        extract_run(s, evs, notes, transpose).time <= s.time + evs.len() * (MAX_DELTA - 1),
    decreases evs.len(),
{
    if evs.len() > 0 {
        let ev = evs[0];
        assert(ev.wf());
        assert((evs.len() - 1) * (MAX_DELTA - 1) == evs.len() * (MAX_DELTA - 1) - (MAX_DELTA - 1))
            by (nonlinear_arith);
        lemma_extract_step_inv(s, ev, notes, transpose);
        let s2 = extract_step(s, ev, notes, transpose);
        assert(midi_events_wf(evs.drop_first())) by {
            assert forall|i: int| 0 <= i < evs.drop_first().len() implies (#[trigger] evs.drop_first()[i]).wf() by {
                assert(evs.drop_first()[i] == evs[i + 1]);
            }
        }
        lemma_extract_run_inv(s2, evs.drop_first(), notes, transpose);
    }
}

/// A MIDI track in absolute time: the kept events plus the derived
/// timing metrics the layout engine needs.
#[derive(Clone, Debug)]
pub struct Track {
    /// The kept events, in playing order.
    pub inner: Vec<Event>,
    /// The total length in MIDI ticks: the time reached after the last
    /// delta, whether or not that event was kept.
    pub tick_length: u64,
    /// The smallest non-zero gap in ticks between two plays of one pitch;
    /// `u64::MAX` until a first repeat is seen.
    pub min_distance: u64,
    /// The largest non-zero gap in ticks between two plays of one pitch;
    /// `0` until a first repeat is seen.
    pub max_distance: u64,
}

impl Track {
    /// What extraction guarantees of every track it builds: event times
    /// are non-decreasing and within the tick length, every event was
    /// played (non-zero velocity), and the distance metrics are either
    /// untouched or non-zero and ordered.
    pub open spec fn wf(&self) -> bool {
        &&& forall|i: int, j: int|
            0 <= i <= j < self.inner@.len() ==> (#[trigger] self.inner@[i]).abs
                <= (#[trigger] self.inner@[j]).abs
        &&& forall|i: int| 0 <= i < self.inner@.len() ==> (#[trigger] self.inner@[i]).abs
            <= self.tick_length
        &&& forall|i: int| 0 <= i < self.inner@.len() ==> (#[trigger] self.inner@[i]).vel >= 1
        &&& self.tick_length <= MAX_TICKS
        &&& (self.min_distance == u64::MAX && self.max_distance == 0) || (1 <= self.min_distance
            <= self.max_distance <= self.tick_length)
    }

    /// Every kept note is playable on the music box.
    pub open spec fn all_playable(&self, notes: Seq<Note>) -> bool {
        forall|i: int| 0 <= i < self.inner@.len() ==> notes.contains((#[trigger] self.inner@[i]).note)
    }

    /// An empty track with zeroed metrics.
    pub fn new() -> (r: Track)
        ensures
            r.inner@ == Seq::<Event>::empty(),
            r.tick_length == 0,
            r.min_distance == 0,
            r.max_distance == 0,
    {
        Track { inner: Vec::new(), tick_length: 0, min_distance: 0, max_distance: 0 }
    }

    /// The length in MIDI ticks.
    pub fn tick_length(&self) -> (r: u64)
        ensures
            r == self.tick_length,
    {
        self.tick_length
    }

    /// The minimum non-zero distance between two plays of the same pitch.
    pub fn min_distance(&self) -> (r: u64)
        ensures
            r == self.min_distance,
    {
        self.min_distance
    }

    /// The maximum distance between two plays of the same pitch.
    pub fn max_distance(&self) -> (r: u64)
        ensures
            r == self.max_distance,
    {
        self.max_distance
    }

    /// Extracts a track from a decoded MIDI event stream: resolves delta
    /// times to absolute times, applies the playability and transposition
    /// policy per event, and keeps the repeat-distance metrics. The result
    /// is exactly the fold [`extract_spec`] of the input.
    pub fn from_midi_track(events: &Vec<MidiEvent>, music_box: &MusicBox, transpose: &bool) -> (r:
        Track)
        requires
            midi_events_wf(events@),
            events@.len() <= MAX_TRACK_EVENTS,
            music_box.wf_notes(),
        ensures
            ({
                let s = extract_spec(events@, music_box.notes@, *transpose);
                &&& r.inner@ == s.events
                &&& r.tick_length == s.time
                &&& r.min_distance == s.min_distance
                &&& r.max_distance == s.max_distance
            }),
            r.wf(),
            r.all_playable(music_box.notes@),
    {
        let ghost notes = music_box.notes@;
        let ghost tp = *transpose;
        let mut time: u64 = 0;
        let mut min_d: u64 = u64::MAX;
        let mut max_d: u64 = 0;
        let mut out: Vec<Event> = Vec::new();

        // The per-pitch last-seen table: one slot per MIDI pitch.
        let mut last_seen: Vec<Option<u64>> = Vec::new();
        let mut k: usize = 0;
        while k < 128
            invariant
                k <= 128,
                last_seen@.len() == k,
                forall|p: int| 0 <= p < k ==> (#[trigger] last_seen@[p]) is None,
            decreases 128 - k,
        {
            last_seen.push(None);
            k += 1;
        }

        let ghost mut gs = extract_init();
        let n = events.len();
        let mut i: usize = 0;

        proof {
            assert(events@.skip(0) =~= events@);
        }

        while i < n
            invariant
                i <= n,
                n == events@.len(),
                n <= MAX_TRACK_EVENTS,
                midi_events_wf(events@),
                music_box.wf_notes(),
                notes == music_box.notes@,
                tp == *transpose,
                gs.time == time,
                gs.min_distance == min_d,
                gs.max_distance == max_d,
                gs.events == out@,
                last_seen@.len() == 128,
                forall|p: int|
                    0 <= p < 128 ==> match #[trigger] last_seen@[p] {
                        Some(t) => gs.last_seen.contains_key(p) && gs.last_seen[p] == t,
                        None => !gs.last_seen.contains_key(p),
                    },
                extract_state_inv(gs, notes),
                gs.time <= i * ((MAX_DELTA - 1) as int),
                extract_run(gs, events@.skip(i as int), notes, tp) == extract_spec(
                    events@,
                    notes,
                    tp,
                ),
            decreases n - i,
        {
            let ev = events[i];
            proof {
                assert(events@.skip(i as int)[0] == events@[i as int]);
                assert(events@.skip(i as int).drop_first() =~= events@.skip(i as int + 1));
                assert(ev.wf());
                vstd::arithmetic::mul::lemma_mul_inequality(
                    i as int,
                    MAX_TRACK_EVENTS as int,
                    (MAX_DELTA - 1) as int,
                );
                assert(gs.time + ev.delta <= u64::MAX);
                assert((i + 1) * ((MAX_DELTA - 1) as int) == i * ((MAX_DELTA - 1) as int) + (
                (MAX_DELTA - 1) as int)) by (nonlinear_arith);
                lemma_extract_step_inv(gs, ev, notes, tp);
            }
            time = time + (ev.delta as u64);
            let ghost gs_before = gs;
            proof {
                gs = extract_step(gs_before, ev, notes, tp);
                assert(extract_run(gs_before, events@.skip(i as int), notes, tp) == extract_run(
                    gs,
                    events@.skip(i as int + 1),
                    notes,
                    tp,
                ));
            }

            match ev.kind {
                MidiEventKind::NoteOn { pitch, vel } => {
                    if vel > 0 {
                        let base = Note::from_midi_pitch(pitch);
                        let resolved: Option<Note>;
                        if music_box.is_valid_note(&base) {
                            resolved = Some(base);
                        } else if !*transpose {
                            resolved = None;
                        } else {
                            resolved = search_playable_octave(&base, music_box);
                        }
                        proof {
                            assert(resolved == resolve_note(pitch as int, notes, tp));
                        }
                        match resolved {
                            Some(note) => {
                                proof {
                                    lemma_resolved_note_playable(pitch as int, notes, tp);
                                    let idx = choose|ii: int|
                                        0 <= ii < notes.len() && notes[ii] == note;
                                    assert(notes[idx].midi_representable());
                                }
                                let p = note.to_midi_pitch();
                                let pu = p as usize;
                                match last_seen[pu] {
                                    Some(lt) => {
                                        let distance = time - lt;
                                        if distance != 0 {
                                            if distance < min_d {
                                                min_d = distance;
                                            }
                                            if distance > max_d {
                                                max_d = distance;
                                            }
                                        }
                                    },
                                    None => {},
                                }
                                last_seen[pu] = Some(time);
                                out.push(Event::new(note, time, vel));
                            },
                            None => {},
                        }
                    }
                },
                _ => {},
            }
            i += 1;
        }

        proof {
            assert(events@.skip(n as int) =~= Seq::<MidiEvent>::empty());
        }
        Track { inner: out, tick_length: time, min_distance: min_d, max_distance: max_d }
    }
}

/// One note event in delta time, ready to be re-encoded as MIDI: the gap
/// to the previous kept event, and the pitch and velocity to strike.
#[derive(Clone, Copy, Debug, PartialEq, Eq, Structural)]
pub struct DeltaEvent {
    /// Ticks since the previous kept event (since tick zero for the first).
    pub delta: u64,
    /// The MIDI pitch number of the note.
    pub pitch: u8,
    /// The velocity of the note.
    pub vel: u8,
}

impl Track {
    /// Rebuilds delta-time note events from the track by subtracting
    /// consecutive absolute times, for emitting a diagnostic MIDI file of
    /// the possibly transposed track.
    pub fn to_delta_events(&self) -> (r: Vec<DeltaEvent>)
        requires
            self.wf(),
            forall|i: int|
                0 <= i < self.inner@.len() ==> (#[trigger] self.inner@[i]).note.midi_representable(),
        ensures
            r@.len() == self.inner@.len(),
            forall|i: int|
                0 <= i < r@.len() ==> (#[trigger] r@[i]).delta == self.inner@[i].abs - (if i == 0 {
                    0
                } else {
                    self.inner@[i - 1].abs
                }),
            forall|i: int|
                0 <= i < r@.len() ==> (#[trigger] r@[i]).pitch
                    == self.inner@[i].note.spec_midi_pitch(),
            forall|i: int| 0 <= i < r@.len() ==> (#[trigger] r@[i]).vel == self.inner@[i].vel,
    {
        let mut out: Vec<DeltaEvent> = Vec::new();
        let mut prev_abs: u64 = 0;
        let n = self.inner.len();
        let mut i: usize = 0;
        while i < n
            invariant
                i <= n,
                n == self.inner@.len(),
                self.wf(),
                forall|q: int|
                    0 <= q < self.inner@.len() ==> (#[trigger] self.inner@[q]).note.midi_representable(),
                out@.len() == i,
                prev_abs == if i == 0 {
                    0
                } else {
                    self.inner@[i - 1].abs
                },
                forall|q: int|
                    0 <= q < i ==> (#[trigger] out@[q]).delta == self.inner@[q].abs - (if q == 0 {
                        0
                    } else {
                        self.inner@[q - 1].abs
                    }),
                forall|q: int|
                    0 <= q < i ==> (#[trigger] out@[q]).pitch
                        == self.inner@[q].note.spec_midi_pitch(),
                forall|q: int| 0 <= q < i ==> (#[trigger] out@[q]).vel == self.inner@[q].vel,
            decreases n - i,
        {
            let ev = &self.inner[i];
            proof {
                if i > 0 {
                    assert(self.inner@[i - 1].abs <= self.inner@[i as int].abs);
                }
            }
            let delta: u64 = ev.abs - prev_abs;
            let pitch: u8 = ev.note.to_midi_pitch();
            out.push(DeltaEvent { delta, pitch, vel: ev.vel });
            prev_abs = ev.abs;
            i += 1;
        }
        out
    }
}

/// The state invariant holds of the end state of extraction.
pub proof fn lemma_extract_spec_inv(evs: Seq<MidiEvent>, notes: Seq<Note>, transpose: bool)
    requires
        midi_events_wf(evs),
        evs.len() <= MAX_TRACK_EVENTS,
        forall|i: int| 0 <= i < notes.len() ==> (#[trigger] notes[i]).midi_representable(),
    ensures
        extract_state_inv(extract_spec(evs, notes, transpose), notes),
{
    vstd::arithmetic::mul::lemma_mul_inequality(
        evs.len() as int,
        MAX_TRACK_EVENTS as int,
        (MAX_DELTA - 1) as int,
    );
    lemma_extract_run_inv(extract_init(), evs, notes, transpose);
}

/// Law: the event times of every extracted track are non-decreasing in
/// playing order.
pub proof fn lemma_extraction_times_monotonic(
    evs: Seq<MidiEvent>,
    notes: Seq<Note>,
    transpose: bool,
)
    requires
        midi_events_wf(evs),
        evs.len() <= MAX_TRACK_EVENTS,
        forall|i: int| 0 <= i < notes.len() ==> (#[trigger] notes[i]).midi_representable(),
    ensures
        forall|i: int, j: int|
            0 <= i <= j < extract_spec(evs, notes, transpose).events.len() ==> (#[trigger] extract_spec(
                evs,
                notes,
                transpose,
            ).events[i]).abs <= (#[trigger] extract_spec(evs, notes, transpose).events[j]).abs,
{
    lemma_extract_spec_inv(evs, notes, transpose);
}

/// Law: the distance metrics hold their initial sentinels until some pitch
/// repeats at a non-zero gap, and from then on the minimum is at least 1
/// and no larger than the maximum. Both are computed from non-zero repeat
/// gaps only.
pub proof fn lemma_distance_metrics_ordered(evs: Seq<MidiEvent>, notes: Seq<Note>, transpose: bool)
    requires
        midi_events_wf(evs),
        evs.len() <= MAX_TRACK_EVENTS,
        forall|i: int| 0 <= i < notes.len() ==> (#[trigger] notes[i]).midi_representable(),
    ensures
        ({
            let s = extract_spec(evs, notes, transpose);
            (s.min_distance == u64::MAX && s.max_distance == 0) || (1 <= s.min_distance
                <= s.max_distance)
        }),
{
    lemma_extract_spec_inv(evs, notes, transpose);
}

/// Law: an event whose pitch the music box cannot play, with transposition
/// disabled, only advances the clock: no event is kept, and neither the
/// distance metrics nor any pitch's last-seen time moves.
pub proof fn lemma_unplayable_note_skipped(s: ExtractState, ev: MidiEvent, notes: Seq<Note>)
    requires
        match ev.kind {
            MidiEventKind::NoteOn { pitch, vel } => vel >= 1 && !notes.contains(
                Note::spec_from_midi_pitch(pitch as int),
            ),
            _ => false,
        },
    ensures
        extract_step(s, ev, notes, false) == (ExtractState { time: s.time + ev.delta, ..s }),
{
}

/// Law: an unplayable pitch with transposition enabled, where some octave
/// of the search range makes the pitch class playable, is kept as an event
/// carrying the note transposed to the first such octave, which is
/// playable; the original note is not kept.
pub proof fn lemma_transposition_search(s: ExtractState, ev: MidiEvent, notes: Seq<Note>)
    requires
        match ev.kind {
            MidiEventKind::NoteOn { pitch, vel } => vel >= 1 && !notes.contains(
                Note::spec_from_midi_pitch(pitch as int),
            ) && first_playable_octave_from(
                Note::spec_from_midi_pitch(pitch as int),
                notes,
                -1,
            ) is Some,
            _ => false,
        },
    ensures
        match ev.kind {
            MidiEventKind::NoteOn { pitch, vel } => {
                let n = Note::spec_from_midi_pitch(pitch as int);
                let o = first_playable_octave_from(n, notes, -1)->Some_0;
                let t = s.time + ev.delta;
                &&& extract_step(s, ev, notes, true).events == s.events.push(
                    Event { note: n.spec_transpose(o as i8), abs: t as u64, vel },
                )
                &&& notes.contains(n.spec_transpose(o as i8))
            },
            _ => true,
        },
{
    match ev.kind {
        MidiEventKind::NoteOn { pitch, vel } => {
            lemma_first_playable_octave(Note::spec_from_midi_pitch(pitch as int), notes, -1);
        },
        _ => {},
    }
}

/// Searches the octave range -1 through 9, lowest first, for the first
/// octave at which the note's pitch class is playable; returns the note
/// moved there.
fn search_playable_octave(note: &Note, music_box: &MusicBox) -> (r: Option<Note>)
    ensures
        r == match first_playable_octave_from(*note, music_box.notes@, -1) {
            Some(o) => Some(note.spec_transpose(o as i8)),
            None => None,
        },
{
    let mut o: i8 = -1;
    loop
        invariant
            -1 <= o <= 10,
            first_playable_octave_from(*note, music_box.notes@, -1) == first_playable_octave_from(
                *note,
                music_box.notes@,
                o as int,
            ),
        decreases 10 - o as int,
    {
        if o > 9 {
            return None;
        }
        let cand = note.transpose(o);
        if music_box.is_valid_note(&cand) {
            return Some(cand);
        }
        o = o + 1;
    }
}

} // verus!
