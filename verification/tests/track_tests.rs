use music_box_converter::meta_information::MetaInformation;
use music_box_converter::midi::{MidiEvent, MidiEventKind};
use music_box_converter::music_box::MusicBox;
use music_box_converter::note::Note;
use music_box_converter::track::Track;

fn on(delta: u32, pitch: u8, vel: u8) -> MidiEvent {
    MidiEvent { delta, kind: MidiEventKind::NoteOn { pitch, vel } }
}

fn off(delta: u32, pitch: u8) -> MidiEvent {
    MidiEvent { delta, kind: MidiEventKind::NoteOff { pitch, vel: 0 } }
}

fn other(delta: u32) -> MidiEvent {
    MidiEvent { delta, kind: MidiEventKind::Other }
}

/// C4 and D4 (MIDI pitches 60 and 62), strip 2 mm, minimum strike 5 mm.
fn two_note_box() -> MusicBox {
    MusicBox::new(2_000, 5_000, vec![Note::C(4), Note::D(4)])
}

#[test]
fn extraction_times_are_monotonic() {
    let events = vec![
        on(0, 60, 64),
        other(7),
        on(3, 60, 80),
        off(20, 60),
        on(20, 62, 64),
        on(40, 62, 64),
    ];
    let track = Track::from_midi_track(&events, &two_note_box(), &false);
    let abs: Vec<u64> = track.inner.iter().map(|e| e.abs).collect();
    assert_eq!(abs, vec![0, 10, 50, 90]);
    for w in abs.windows(2) {
        assert!(w[0] <= w[1]);
    }
    assert_eq!(track.tick_length(), 90);
}

#[test]
fn distance_metrics_from_nonzero_repeat_gaps() {
    // Pitch 60 repeats at gaps 10 and 160; pitch 62 repeats at gap 40.
    let events = vec![
        on(0, 60, 64),
        on(10, 60, 64),
        on(40, 62, 64),
        on(40, 62, 64),
        on(80, 60, 64),
    ];
    let track = Track::from_midi_track(&events, &two_note_box(), &false);
    assert_eq!(track.min_distance(), 10);
    assert_eq!(track.max_distance(), 160);
    assert!(track.min_distance() <= track.max_distance());
}

#[test]
fn overlapping_notes_are_kept_but_not_measured() {
    // Two plays of one pitch at the same tick: both events stay, the
    // zero gap is left out of the metrics.
    let events = vec![on(5, 60, 64), on(0, 60, 64)];
    let track = Track::from_midi_track(&events, &two_note_box(), &false);
    assert_eq!(track.inner.len(), 2);
    assert_eq!(track.min_distance(), u64::MAX);
    assert_eq!(track.max_distance(), 0);
}

#[test]
fn velocity_zero_and_note_off_advance_time_only() {
    let events = vec![on(0, 60, 64), on(10, 60, 0), off(10, 60), on(10, 60, 64), other(25)];
    let track = Track::from_midi_track(&events, &two_note_box(), &false);
    assert_eq!(track.inner.len(), 2);
    assert_eq!(track.inner[1].abs, 30);
    assert_eq!(track.min_distance(), 30);
    assert_eq!(track.tick_length(), 55);
}

#[test]
fn unplayable_note_skipped_without_transpose() {
    // Pitch 64 (E4) is not on the box: its event disappears and the
    // distance tracking of the other pitches is untouched.
    let events = vec![on(0, 60, 64), on(5, 64, 99), on(5, 60, 64)];
    let track = Track::from_midi_track(&events, &two_note_box(), &false);
    assert_eq!(track.inner.len(), 2);
    assert_eq!(track.inner[0].note, Note::C(4));
    assert_eq!(track.inner[1].note, Note::C(4));
    assert_eq!(track.min_distance(), 10);
    assert_eq!(track.max_distance(), 10);
}

#[test]
fn transposition_search_finds_the_playable_octave() {
    // The box plays only C5; C4 arrives with transposition enabled and
    // is kept as C5, not as C4.
    let high_box = MusicBox::new(1_000, 5_000, vec![Note::C(5)]);
    let events = vec![on(0, 60, 64)];
    let track = Track::from_midi_track(&events, &high_box, &true);
    assert_eq!(track.inner.len(), 1);
    assert_eq!(track.inner[0].note, Note::C(5));
    assert_eq!(track.inner[0].vel, 64);
}

#[test]
fn transposition_search_can_fail() {
    // No octave of D is playable on a box of C5 alone.
    let high_box = MusicBox::new(1_000, 5_000, vec![Note::C(5)]);
    let events = vec![on(0, 62, 64)];
    let track = Track::from_midi_track(&events, &high_box, &true);
    assert_eq!(track.inner.len(), 0);
    assert_eq!(track.tick_length(), 0);
}

#[test]
fn transposed_notes_share_distance_tracking() {
    // C4 and C5 both resolve to C5, so their gap is measured.
    let high_box = MusicBox::new(1_000, 5_000, vec![Note::C(5)]);
    let events = vec![on(0, 60, 64), on(25, 72, 64)];
    let track = Track::from_midi_track(&events, &high_box, &true);
    assert_eq!(track.inner.len(), 2);
    assert_eq!(track.min_distance(), 25);
    assert_eq!(track.max_distance(), 25);
}

#[test]
fn new_track_is_empty() {
    let track = Track::new();
    assert_eq!(track.inner.len(), 0);
    assert_eq!(track.tick_length(), 0);
    assert_eq!(track.min_distance(), 0);
    assert_eq!(track.max_distance(), 0);
}

#[test]
fn delta_events_invert_the_absolute_times() {
    let events = vec![on(0, 60, 64), on(10, 60, 64), on(40, 62, 80)];
    let track = Track::from_midi_track(&events, &two_note_box(), &false);
    let deltas = track.to_delta_events();
    assert_eq!(deltas.len(), 3);
    assert_eq!(deltas[0].delta, 0);
    assert_eq!(deltas[1].delta, 10);
    assert_eq!(deltas[2].delta, 40);
    assert_eq!(deltas[0].pitch, 60);
    assert_eq!(deltas[2].pitch, 62);
    assert_eq!(deltas[2].vel, 80);
}

#[test]
fn meta_information_reads_the_track_metrics() {
    let events = vec![on(0, 60, 64), on(10, 60, 64)];
    let track = Track::from_midi_track(&events, &two_note_box(), &false);
    let meta = MetaInformation::gather(&track);
    assert_eq!(meta.length, 10);
    assert_eq!(meta.min_distance_same_notes, 10);
    assert_eq!(meta.max_distance_same_notes, 10);
}
