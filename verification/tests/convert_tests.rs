use midly::num::{u15, u28, u4, u7};
use midly::{Format, Header, MidiMessage, Smf, Timing, TrackEvent, TrackEventKind};
use music_box_converter::error::ConvertError;
use music_box_converter::music_box::MusicBox;
use music_box_converter::music_box_convert::convert;
use music_box_converter::note::Note;
use music_box_converter::settings::Settings;
use music_box_converter::svg::document::{Document, Element};

fn note_on(delta: u32, key: u8, vel: u8) -> TrackEvent<'static> {
    TrackEvent {
        delta: u28::from(delta),
        kind: TrackEventKind::Midi {
            channel: u4::from(0),
            message: MidiMessage::NoteOn { key: u7::from(key), vel: u7::from(vel) },
        },
    }
}

fn smf_bytes(track: Vec<TrackEvent<'static>>) -> Vec<u8> {
    let header = Header::new(Format::SingleTrack, Timing::Metrical(u15::from(480)));
    let mut smf = Smf::new(header);
    smf.tracks.push(track);
    let mut buf: Vec<u8> = Vec::new();
    smf.write(&mut buf).unwrap();
    buf
}

fn two_note_box() -> MusicBox {
    MusicBox::new(2_000, 5_000, vec![Note::C(4), Note::D(4)])
}

fn plain_settings() -> Settings {
    Settings {
        paper_size_x_um: 50_000,
        staff_offset_um: 10_000,
        staff_line_thickness_um: 1_000,
        staff_line_colour: String::from("#000000"),
        staff_bounding_box_thickness_um: 1_000,
        staff_bounding_box_top_bottom_distance_um: 5_000,
        staff_bounding_box_top_bottom_colour: String::from("#00ff00"),
        staff_bounding_box_left_right_colour: String::from("#ff00ff"),
        hole_radius_um: 1_000,
        hole_colour: String::from("#ff0000"),
        sprocket_hole_enable: false,
        sprocket_hole_distance_um: 7_000,
        sprocket_hole_distance_staff_um: 3_000,
        sprocket_hole_colour: String::from("#0000ff"),
    }
}

fn circle_xs(doc: &Document) -> Vec<(i128, u64)> {
    doc.children
        .iter()
        .filter_map(|e| match e {
            Element::Circle(c) => Some((c.centre.x.num, c.centre.x.den)),
            Element::Line(_) => None,
        })
        .collect()
}

#[test]
fn convert_runs_the_whole_pipeline() {
    // The same five events as the layout tests, this time decoded from
    // real MIDI bytes: three pages, with the second page's only hole at
    // 30 mm. A decoder that handed the bytes back unchanged could not
    // produce these positions.
    let bytes = smf_bytes(vec![
        note_on(0, 60, 64),
        note_on(10, 60, 64),
        note_on(40, 62, 64),
        note_on(40, 62, 64),
        note_on(80, 60, 64),
    ]);
    let docs = convert(&bytes, 0, false, &two_note_box(), &plain_settings()).unwrap();
    assert_eq!(docs.len(), 3);
    let holes1 = circle_xs(&docs[1]);
    assert_eq!(holes1, vec![(300_000, 10)]);
}

#[test]
fn convert_applies_the_transposition_policy() {
    // Pitch 48 (C3) is not on the box; with transposition enabled it is
    // played as C4, without it the track keeps too few notes.
    let bytes = smf_bytes(vec![note_on(0, 48, 64), note_on(10, 60, 64)]);
    let docs = convert(&bytes, 0, true, &two_note_box(), &plain_settings()).unwrap();
    assert_eq!(docs.len(), 1);
    assert_eq!(circle_xs(&docs[0]).len(), 2);
    assert_eq!(
        convert(&bytes, 0, false, &two_note_box(), &plain_settings()),
        Err(ConvertError::InsufficientPlayableNotes { count: 1 })
    );
}

#[test]
fn convert_rejects_a_track_index_past_the_count() {
    let bytes = smf_bytes(vec![note_on(0, 60, 64)]);
    assert_eq!(
        convert(&bytes, 5, false, &two_note_box(), &plain_settings()),
        Err(ConvertError::TrackIndexOutOfBounds { index: 5, count: 1 })
    );
}

#[test]
fn convert_rejects_bytes_that_are_no_midi_file() {
    let r = convert(b"not a midi file", 0, false, &two_note_box(), &plain_settings());
    assert!(matches!(r, Err(ConvertError::MidiParse(_))));
}

#[test]
fn convert_rejects_a_degenerate_music_box() {
    let one_note_box = MusicBox::new(1_000, 5_000, vec![Note::C(4)]);
    let bytes = smf_bytes(vec![note_on(0, 60, 64), note_on(10, 60, 64)]);
    assert_eq!(
        convert(&bytes, 0, false, &one_note_box, &plain_settings()),
        Err(ConvertError::DegenerateScaleFactor)
    );
}
