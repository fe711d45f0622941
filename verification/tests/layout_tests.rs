use music_box_converter::error::ConvertError;
use music_box_converter::frac::Frac;
use music_box_converter::layout::{draw_page, generate_svgs, paginate, set_scale_factor};
use music_box_converter::midi::{MidiEvent, MidiEventKind};
use music_box_converter::music_box::MusicBox;
use music_box_converter::note::Note;
use music_box_converter::settings::Settings;
use music_box_converter::svg::document::{Document, Element};
use music_box_converter::track::Track;

fn on(delta: u32, pitch: u8, vel: u8) -> MidiEvent {
    MidiEvent { delta, kind: MidiEventKind::NoteOn { pitch, vel } }
}

/// C4 and D4, strip 2 mm, minimum strike 5 mm.
fn two_note_box() -> MusicBox {
    MusicBox::new(2_000, 5_000, vec![Note::C(4), Note::D(4)])
}

/// 50 mm page, 10 mm staff offset, sprockets off.
fn plain_settings() -> Settings {
    Settings {
        paper_size_x_um: 50_000,
        staff_offset_um: 10_000,
        staff_line_thickness_um: 1_000,
        staff_line_colour: String::from("#000000"),
        staff_bounding_box_thickness_um: 1_000,
        staff_bounding_box_top_bottom_distance_um: 5_000,
        staff_bounding_box_top_bottom_colour: String::from("#00ff00"),
        staff_bounding_box_left_right_colour: String::from("#ff00ff"),
        hole_radius_um: 1_000,
        hole_colour: String::from("#ff0000"),
        sprocket_hole_enable: false,
        sprocket_hole_distance_um: 7_000,
        sprocket_hole_distance_staff_um: 3_000,
        sprocket_hole_colour: String::from("#0000ff"),
    }
}

/// Abs times 0, 10, 50, 90, 170 on pitches 60/62; minimum repeat gap 10.
fn five_event_track() -> Track {
    let events = vec![
        on(0, 60, 64),
        on(10, 60, 64),
        on(40, 62, 64),
        on(40, 62, 64),
        on(80, 60, 64),
    ];
    Track::from_midi_track(&events, &two_note_box(), &false)
}

fn circles(doc: &Document) -> Vec<(i128, u64, i128, u64)> {
    doc.children
        .iter()
        .filter_map(|e| match e {
            Element::Circle(c) => Some((c.centre.x.num, c.centre.x.den, c.centre.y.num, c.centre.y.den)),
            Element::Line(_) => None,
        })
        .collect()
}

fn line_count(doc: &Document) -> usize {
    doc.children
        .iter()
        .filter(|e| matches!(e, Element::Line(_)))
        .count()
}

#[test]
fn scale_factor_is_exact() {
    // 5.0 mm minimum playable distance over 10 ticks minimum repeat
    // distance: scaleX is exactly 0.5 mm per tick.
    let track = five_event_track();
    assert_eq!(track.min_distance(), 10);
    let scale = set_scale_factor(&two_note_box(), &track).unwrap();
    assert_eq!(scale.x, Frac { num: 5_000, den: 10 });
    let mm_per_tick = scale.x.num as f64 / scale.x.den as f64 / 1_000.0;
    assert_eq!(mm_per_tick, 0.5);
    assert_eq!(scale.y, Frac { num: 2_000, den: 1 });
}

#[test]
fn scale_factor_rejects_degenerate_inputs() {
    let track = five_event_track();
    let one_note_box = MusicBox::new(1_000, 5_000, vec![Note::C(4)]);
    assert_eq!(set_scale_factor(&one_note_box, &track), Err(ConvertError::DegenerateScaleFactor));
    let zero_track = Track::new();
    assert_eq!(
        set_scale_factor(&two_note_box(), &zero_track),
        Err(ConvertError::DegenerateScaleFactor)
    );
}

#[test]
fn insufficient_notes_fail_before_any_scale_factor() {
    let empty = Track::from_midi_track(&vec![], &two_note_box(), &false);
    assert_eq!(
        generate_svgs(&empty, &two_note_box(), &plain_settings()),
        Err(ConvertError::InsufficientPlayableNotes { count: 0 })
    );
    let single = Track::from_midi_track(&vec![on(0, 60, 64)], &two_note_box(), &false);
    assert_eq!(
        generate_svgs(&single, &two_note_box(), &plain_settings()),
        Err(ConvertError::InsufficientPlayableNotes { count: 1 })
    );
}

#[test]
fn pagination_splits_where_the_page_ends() {
    // Break when dt * 0.5 mm + 10 mm > 50 mm, i.e. past 80 ticks.
    let track = five_event_track();
    let scale = set_scale_factor(&two_note_box(), &track).unwrap();
    let pages = paginate(&track, &scale, &plain_settings());
    assert_eq!(pages.len(), 3);
    let abs0: Vec<u64> = pages[0].events.iter().map(|e| e.abs).collect();
    assert_eq!(abs0, vec![0, 10, 50]);
    assert_eq!(pages[0].overflow_ticks, 0);
    assert_eq!(pages[1].events.len(), 1);
    assert_eq!(pages[1].events[0].abs, 90);
    assert_eq!(pages[1].overflow_ticks, 40);
    assert_eq!(pages[2].events[0].abs, 170);
    assert_eq!(pages[2].overflow_ticks, 80);
    let total: usize = pages.iter().map(|p| p.events.len()).sum();
    assert_eq!(total, track.inner.len());
}

#[test]
fn pagination_overflow_keeps_positions_continuous() {
    // The first hole of the second page sits at
    // overflowTicks * scaleX + staffOffset = 40 * 0.5 mm + 10 mm = 30 mm.
    let track = five_event_track();
    let docs = generate_svgs(&track, &two_note_box(), &plain_settings()).unwrap();
    assert_eq!(docs.len(), 3);
    let holes1 = circles(&docs[1]);
    assert_eq!(holes1.len(), 1);
    assert_eq!(holes1[0].0, 40 * 5_000 + 10_000 * 10);
    assert_eq!(holes1[0].1, 10);
    assert_eq!(holes1[0].0 as f64 / holes1[0].1 as f64, 30_000.0);
    // No event is lost or duplicated across the split.
    let total: usize = docs.iter().map(|d| circles(d).len()).sum();
    assert_eq!(total, 5);
}

#[test]
fn page_geometry_counts_and_positions() {
    let track = five_event_track();
    let docs = generate_svgs(&track, &two_note_box(), &plain_settings()).unwrap();
    // Two note lines and four frame edges per page, sprockets disabled.
    assert_eq!(line_count(&docs[0]), 6);
    assert_eq!(docs[0].children.len(), 6 + 3);
    let holes0 = circles(&docs[0]);
    // First page, first hole: C4 at tick 0 sits at the staff offset,
    // on the lower of the two note lines (the first listed note).
    assert_eq!(holes0[0].0, 10_000 * 10);
    assert_eq!(holes0[0].1, 10);
    assert_eq!(holes0[0].2, (2 - 1) * 2_000 + 10_000 * 1);
    assert_eq!(holes0[0].3, 1);
    // Third hole: D4 at tick 50 sits at 35 mm, on the upper line.
    assert_eq!(holes0[2].0, 50 * 5_000 + 10_000 * 10);
    assert_eq!(holes0[2].2, (2 - 2) * 2_000 + 10_000 * 1);
}

#[test]
fn pages_span_the_whole_strip() {
    // Each page's note lines end at staffOffset + pageWidth * scaleX;
    // the page widths in ticks (50, 40 and 80) sum to the full elapsed
    // time, 170 ticks: the cut strip is neither stretched nor shrunk.
    let track = five_event_track();
    let docs = generate_svgs(&track, &two_note_box(), &plain_settings()).unwrap();
    let mut width_ticks_total: i128 = 0;
    for doc in &docs {
        let first_line = match &doc.children[0] {
            Element::Line(l) => l,
            Element::Circle(_) => panic!("a page starts with its note lines"),
        };
        assert_eq!(first_line.end.x.den, 10);
        width_ticks_total += (first_line.end.x.num - 10_000 * 10) / 5_000;
    }
    assert_eq!(width_ticks_total, 170);
}

#[test]
fn sprocket_pattern_carries_its_phase() {
    let mut settings = plain_settings();
    settings.sprocket_hole_enable = true;
    let track = five_event_track();
    let docs = generate_svgs(&track, &two_note_box(), &settings).unwrap();
    // Page one spans 25 mm of drawn width: holes at 10, 17, 24, 31 mm,
    // in two rows.
    let holes0 = circles(&docs[0]);
    assert_eq!(holes0.len(), 3 + 8);
    let spr0: Vec<i128> = holes0[3..].iter().map(|h| h.0).collect();
    assert_eq!(
        spr0,
        vec![100_000, 100_000, 170_000, 170_000, 240_000, 240_000, 310_000, 310_000]
    );
    // The carried phase is 50 mm - 10 mm - 31 mm = 9 mm, so page two's
    // first sprocket hole sits at 19 mm.
    let holes1 = circles(&docs[1]);
    assert_eq!(holes1.len(), 1 + 4);
    assert_eq!(holes1[1].0, 190_000);
    assert_eq!(holes1[1].1, 10);
}

#[test]
fn a_track_without_repeats_still_lays_out() {
    // With no repeated pitch the minimum distance keeps its sentinel,
    // the horizontal scale becomes vanishingly small, and everything
    // fits on one page.
    let events = vec![on(0, 60, 64), on(10, 62, 64)];
    let track = Track::from_midi_track(&events, &two_note_box(), &false);
    assert_eq!(track.min_distance(), u64::MAX);
    assert_eq!(track.max_distance(), 0);
    let scale = set_scale_factor(&two_note_box(), &track).unwrap();
    assert_eq!(scale.x, Frac { num: 5_000, den: u64::MAX });
    let docs = generate_svgs(&track, &two_note_box(), &plain_settings()).unwrap();
    assert_eq!(docs.len(), 1);
    assert_eq!(circles(&docs[0]).len(), 2);
}

#[test]
fn draw_page_returns_the_sprocket_phase() {
    let mut settings = plain_settings();
    settings.sprocket_hole_enable = true;
    let track = five_event_track();
    let scale = set_scale_factor(&two_note_box(), &track).unwrap();
    let pages = paginate(&track, &scale, &settings);
    let (doc, carry) = draw_page(
        &pages[0].events,
        pages[0].overflow_ticks,
        Frac { num: 0, den: scale.x.den },
        &two_note_box(),
        &settings,
        &scale,
    );
    assert_eq!(doc.children.len(), 6 + 3 + 8);
    assert_eq!(carry, Frac { num: 90_000, den: 10 });
}
