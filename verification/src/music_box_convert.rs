//! The conversion pipeline: decode the MIDI bytes, pick the requested
//! track, extract it against the music box, and run the layout engine.
//! File reading and SVG text emission stay outside the library.

use vstd::prelude::*;

use crate::error::ConvertError;
use crate::layout::{generate_svgs, page_geometry, spec_paginate, sprocket_carry};
use crate::midi::{midi_error_text, parse_smf, parsed_midi_tracks};
use crate::music_box::MusicBox;
use crate::settings::Settings;
use crate::svg::document::Document;
use crate::track::{extract_spec, Track, MAX_TRACK_EVENTS};

verus! {

/// Converts a standard MIDI file into per-page geometry: decodes the
/// bytes, selects the zero-based track, extracts its playable events
/// under the transposition policy, and lays the pages out. Each failure
/// names its cause: undecodable bytes, a track index at or past the
/// track count, an oversized track, fewer than two playable notes, or a
/// music box that cannot give a scale factor.
pub fn convert(
    bytes: &[u8],
    track_number: usize,
    transpose: bool,
    music_box: &MusicBox,
    settings: &Settings,
) -> (r: Result<Vec<Document>, ConvertError>)
    requires
        music_box.wf(),
        settings.wf(),
    ensures
        parsed_midi_tracks(bytes@) is None <==> r matches Err(ConvertError::MidiParse(_)),
        parsed_midi_tracks(bytes@) matches Some(tracks) ==> {
            &&& (track_number >= tracks.len() ==> r == Err::<Vec<Document>, ConvertError>(
                ConvertError::TrackIndexOutOfBounds {
                    index: track_number,
                    count: tracks.len() as usize,
                },
            ))
            &&& (track_number < tracks.len() && tracks[track_number as int].len()
                > MAX_TRACK_EVENTS ==> r == Err::<Vec<Document>, ConvertError>(
                ConvertError::TrackTooLong,
            ))
            &&& (track_number < tracks.len() && tracks[track_number as int].len()
                <= MAX_TRACK_EVENTS ==> {
                let t = extract_spec(tracks[track_number as int], music_box.notes@, transpose);
                &&& (t.events.len() < 2 ==> r == Err::<Vec<Document>, ConvertError>(
                    ConvertError::InsufficientPlayableNotes { count: t.events.len() as usize },
                ))
                &&& (t.events.len() >= 2 && music_box.notes@.len() < 2 ==> r == Err::<
                    Vec<Document>,
                    ConvertError,
                >(ConvertError::DegenerateScaleFactor))
                &&& (t.events.len() >= 2 && music_box.notes@.len() >= 2 ==> (r matches Ok(docs)
                    && {
                    let md = t.min_distance;
                    let mpd = music_box.min_note_distance_um as int;
                    let staff = settings.staff_offset_um as int;
                    let paper = settings.paper_size_x_um as int;
                    let pages = spec_paginate(t.events, mpd, md, staff, paper);
                    &&& docs@.len() == pages.len()
                    &&& forall|k: int|
                        0 <= k < pages.len() ==> (#[trigger] docs@[k])@ == page_geometry(
                            pages[k].events,
                            pages[k].overflow_ticks,
                            sprocket_carry(pages, k, *music_box, *settings, md),
                            *music_box,
                            *settings,
                            md,
                        )
                }))
            })
        },
{
    let tracks = match parse_smf(bytes) {
        Ok(t) => t,
        Err(e) => {
            return Err(ConvertError::MidiParse(midi_error_text(&e)));
        },
    };
    if track_number >= tracks.len() {
        return Err(ConvertError::TrackIndexOutOfBounds { index: track_number, count: tracks.len() });
    }
    let events = &tracks[track_number];
    if (events.len() as u64) > MAX_TRACK_EVENTS {
        return Err(ConvertError::TrackTooLong);
    }
    let track = Track::from_midi_track(events, music_box, &transpose);
    generate_svgs(&track, music_box, settings)
}

} // verus!
