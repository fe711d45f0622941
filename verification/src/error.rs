//! The conversion errors. Per-event anomalies (an unplayable note, two
//! overlapping notes) are recovered locally by skipping the event and are
//! not errors; everything here aborts the conversion.

use vstd::prelude::*;

verus! {

/// A terminal failure of a conversion attempt.
#[derive(Clone, Debug, PartialEq, Eq)]
pub enum ConvertError {
    /// The selected track index is not below the file's track count.
    TrackIndexOutOfBounds {
        /// The zero-based index that was asked for.
        index: usize,
        /// How many tracks the file holds.
        count: usize,
    },
    /// Fewer than two playable notes survived extraction, so no scale
    /// factor can be computed.
    InsufficientPlayableNotes {
        /// How many events the track holds.
        count: usize,
    },
    /// The music box or the track metrics cannot give a usable scale
    /// factor: fewer than two playable notes on the box, or a minimum
    /// repeat distance of zero.
    DegenerateScaleFactor,
    /// The track holds more decoded events than extraction accepts.
    TrackTooLong,
    /// The MIDI decoder refused the bytes; the text is its message.
    MidiParse(String),
}

} // verus!
