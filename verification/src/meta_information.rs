//! The derived timing metrics of a track, as a value of their own.

use vstd::prelude::*;

verus! {

/// The timing metrics a track derives while it is extracted: its length
/// and the same-pitch repeat-distance range. [`crate::track::Track`]
/// carries the same three values beside its events; this shape holds
/// them alone.
#[derive(Clone, Copy, Debug, PartialEq, Eq, Structural)]
pub struct MetaInformation {
    /// The total length in MIDI ticks.
    pub length: u64,
    /// The minimum non-zero gap between two plays of one pitch.
    pub min_distance_same_notes: u64,
    /// The maximum gap between two plays of one pitch.
    pub max_distance_same_notes: u64,
}

impl MetaInformation {
    /// Reads the three metrics out of a track.
    pub fn gather(track: &crate::track::Track) -> (r: MetaInformation)
        ensures
            r.length == track.tick_length,
            r.min_distance_same_notes == track.min_distance,
            r.max_distance_same_notes == track.max_distance,
    {
        MetaInformation {
            length: track.tick_length,
            min_distance_same_notes: track.min_distance,
            max_distance_same_notes: track.max_distance,
        }
    }
}

} // verus!
