//! A single played note: a note, an absolute time and a velocity.

use vstd::prelude::*;

use crate::note::Note;

verus! {

/// A played note with its absolute time. MIDI tracks carry delta times;
/// track extraction resolves them to absolute tick times.
#[derive(Clone, Copy, Debug, PartialEq, Eq, Structural)]
pub struct Event {
    /// The note of the event.
    pub note: Note,
    /// The absolute time of the event, in MIDI ticks.
    pub abs: u64,
    /// The velocity of the event.
    pub vel: u8,
}

impl Event {
    /// Builds an event from its parts.
    pub fn new(note: Note, abs: u64, vel: u8) -> (r: Event)
        ensures
            r == (Event { note, abs, vel }),
    {
        Event { note, abs, vel }
    }
}

} // verus!
