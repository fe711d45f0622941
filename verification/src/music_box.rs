//! The music box descriptor: which notes the mechanism can play, how tall
//! the strip is, and how close two strikes of the same pin may come.

use vstd::prelude::*;

use crate::frac::Frac;
use crate::note::Note;

verus! {

/// Physical lengths are bounded by this many micrometres (one kilometre),
/// which keeps every product the layout engine forms inside `i128`.
pub const LENGTH_LIMIT_UM: u64 = 1_000_000_000;

/// The position of a note in a duplicate-free note list; meaningful only
/// when the list contains the note.
pub open spec fn note_index(notes: Seq<Note>, n: Note) -> int {
    choose|i: int| 0 <= i < notes.len() && notes[i] == n
}

/// An immutable capability set: the playable notes in staff order, the
/// strip height and the minimum mechanically safe strike distance.
#[derive(Clone, Debug)]
pub struct MusicBox {
    /// The strip height in micrometres: the distance from the first note
    /// line to the last.
    pub strip_height_um: u64,
    /// The minimum distance in micrometres at which the mechanism can play
    /// the same note twice.
    pub min_note_distance_um: u64,
    /// The notes this music box can play, in staff order, lowest first.
    pub notes: Vec<Note>,
}

impl MusicBox {
    /// The note list is sound: free of duplicates, every note reachable
    /// from a MIDI pitch, and hence no longer than the 128 MIDI pitches.
    pub open spec fn wf_notes(&self) -> bool {
        &&& self.notes@.len() <= 128
        &&& forall|i: int| 0 <= i < self.notes@.len() ==> (#[trigger] self.notes@[i]).midi_representable()
        &&& forall|i: int, j: int|
            0 <= i < j < self.notes@.len() ==> self.notes@[i] != self.notes@[j]
    }

    /// A well-formed descriptor: sound notes and bounded physical lengths.
    pub open spec fn wf(&self) -> bool {
        &&& self.wf_notes()
        &&& self.strip_height_um <= LENGTH_LIMIT_UM
        &&& self.min_note_distance_um <= LENGTH_LIMIT_UM
    }

    /// Builds a descriptor from its parts.
    pub fn new(strip_height_um: u64, min_note_distance_um: u64, notes: Vec<Note>) -> (r: MusicBox)
        ensures
            r.strip_height_um == strip_height_um,
            r.min_note_distance_um == min_note_distance_um,
            r.notes == notes,
    {
        MusicBox { strip_height_um, min_note_distance_um, notes }
    }

    /// Whether the music box can play the note: an exact membership test,
    /// on pitch class and octave both.
    pub fn is_valid_note(&self, note: &Note) -> (r: bool)
        ensures
            r == self.notes@.contains(*note),
    {
        let n = self.notes.len();
        let mut i: usize = 0;
        while i < n
            invariant
                i <= n,
                n == self.notes@.len(),
                forall|k: int| 0 <= k < i ==> self.notes@[k] != *note,
            decreases n - i,
        {
            if self.notes[i] == *note {
                return true;
            }
            i += 1;
        }
        false
    }

    /// The number of notes the music box can play.
    pub fn note_count(&self) -> (r: usize)
        ensures
            r == self.notes@.len(),
    {
        self.notes.len()
    }

    /// The position of the note in the note list, or `None` if the music
    /// box cannot play it.
    pub fn get_index(&self, note: &Note) -> (r: Option<usize>)
        ensures
            match r {
                Some(i) => {
                    &&& i < self.notes@.len()
                    &&& self.notes@[i as int] == *note
                    &&& forall|k: int| 0 <= k < i ==> self.notes@[k] != *note
                },
                None => !self.notes@.contains(*note),
            },
    {
        let n = self.notes.len();
        let mut i: usize = 0;
        while i < n
            invariant
                i <= n,
                n == self.notes@.len(),
                forall|k: int| 0 <= k < i ==> self.notes@[k] != *note,
            decreases n - i,
        {
            if self.notes[i] == *note {
                return Some(i);
            }
            i += 1;
        }
        None
    }

    /// The vertical distance between two adjacent note lines: the strip
    /// height split evenly over the gaps between the note lines.
    pub fn vertical_note_distance(&self) -> (r: Frac)
        requires
            self.notes@.len() >= 2,
        ensures
            r.is_ratio(self.strip_height_um as int, self.notes@.len() - 1),
    {
        Frac { num: self.strip_height_um as i128, den: (self.notes.len() - 1) as u64 }
    }
}

} // verus!
