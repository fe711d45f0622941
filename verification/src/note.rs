//! The note model: a pitch class paired with a signed octave, with
//! conversion to and from MIDI pitch numbers and octave transposition.

use vstd::prelude::*;

verus! {

/// A pitch class with the octave it sounds in. The payload is the octave.
///
/// Equality is by pitch class and octave. A note is never mutated:
/// transposition returns a new note.
#[derive(Clone, Copy, Debug, PartialEq, Eq, Structural)]
pub enum Note {
    C(i8),
    CS(i8),
    D(i8),
    DS(i8),
    E(i8),
    F(i8),
    FS(i8),
    G(i8),
    GS(i8),
    A(i8),
    AS(i8),
    B(i8),
}

impl Note {
    /// The pitch class as a number, `C` being 0 and `B` being 11.
    pub open spec fn class(self) -> int {
        match self {
            Note::C(_) => 0,
            Note::CS(_) => 1,
            Note::D(_) => 2,
            Note::DS(_) => 3,
            Note::E(_) => 4,
            Note::F(_) => 5,
            Note::FS(_) => 6,
            Note::G(_) => 7,
            Note::GS(_) => 8,
            Note::A(_) => 9,
            Note::AS(_) => 10,
            Note::B(_) => 11,
        }
    }

    /// The octave of the note.
    pub open spec fn octave(self) -> int {
        match self {
            Note::C(o) => o as int,
            Note::CS(o) => o as int,
            Note::D(o) => o as int,
            Note::DS(o) => o as int,
            Note::E(o) => o as int,
            Note::F(o) => o as int,
            Note::FS(o) => o as int,
            Note::G(o) => o as int,
            Note::GS(o) => o as int,
            Note::A(o) => o as int,
            Note::AS(o) => o as int,
            Note::B(o) => o as int,
        }
    }

    /// The note with pitch class `c` (0 to 11) at octave `o`.
    pub open spec fn with_class(c: int, o: i8) -> Note {
        if c == 0 {
            Note::C(o)
        } else if c == 1 {
            Note::CS(o)
        } else if c == 2 {
            Note::D(o)
        } else if c == 3 {
            Note::DS(o)
        } else if c == 4 {
            Note::E(o)
        } else if c == 5 {
            Note::F(o)
        } else if c == 6 {
            Note::FS(o)
        } else if c == 7 {
            Note::G(o)
        } else if c == 8 {
            Note::GS(o)
        } else if c == 9 {
            Note::A(o)
        } else if c == 10 {
            Note::AS(o)
        } else {
            Note::B(o)
        }
    }

    /// The MIDI pitch number this note stands for. Octave -1 starts at
    /// pitch 0, so middle C (MIDI pitch 60) is octave 4.
    pub open spec fn spec_midi_pitch(self) -> int {
        self.class() + 12 * (self.octave() + 1)
    }

    /// Whether the note is reachable from a MIDI pitch number 0 to 127.
    pub open spec fn midi_representable(self) -> bool {
        0 <= self.spec_midi_pitch() <= 127
    }

    /// The note a MIDI pitch number decodes to: pitch class `p % 12`,
    /// octave `p / 12 - 1`.
    pub open spec fn spec_from_midi_pitch(p: int) -> Note {
        Note::with_class(p % 12, ((p / 12) - 1) as i8)
    }

    /// Decodes a MIDI pitch number into a note.
    pub fn from_midi_pitch(pitch: u8) -> (r: Note)
        requires
            pitch < 128,
        ensures
            r == Note::spec_from_midi_pitch(pitch as int),
            r.midi_representable(),
    {
        proof {
            lemma_midi_pitch_round_trip(pitch as int);
        }
        let octave: i8 = (pitch / 12) as i8 - 1;
        match pitch % 12 {
            0 => Note::C(octave),
            1 => Note::CS(octave),
            2 => Note::D(octave),
            3 => Note::DS(octave),
            4 => Note::E(octave),
            5 => Note::F(octave),
            6 => Note::FS(octave),
            7 => Note::G(octave),
            8 => Note::GS(octave),
            9 => Note::A(octave),
            10 => Note::AS(octave),
            _ => Note::B(octave),
        }
    }

    /// Encodes the note as a MIDI pitch number. Only notes reachable from
    /// a MIDI pitch can be encoded.
    pub fn to_midi_pitch(&self) -> (r: u8)
        requires
            self.midi_representable(),
        ensures
            r == self.spec_midi_pitch(),
            r < 128,
    {
        let o: i16 = match self {
            Note::C(o) => *o as i16,
            Note::CS(o) => *o as i16,
            Note::D(o) => *o as i16,
            Note::DS(o) => *o as i16,
            Note::E(o) => *o as i16,
            Note::F(o) => *o as i16,
            Note::FS(o) => *o as i16,
            Note::G(o) => *o as i16,
            Note::GS(o) => *o as i16,
            Note::A(o) => *o as i16,
            Note::AS(o) => *o as i16,
            Note::B(o) => *o as i16,
        };
        let class: i16 = match self {
            Note::C(_) => 0,
            Note::CS(_) => 1,
            Note::D(_) => 2,
            Note::DS(_) => 3,
            Note::E(_) => 4,
            Note::F(_) => 5,
            Note::FS(_) => 6,
            Note::G(_) => 7,
            Note::GS(_) => 8,
            Note::A(_) => 9,
            Note::AS(_) => 10,
            Note::B(_) => 11,
        };
        (class + 12 * (o + 1)) as u8
    }

    /// The same pitch class moved to `octave`.
    pub open spec fn spec_transpose(self, octave: i8) -> Note {
        Note::with_class(self.class(), octave)
    }

    /// Transposes the note to the given octave; the pitch class is kept.
    pub fn transpose(&self, octave: i8) -> (r: Note)
        ensures
            r == self.spec_transpose(octave),
    {
        match self {
            Note::C(_) => Note::C(octave),
            Note::CS(_) => Note::CS(octave),
            Note::D(_) => Note::D(octave),
            Note::DS(_) => Note::DS(octave),
            Note::E(_) => Note::E(octave),
            Note::F(_) => Note::F(octave),
            Note::FS(_) => Note::FS(octave),
            Note::G(_) => Note::G(octave),
            Note::GS(_) => Note::GS(octave),
            Note::A(_) => Note::A(octave),
            Note::AS(_) => Note::AS(octave),
            Note::B(_) => Note::B(octave),
        }
    }

    /// A reference to the octave of the note.
    pub fn get_octave(&self) -> (r: &i8)
        ensures
            *r == self.octave(),
    {
        match self {
            Note::C(o) => o,
            Note::CS(o) => o,
            Note::D(o) => o,
            Note::DS(o) => o,
            Note::E(o) => o,
            Note::F(o) => o,
            Note::FS(o) => o,
            Note::G(o) => o,
            Note::GS(o) => o,
            Note::A(o) => o,
            Note::AS(o) => o,
            Note::B(o) => o,
        }
    }
}

/// Law: decoding a MIDI pitch number and encoding the note again gives the
/// number back, for every pitch 0 to 127.
pub proof fn lemma_midi_pitch_round_trip(p: int)
    requires
        0 <= p < 128,
    ensures
        Note::spec_from_midi_pitch(p).spec_midi_pitch() == p,
{
    vstd::arithmetic::div_mod::lemma_fundamental_div_mod(p, 12);
}

/// Law: transposing a note to its own octave gives the note back.
pub proof fn lemma_transpose_identity(n: Note, o: i8)
    requires
        n.octave() == o as int,
    ensures
        n.spec_transpose(o) == n,
{
}

} // verus!
