//! Decoded MIDI events, and the trusted bridge to the `midly` decoder.
//!
//! The rest of the library works on plain [`MidiEvent`] values: a delta
//! time and what kind of message arrived. Only the two functions marked
//! `external_body` touch `midly` itself.

use vstd::prelude::*;

verus! {

/// What a decoded track event means to this library. Only note messages
/// matter; everything else still advances time through its delta.
#[derive(Clone, Copy, Debug, PartialEq, Eq, Structural)]
pub enum MidiEventKind {
    /// A key is struck. A velocity of zero means a release by convention.
    NoteOn {
        /// The MIDI pitch number, below 128.
        pitch: u8,
        /// The velocity, below 128.
        vel: u8,
    },
    /// A key is released.
    NoteOff {
        /// The MIDI pitch number, below 128.
        pitch: u8,
        /// The release velocity, below 128.
        vel: u8,
    },
    /// Any other message: meta events, controllers, and the rest.
    Other,
}

/// One decoded track event: how many ticks after the previous event it
/// fires, and what it is.
#[derive(Clone, Copy, Debug, PartialEq, Eq, Structural)]
pub struct MidiEvent {
    /// Ticks since the previous event of the same track.
    pub delta: u32,
    /// The decoded message.
    pub kind: MidiEventKind,
}

impl MidiEvent {
    /// The ranges the MIDI file format guarantees: delta times are 28-bit
    /// variable-length numbers, pitches and velocities are 7-bit.
    pub open spec fn wf(self) -> bool {
        &&& self.delta < 0x1000_0000
        &&& match self.kind {
            MidiEventKind::NoteOn { pitch, vel } => pitch < 128 && vel < 128,
            MidiEventKind::NoteOff { pitch, vel } => pitch < 128 && vel < 128,
            MidiEventKind::Other => true,
        }
    }
}

/// Every event of the sequence is within the MIDI format's ranges.
pub open spec fn midi_events_wf(evs: Seq<MidiEvent>) -> bool {
    forall|i: int| 0 <= i < evs.len() ==> (#[trigger] evs[i]).wf()
}

/// What the MIDI decoder makes of the bytes: `None` when it refuses them,
/// otherwise one sequence of decoded events per track, in file order.
/// Decoding depends on the bytes alone.
pub uninterp spec fn parsed_midi_tracks(bytes: Seq<u8>) -> Option<Seq<Seq<MidiEvent>>>;

/// Declares `midly::Error`, the decoder's error type, so that signatures
/// here can carry it; its values are opaque to the verifier.
#[verifier::external_type_specification]
#[verifier::external_body]
pub struct ExMidlyError(midly::Error);

/// Relies on `midly::Smf::parse`: it decodes a standard MIDI file from the
/// bytes alone, giving one event list per track, each event a 28-bit delta
/// time and a message whose pitch and velocity are 7-bit (`midly`'s `u28`
/// and `u7` types). Note-on and note-off messages are kept with their
/// fields; every other message kind is flattened to [`MidiEventKind::Other`].
#[verifier::external_body]
pub(crate) fn parse_smf(bytes: &[u8]) -> (r: Result<Vec<Vec<MidiEvent>>, midly::Error>)
    ensures
        r is Ok <==> parsed_midi_tracks(bytes@) is Some,
        r matches Ok(ts) ==> {
            let m = parsed_midi_tracks(bytes@)->Some_0;
            &&& ts@.len() == m.len()
            &&& forall|i: int| 0 <= i < m.len() ==> #[trigger] ts@[i]@ == m[i]
            &&& forall|i: int| 0 <= i < m.len() ==> midi_events_wf(#[trigger] m[i])
        },
{
    match midly::Smf::parse(bytes) {
        Err(e) => Err(e),
        Ok(smf) => Ok(smf.tracks.iter().map(|t| t.iter().map(|e| MidiEvent {
            delta: e.delta.as_int(),
            kind: match e.kind {
                midly::TrackEventKind::Midi { message: midly::MidiMessage::NoteOn { key, vel }, .. } =>
                    MidiEventKind::NoteOn { pitch: key.as_int(), vel: vel.as_int() },
                midly::TrackEventKind::Midi { message: midly::MidiMessage::NoteOff { key, vel }, .. } =>
                    MidiEventKind::NoteOff { pitch: key.as_int(), vel: vel.as_int() },
                _ => MidiEventKind::Other,
            },
        }).collect()).collect()),
    }
}

/// Relies on `midly::Error`'s `Display` implementation for the message
/// text. Nothing is promised of the text.
#[verifier::external_body]
pub(crate) fn midi_error_text(e: &midly::Error) -> String {
    format!("{}", e)
}

} // verus!
