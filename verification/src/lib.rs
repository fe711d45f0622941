//! Converts a decoded MIDI track into per-page geometry for a pinned-cylinder
//! or punched-strip music box.
//!
//! The pipeline is: decoded MIDI events -> track extraction (playability and
//! octave transposition policy, repeat-distance metrics) -> layout engine
//! (scale factors, pagination with tick and sprocket-phase overflow carry,
//! per-page lines, frame, note holes and sprocket holes).
//!
//! All physical lengths are integer micrometres; derived coordinates are
//! exact rationals ([`frac::Frac`]), so every position is computed and
//! specified without rounding.

pub mod error;
pub mod event;
pub mod frac;
pub mod layout;
pub mod meta_information;
pub mod midi;
pub mod music_box_convert;
pub mod music_box;
pub mod note;
pub mod settings;
pub mod svg;
pub mod svg_writer;
pub mod track;
pub mod vec2;

pub use error::ConvertError;
pub use event::Event;
pub use frac::Frac;
pub use music_box::MusicBox;
pub use note::Note;
pub use settings::Settings;
pub use svg::document::Document;
pub use track::Track;
pub use vec2::Vec2;
