//! Turns the event stream of a Standard MIDI File into timed cue events and
//! renders each one as a short text line.

pub mod collisions;
pub mod error;
pub mod extractor;
pub mod formatter;
pub mod midi_event;
pub mod smpte;
pub mod source;

pub use collisions::filter_collisions;
pub use error::ExtractError;
pub use extractor::{ticks_to_seconds, Extractor};
pub use formatter::{format_midi_time, MidiFormatter, StageTraxxFormatter};
pub use midi_event::{Message, MidiEvent, Timestamp};
pub use smpte::{extract_frame_rate_hrs, SmpteFrameSpec};
pub use source::{flatten_tracks, Division, MidiFile, RawEvent, SmpteOffsetValue, TrackEvent};
