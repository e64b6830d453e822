//! Control, protocol and storage logic of a monophonic USB-MIDI synthesizer.
//!
//! - [`notes`]: note priority and the sustain pedal.
//! - [`midi`]: the protocol engine, from USB-MIDI packets to actions.
//! - [`sysex`] and [`nibble`]: the bulk preset dump and write protocol.
//! - [`presets`] and [`bank`]: the preset record and the persisted bank.
//! - [`control`]: the parameters shared with the audio core.
//! - [`audio`], [`dsp`] and [`usb`]: block scheduling, delay lines and the
//!   other integer parts of the audio path, and the USB audio function.
use vstd::prelude::*;

pub mod audio;
pub mod bank;
pub mod control;
pub mod dsp;
pub mod midi;
pub mod nibble;
pub mod notes;
pub mod presets;
pub mod sysex;
pub mod usb;

verus! {

} // verus!
