//! The parameter block shared by the control core and the audio core, and the
//! commands sent to the control core.
//!
//! Every parameter is its own atomic cell: a store never waits and a load never
//! blocks, and there is no consistency between fields. Real-valued parameters
//! are carried as IEEE-754 single-precision bit patterns. What a load returns
//! depends on what the other core stored meanwhile, so the methods here state
//! nothing about the values they read.
use vstd::prelude::*;
use core::sync::atomic::{AtomicBool, AtomicU32, Ordering};
use std::sync::Arc;
use crate::dsp::{gate_sample_open, GATE_RESET_SAMPLES};

verus! {

/// Bit pattern of 440 (hertz), the pitch before any note.
pub const DEFAULT_FREQ_BITS: u32 = 0x43DC_0000;
/// Bit pattern of zero.
pub const ZERO_BITS: u32 = 0x0000_0000;
/// Bit pattern of one: no pitch bend.
pub const UNITY_BITS: u32 = 0x3F80_0000;
/// Bit pattern of one half: the filter cutoff control at mid travel.
pub const HALF_BITS: u32 = 0x3F00_0000;

/// A request sent to the control core.
#[derive(Clone, Copy, PartialEq, Eq, Debug)]
pub enum SystemCommand {
    /// Erase the preset bank and write the factory presets again.
    ResetStorage,
}

/// The parameters of the running voice.
pub struct MidiControl {
    target_freq_bits: AtomicU32,
    gate: AtomicBool,
    gate_reset: AtomicBool,
    portamento_amount_bits: AtomicU32,
    pitch_bend_bits: AtomicU32,
    mod_wheel_bits: AtomicU32,
    parameter_1_bits: AtomicU32,
    parameter_2_bits: AtomicU32,
}

impl MidiControl {
    /// 440 Hz, gate closed, no glide, no bend, mod wheel at rest, filter
    /// cutoff control at mid travel, resonance control at zero.
    pub fn new() -> Self {
        MidiControl {
            target_freq_bits: AtomicU32::new(DEFAULT_FREQ_BITS),
            gate: AtomicBool::new(false),
            gate_reset: AtomicBool::new(false),
            portamento_amount_bits: AtomicU32::new(ZERO_BITS),
            pitch_bend_bits: AtomicU32::new(UNITY_BITS),
            mod_wheel_bits: AtomicU32::new(ZERO_BITS),
            parameter_1_bits: AtomicU32::new(HALF_BITS),
            parameter_2_bits: AtomicU32::new(ZERO_BITS),
        }
    }

    /// Stores the target pitch, in hertz.
    pub fn set_freq(&self, freq_bits: u32) {
        self.target_freq_bits.store(freq_bits, Ordering::Relaxed);
    }

    /// Sets the note gate level; a closing gate also arms the one-shot reset flag.
    pub fn set_gate(&self, gate: bool) {
        self.gate.store(gate, Ordering::Relaxed);
        if !gate {
            self.gate_reset.store(true, Ordering::Relaxed);
        }
    }

    /// Reads and disarms the one-shot reset flag.
    pub fn take_gate_reset(&self) -> bool {
        self.gate_reset.swap(false, Ordering::Relaxed)
    }

    /// Stores the glide amount, 0 to 1.
    pub fn set_portamento(&self, amount_bits: u32) {
        self.portamento_amount_bits.store(amount_bits, Ordering::Relaxed);
    }

    /// Stores the pitch-bend factor.
    pub fn set_pitch_bend(&self, factor_bits: u32) {
        self.pitch_bend_bits.store(factor_bits, Ordering::Relaxed);
    }

    /// Stores the modulation wheel position, 0 to 1.
    pub fn set_mod_wheel(&self, value_bits: u32) {
        self.mod_wheel_bits.store(value_bits, Ordering::Relaxed);
    }

    /// Stores the normalized filter cutoff control, 0 to 1.
    pub fn set_parameter_1(&self, value_bits: u32) {
        self.parameter_1_bits.store(value_bits, Ordering::Relaxed);
    }

    /// Stores the normalized filter resonance control, 0 to 1.
    pub fn set_parameter_2(&self, value_bits: u32) {
        self.parameter_2_bits.store(value_bits, Ordering::Relaxed);
    }

    /// All notes or sound off: every parameter back to the value [`Self::new`]
    /// gives it: gate closed, no reset click armed.
    pub fn reset(&self) {
        self.target_freq_bits.store(DEFAULT_FREQ_BITS, Ordering::Relaxed);
        self.gate.store(false, Ordering::Relaxed);
        self.gate_reset.store(false, Ordering::Relaxed);
        self.portamento_amount_bits.store(ZERO_BITS, Ordering::Relaxed);
        self.pitch_bend_bits.store(UNITY_BITS, Ordering::Relaxed);
        self.mod_wheel_bits.store(ZERO_BITS, Ordering::Relaxed);
        self.parameter_1_bits.store(HALF_BITS, Ordering::Relaxed);
        self.parameter_2_bits.store(ZERO_BITS, Ordering::Relaxed);
    }

    pub fn get_target_freq(&self) -> u32 {
        self.target_freq_bits.load(Ordering::Relaxed)
    }

    pub fn get_portamento_amount(&self) -> u32 {
        self.portamento_amount_bits.load(Ordering::Relaxed)
    }

    pub fn get_pitch_bend(&self) -> u32 {
        self.pitch_bend_bits.load(Ordering::Relaxed)
    }

    pub fn get_mod_wheel(&self) -> u32 {
        self.mod_wheel_bits.load(Ordering::Relaxed)
    }

    pub fn get_parameter_1(&self) -> u32 {
        self.parameter_1_bits.load(Ordering::Relaxed)
    }

    pub fn get_parameter_2(&self) -> u32 {
        self.parameter_2_bits.load(Ordering::Relaxed)
    }

    /// Whether a note holds its gate open.
    pub fn get_gate(&self) -> bool {
        self.gate.load(Ordering::Relaxed)
    }
}

/// Note gate signal of the running voice, read from the shared parameters.
pub struct MidiGate(pub Arc<MidiControl>);

impl MidiGate {
    /// Gate levels for a block of `len` samples from the stored level and
    /// reset flag read now; see [`gate_levels`].
    pub fn levels(&self, len: usize) -> (r: Vec<bool>)
        ensures
            r@.len() == len,
            forall|i: int, j: int| 0 <= i < j < len && r@[i] ==> r@[j],
            forall|i: int, j: int|
                GATE_RESET_SAMPLES <= i < len && GATE_RESET_SAMPLES <= j < len ==> r@[i] == r@[j],
    {
        let gate = self.0.get_gate();
        let reset = self.0.take_gate_reset();
        gate_levels(gate, reset, len)
    }
}

/// Gate levels for a block of `len` samples: `gate` throughout, except that
/// the first samples stay shut when `reset` is set.
pub fn gate_levels(gate: bool, reset: bool, len: usize) -> (r: Vec<bool>)
    ensures
        r@.len() == len,
        forall|i: int| 0 <= i < len ==> #[trigger] r@[i] == (gate && !(reset && i < GATE_RESET_SAMPLES)),
{
    let mut r: Vec<bool> = Vec::with_capacity(len);
    let mut i: usize = 0;
    while i < len
        invariant
            i <= len,
            r@.len() == i,
            forall|k: int| 0 <= k < i ==> #[trigger] r@[k] == (gate && !(reset && k < GATE_RESET_SAMPLES)),
        decreases len - i,
    {
        r.push(gate_sample_open(i, gate, reset));
        i = i + 1;
    }
    r
}

/// The filter cutoff control of the running voice, 0 to 1.
pub struct MidiFilterCutoff(pub Arc<MidiControl>);

impl MidiFilterCutoff {
    /// The normalized cutoff control now stored.
    pub fn control(&self) -> u32 {
        self.0.get_parameter_1()
    }
}

/// The filter resonance control of the running voice, 0 to 1.
pub struct MidiFilterResonance(pub Arc<MidiControl>);

impl MidiFilterResonance {
    /// The normalized resonance control now stored.
    pub fn control(&self) -> u32 {
        self.0.get_parameter_2()
    }
}

} // verus!
