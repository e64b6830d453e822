//! The preset record: one synthesizer patch with a fixed layout.
//!
//! Real-valued parameters are held as IEEE-754 single-precision bit patterns,
//! exactly as they are persisted; the audio side reinterprets them.
use vstd::prelude::*;
use vstd::string::StringSliceAdditionalSpecFns;

verus! {

/// Bytes of a preset's display name.
pub const NAME_LEN: usize = 32;

/// Oscillator shapes, by their stored codes 0 to 4.
#[derive(Clone, Copy, PartialEq, Eq, Debug)]
pub enum Waveform {
    Sine,
    Triangle,
    Saw,
    Square,
    WhiteNoise,
}

/// Modulation oscillator shapes, by their stored codes 0 to 3.
#[derive(Clone, Copy, PartialEq, Eq, Debug)]
pub enum LfoWaveform {
    Sine,
    Triangle,
    Saw,
    Square,
}

/// The stored code of an oscillator shape.
pub open spec fn waveform_code(w: Waveform) -> u32 {
    match w {
        Waveform::Sine => 0,
        Waveform::Triangle => 1,
        Waveform::Saw => 2,
        Waveform::Square => 3,
        Waveform::WhiteNoise => 4,
    }
}

/// The stored code of a modulation oscillator shape.
pub open spec fn lfo_waveform_code(w: LfoWaveform) -> u32 {
    match w {
        LfoWaveform::Sine => 0,
        LfoWaveform::Triangle => 1,
        LfoWaveform::Saw => 2,
        LfoWaveform::Square => 3,
    }
}

#[derive(Clone, Copy, PartialEq, Eq, Debug)]
pub struct OscSettings {
    pub waveform: u32,
    pub level: u32,
    pub octave: u32,
    pub detune: u32,
    pub enable_vibrato: u32,
}

#[derive(Clone, Copy, PartialEq, Eq, Debug)]
pub struct FilterSettings {
    pub cutoff: u32,
    pub resonance: u32,
    pub env_amount: u32,
    pub attack: u32,
    pub decay: u32,
    pub sustain: u32,
    pub release: u32,
}

#[derive(Clone, Copy, PartialEq, Eq, Debug)]
pub struct EnvelopeSettings {
    pub attack: u32,
    pub decay: u32,
    pub sustain: u32,
    pub release: u32,
}

#[derive(Clone, Copy, PartialEq, Eq, Debug)]
pub struct LfoSettings {
    pub frequency: u32,
    pub waveform: u32,
    pub vibrato_amount: u32,
    pub filter_amount: u32,
}

#[derive(Clone, Copy, PartialEq, Eq, Debug)]
pub struct DelaySettings {
    pub time: u32,
    pub feedback: u32,
    pub mix: u32,
    pub enabled: u32,
}

#[derive(Clone, Copy, PartialEq, Eq, Debug)]
pub struct ReverbSettings {
    pub size: u32,
    pub damping: u32,
    pub mix: u32,
    pub enabled: u32,
}

/// One patch: a zero-padded name, three oscillators, noise, glide, filter and
/// amplitude envelopes, modulation, delay and reverb.
#[derive(Clone, Copy, PartialEq, Eq, Debug)]
pub struct Preset {
    pub name: [u8; 32],
    pub osc1: OscSettings,
    pub osc2: OscSettings,
    pub osc3: OscSettings,
    pub noise_level: u32,
    pub portamento: u32,
    pub filter: FilterSettings,
    pub amp: EnvelopeSettings,
    pub lfo_enabled: u32,
    pub lfo: LfoSettings,
    pub delay: DelaySettings,
    pub reverb: ReverbSettings,
    pub padding: [u8; 4],
}

/// The bytes of `name` before its first zero byte.
pub open spec fn name_text(name: Seq<u8>) -> Seq<u8>
    decreases name.len(),
{
    if name.len() == 0 || name[0] == 0 {
        Seq::empty()
    } else {
        seq![name[0]] + name_text(name.drop_first())
    }
}

/// A name field holding `s`, cut to the field's size and padded with zeros.
pub open spec fn name_field(s: Seq<u8>) -> Seq<u8> {
    Seq::new(NAME_LEN as nat, |i: int| if i < s.len() { s[i] } else { 0u8 })
}

/// An oscillator shape decoded from its stored code; unknown codes read as a saw.
pub open spec fn waveform_of(code: u32) -> Waveform {
    if code == 0 {
        Waveform::Sine
    } else if code == 1 {
        Waveform::Triangle
    } else if code == 3 {
        Waveform::Square
    } else if code == 4 {
        Waveform::WhiteNoise
    } else {
        Waveform::Saw
    }
}

/// A modulation shape decoded from its stored code; unknown codes read as a sine.
pub open spec fn lfo_waveform_of(code: u32) -> LfoWaveform {
    if code == 1 {
        LfoWaveform::Triangle
    } else if code == 2 {
        LfoWaveform::Saw
    } else if code == 3 {
        LfoWaveform::Square
    } else {
        LfoWaveform::Sine
    }
}

impl Preset {
    /// The display name: the bytes before the first zero.
    pub fn get_name(&self) -> (r: Vec<u8>)
        ensures
            r@ == name_text(self.name@),
    {
        let mut r: Vec<u8> = Vec::new();
        let mut i: usize = 0;
        assert(self.name@.skip(0) =~= self.name@);
        assert(r@ + name_text(self.name@) =~= name_text(self.name@));
        while i < NAME_LEN && self.name[i] != 0
            invariant
                i <= NAME_LEN,
                self.name@.len() == NAME_LEN,
                forall|j: int| 0 <= j < i ==> self.name@[j] != 0,
                r@ + name_text(self.name@.skip(i as int)) == name_text(self.name@),
            decreases NAME_LEN - i,
        {
            proof {
                let rest = self.name@.skip(i as int);
                assert(rest.drop_first() =~= self.name@.skip(i + 1));
                assert(r@.push(rest[0]) + name_text(rest.drop_first()) =~= r@ + name_text(rest));
            }
            r.push(self.name[i]);
            i = i + 1;
        }
        proof {
            let rest = self.name@.skip(i as int);
            assert(name_text(rest) =~= Seq::<u8>::empty());
            assert(r@ + name_text(rest) =~= r@);
        }
        r
    }
}

impl OscSettings {
    /// The oscillator shape; an unknown code reads as a saw.
    pub fn get_waveform(&self) -> (r: Waveform)
        ensures
            r == waveform_of(self.waveform),
    {
        match self.waveform {
            0 => Waveform::Sine,
            1 => Waveform::Triangle,
            2 => Waveform::Saw,
            3 => Waveform::Square,
            4 => Waveform::WhiteNoise,
            _ => Waveform::Saw,
        }
    }

    /// Whether the shared vibrato modulates this oscillator.
    pub fn is_vibrato_enabled(&self) -> (r: bool)
        ensures
            r == (self.enable_vibrato != 0),
    {
        self.enable_vibrato != 0
    }
}

impl LfoSettings {
    /// The modulation shape; an unknown code reads as a sine.
    pub fn get_waveform(&self) -> (r: LfoWaveform)
        ensures
            r == lfo_waveform_of(self.waveform),
    {
        match self.waveform {
            0 => LfoWaveform::Sine,
            1 => LfoWaveform::Triangle,
            2 => LfoWaveform::Saw,
            3 => LfoWaveform::Square,
            _ => LfoWaveform::Sine,
        }
    }
}

/// A name field holding `s`: its first 32 bytes, then zeros.
pub fn make_name(s: &str) -> (r: [u8; 32])
    ensures
        r@ == name_field(s.spec_bytes()),
{
    let bytes = s.as_bytes();
    let mut name = [0u8; 32];
    let len = if bytes.len() < NAME_LEN { bytes.len() } else { NAME_LEN };
    let mut i: usize = 0;
    while i < len
        invariant
            len <= NAME_LEN,
            len <= bytes@.len(),
            len == NAME_LEN || len == bytes@.len(),
            bytes@ == s.spec_bytes(),
            i <= len,
            name@.len() == NAME_LEN,
            forall|j: int| 0 <= j < i ==> name@[j] == bytes@[j],
            forall|j: int| i <= j < NAME_LEN ==> name@[j] == 0,
        decreases len - i,
    {
        name[i] = bytes[i];
        i = i + 1;
    }
    assert(name@ =~= name_field(s.spec_bytes()));
    name
}

fn osc(wf: Waveform, level: u32, octave: u32, detune: u32, vib: bool) -> (r: OscSettings)
    ensures
        r == (OscSettings {
            waveform: waveform_code(wf),
            level,
            octave,
            detune,
            enable_vibrato: if vib { 1 } else { 0 },
        }),
{
    OscSettings {
        waveform: match wf {
            Waveform::Sine => 0,
            Waveform::Triangle => 1,
            Waveform::Saw => 2,
            Waveform::Square => 3,
            Waveform::WhiteNoise => 4,
        },
        level,
        octave,
        detune,
        enable_vibrato: if vib { 1 } else { 0 },
    }
}

fn lfo(freq: u32, wf: LfoWaveform, vib: u32, filt: u32) -> (r: LfoSettings)
    ensures
        r == (LfoSettings {
            frequency: freq,
            waveform: lfo_waveform_code(wf),
            vibrato_amount: vib,
            filter_amount: filt,
        }),
{
    LfoSettings {
        frequency: freq,
        waveform: match wf {
            LfoWaveform::Sine => 0,
            LfoWaveform::Triangle => 1,
            LfoWaveform::Saw => 2,
            LfoWaveform::Square => 3,
        },
        vibrato_amount: vib,
        filter_amount: filt,
    }
}

fn delay_set(time: u32, feedback: u32, mix: u32, enabled: bool) -> (r: DelaySettings)
    ensures
        r == (DelaySettings { time, feedback, mix, enabled: if enabled { 1 } else { 0 } }),
{
    DelaySettings { time, feedback, mix, enabled: if enabled { 1 } else { 0 } }
}

fn reverb_set(size: u32, damping: u32, mix: u32, enabled: bool) -> (r: ReverbSettings)
    ensures
        r == (ReverbSettings { size, damping, mix, enabled: if enabled { 1 } else { 0 } }),
{
    ReverbSettings { size, damping, mix, enabled: if enabled { 1 } else { 0 } }
}

/// Whether the bit pattern `w` is a finite single-precision value: its
/// magnitude bits lie below those of infinity, that is, its exponent bits are
/// not all ones (see [`lemma_finite_bits`]).
pub open spec fn finite_bits(w: u32) -> bool {
    w % 0x8000_0000 < 0x7F80_0000
}

/// [`finite_bits`] is the test that the exponent bits are not all ones.
pub proof fn lemma_finite_bits(w: u32)
    ensures
        finite_bits(w) <==> ((w >> 23u32) & 0xFFu32) != 0xFFu32,
{
    assert((w % 0x8000_0000 < 0x7F80_0000) <==> ((w >> 23u32) & 0xFFu32) != 0xFFu32) by (bit_vector);
}

/// Every parameter word of `p` is a finite value.
pub open spec fn params_finite(p: Preset) -> bool {
    &&& finite_bits(p.osc1.waveform)
    &&& finite_bits(p.osc1.level)
    &&& finite_bits(p.osc1.octave)
    &&& finite_bits(p.osc1.detune)
    &&& finite_bits(p.osc1.enable_vibrato)
    &&& finite_bits(p.osc2.waveform)
    &&& finite_bits(p.osc2.level)
    &&& finite_bits(p.osc2.octave)
    &&& finite_bits(p.osc2.detune)
    &&& finite_bits(p.osc2.enable_vibrato)
    &&& finite_bits(p.osc3.waveform)
    &&& finite_bits(p.osc3.level)
    &&& finite_bits(p.osc3.octave)
    &&& finite_bits(p.osc3.detune)
    &&& finite_bits(p.osc3.enable_vibrato)
    &&& finite_bits(p.noise_level)
    &&& finite_bits(p.portamento)
    &&& finite_bits(p.filter.cutoff)
    &&& finite_bits(p.filter.resonance)
    &&& finite_bits(p.filter.env_amount)
    &&& finite_bits(p.filter.attack)
    &&& finite_bits(p.filter.decay)
    &&& finite_bits(p.filter.sustain)
    &&& finite_bits(p.filter.release)
    &&& finite_bits(p.amp.attack)
    &&& finite_bits(p.amp.decay)
    &&& finite_bits(p.amp.sustain)
    &&& finite_bits(p.amp.release)
    &&& finite_bits(p.lfo_enabled)
    &&& finite_bits(p.lfo.frequency)
    &&& finite_bits(p.lfo.waveform)
    &&& finite_bits(p.lfo.vibrato_amount)
    &&& finite_bits(p.lfo.filter_amount)
    &&& finite_bits(p.delay.time)
    &&& finite_bits(p.delay.feedback)
    &&& finite_bits(p.delay.mix)
    &&& finite_bits(p.delay.enabled)
    &&& finite_bits(p.reverb.size)
    &&& finite_bits(p.reverb.damping)
    &&& finite_bits(p.reverb.mix)
    &&& finite_bits(p.reverb.enabled)
}

/// Bit pattern of 20 (hertz), the lowest filter cutoff.
pub const MIN_CUTOFF_BITS: u32 = 0x41A0_0000;
/// Bit pattern of 20000 (hertz), the highest filter cutoff.
pub const MAX_CUTOFF_BITS: u32 = 0x469C_4000;

/// A stored preset in its documented ranges: finite parameters, a cutoff from
/// 20 Hz to 20 kHz (for positive values the order of bit patterns is the order
/// of values), zero padding, and codes and flags in range.
pub open spec fn preset_well_formed(p: Preset) -> bool {
    &&& params_finite(p)
    &&& MIN_CUTOFF_BITS <= p.filter.cutoff <= MAX_CUTOFF_BITS
    &&& p.padding@ == seq![0u8, 0, 0, 0]
    &&& preset_codes_valid(p)
}

/// Stored codes and flags within their documented ranges.
pub open spec fn preset_codes_valid(p: Preset) -> bool {
    &&& p.osc1.waveform < 5 && p.osc2.waveform < 5 && p.osc3.waveform < 5
    &&& p.osc1.enable_vibrato < 2 && p.osc2.enable_vibrato < 2 && p.osc3.enable_vibrato < 2
    &&& p.lfo_enabled < 2 && p.lfo.waveform < 4
    &&& p.delay.enabled < 2 && p.reverb.enabled < 2
}

impl Default for Preset {
    /// The initial patch: one full-level saw, the filter open, no effects.
    fn default() -> (r: Preset)
        ensures
            r.name@ == name_field("Init Patch".spec_bytes()),
            preset_well_formed(r),
            r.osc1.waveform == 2 && r.osc1.level == ONE_BITS,
            r.osc2.level == 0 && r.osc3.level == 0,
            r.delay.enabled == 0 && r.reverb.enabled == 0 && r.lfo_enabled == 0,
    {
        let r = Preset {
            name: make_name("Init Patch"),
            osc1: osc(Waveform::Saw, 0x3F80_0000, 0x0000_0000, 0x0000_0000, true),
            osc2: osc(Waveform::Saw, 0x0000_0000, 0x0000_0000, 0x0000_0000, true),
            osc3: osc(Waveform::Saw, 0x0000_0000, 0x0000_0000, 0x0000_0000, true),
            noise_level: 0x0000_0000,
            portamento: 0x0000_0000,
            filter: FilterSettings {
                cutoff: 0x469C_4000,
                resonance: 0x0000_0000,
                env_amount: 0x0000_0000,
                attack: 0x0000_0000,
                decay: 0x0000_0000,
                sustain: 0x3F80_0000,
                release: 0x0000_0000,
            },
            amp: EnvelopeSettings {
                attack: 0x3C23_D70A,
                decay: 0x3DCC_CCCD,
                sustain: 0x3F80_0000,
                release: 0x3DCC_CCCD,
            },
            lfo_enabled: 0,
            lfo: lfo(0x3F80_0000, LfoWaveform::Sine, 0x0000_0000, 0x0000_0000),
            delay: delay_set(0x3E80_0000, 0x3E99_999A, 0x3E99_999A, false),
            reverb: reverb_set(0x3F00_0000, 0x3F00_0000, 0x3DCC_CCCD, false),
            padding: [0; 4],
        };
        assert(r.padding@ =~= seq![0u8, 0, 0, 0]);
        r
    }
}

/// Bit pattern of the single-precision value one.
pub const ONE_BITS: u32 = 0x3F80_0000;

/// A preset's oscillator shape codes, then whether it turns on modulation,
/// delay and reverb.
pub open spec fn routing(p: Preset) -> Seq<u32> {
    seq![p.osc1.waveform, p.osc2.waveform, p.osc3.waveform, p.lfo_enabled, p.delay.enabled, p.reverb.enabled]
}

/// Number of factory presets.
pub const FACTORY_PRESET_COUNT: usize = 5;

/// The factory presets, in their stored order.
pub fn get_default_presets() -> (r: [Preset; 5])
    ensures
        forall|i: int| 0 <= i < 5 ==> preset_well_formed(#[trigger] r@[i]),
        r@[0].name@ == name_field("Lucky Man".spec_bytes()),
        r@[1].name@ == name_field("Tom Sawyer".spec_bytes()),
        r@[2].name@ == name_field("Moog Scream".spec_bytes()),
        r@[3].name@ == name_field("Moog Bass".spec_bytes()),
        r@[4].name@ == name_field("Octavarium Lead".spec_bytes()),
        routing(r@[0]) == seq![3u32, 3, 3, 1, 1, 0],
        routing(r@[1]) == seq![2u32, 2, 0, 0, 1, 0],
        routing(r@[2]) == seq![2u32, 2, 3, 1, 0, 1],
        routing(r@[3]) == seq![2u32, 2, 3, 0, 0, 0],
        routing(r@[4]) == seq![2u32, 2, 3, 1, 1, 1],
{
    let r = [
        Preset {
            name: make_name("Lucky Man"),
            osc1: osc(Waveform::Square, 0x3F80_0000, 0x0000_0000, 0x0000_0000, true),
            osc2: osc(Waveform::Square, 0x3F33_3333, 0x0000_0000, 0x4000_0000, true),
            osc3: osc(Waveform::Square, 0x3F33_3333, 0x0000_0000, 0xC000_0000, true),
            noise_level: 0x0000_0000,
            portamento: 0x3F6B_851F,
            filter: FilterSettings {
                cutoff: 0x4348_0000,
                resonance: 0x3ECC_CCCD,
                env_amount: 0x453B_8000,
                attack: 0x3DCC_CCCD,
                decay: 0x3FC0_0000,
                sustain: 0x3ECC_CCCD,
                release: 0x3F00_0000,
            },
            amp: EnvelopeSettings {
                attack: 0x3D4C_CCCD,
                decay: 0x3E4C_CCCD,
                sustain: 0x3F80_0000,
                release: 0x3F00_0000,
            },
            lfo_enabled: 1,
            lfo: lfo(0x40A0_0000, LfoWaveform::Sine, 0x4000_0000, 0x0000_0000),
            delay: delay_set(0x3ECC_CCCD, 0x3E99_999A, 0x3E99_999A, true),
            reverb: reverb_set(0x3F00_0000, 0x3F00_0000, 0x3DCC_CCCD, false),
            padding: [0; 4],
        },
        Preset {
            name: make_name("Tom Sawyer"),
            osc1: osc(Waveform::Saw, 0x3F80_0000, 0x0000_0000, 0x0000_0000, false),
            osc2: osc(Waveform::Saw, 0x3F00_0000, 0x0000_0000, 0x3FC0_0000, false),
            osc3: osc(Waveform::Sine, 0x0000_0000, 0x0000_0000, 0x0000_0000, false),
            noise_level: 0x0000_0000,
            portamento: 0x0000_0000,
            filter: FilterSettings {
                cutoff: 0x42A0_0000,
                resonance: 0x3EE6_6666,
                env_amount: 0x459C_4000,
                attack: 0x3CF5_C28F,
                decay: 0x4000_0000,
                sustain: 0x3DCC_CCCD,
                release: 0x3DCC_CCCD,
            },
            amp: EnvelopeSettings {
                attack: 0x3C23_D70A,
                decay: 0x3DCC_CCCD,
                sustain: 0x3F80_0000,
                release: 0x3E4C_CCCD,
            },
            lfo_enabled: 0,
            lfo: lfo(0x3F80_0000, LfoWaveform::Sine, 0x0000_0000, 0x0000_0000),
            delay: delay_set(0x3E19_999A, 0x3E4C_CCCD, 0x3E4C_CCCD, true),
            reverb: reverb_set(0x3E99_999A, 0x3F00_0000, 0x3DCC_CCCD, false),
            padding: [0; 4],
        },
        Preset {
            name: make_name("Moog Scream"),
            osc1: osc(Waveform::Saw, 0x3F80_0000, 0x0000_0000, 0x0000_0000, true),
            osc2: osc(Waveform::Saw, 0x3F19_999A, 0x0000_0000, 0x4020_0000, true),
            osc3: osc(Waveform::Square, 0x3F4C_CCCD, 0x0000_0000, 0xC020_0000, true),
            noise_level: 0x3E19_999A,
            portamento: 0x3F59_999A,
            filter: FilterSettings {
                cutoff: 0x42C8_0000,
                resonance: 0x3F40_0000,
                env_amount: 0x45BB_8000,
                attack: 0x3BA3_D70A,
                decay: 0x3E99_999A,
                sustain: 0x3E4C_CCCD,
                release: 0x3E4C_CCCD,
            },
            amp: EnvelopeSettings {
                attack: 0x3BA3_D70A,
                decay: 0x3E4C_CCCD,
                sustain: 0x3F80_0000,
                release: 0x3E4C_CCCD,
            },
            lfo_enabled: 1,
            lfo: lfo(0x3E19_999A, LfoWaveform::Sine, 0x4100_0000, 0x0000_0000),
            delay: delay_set(0x3E80_0000, 0x3E99_999A, 0x3E99_999A, false),
            reverb: reverb_set(0x3F00_0000, 0x3F00_0000, 0x3E4C_CCCD, true),
            padding: [0; 4],
        },
        Preset {
            name: make_name("Moog Bass"),
            osc1: osc(Waveform::Saw, 0x3F80_0000, 0xC040_0000, 0x0000_0000, false),
            osc2: osc(Waveform::Saw, 0x3ECC_CCCD, 0xC040_0000, 0x3E99_999A, false),
            osc3: osc(Waveform::Square, 0x3F00_0000, 0xC080_0000, 0x0000_0000, false),
            noise_level: 0x0000_0000,
            portamento: 0x0000_0000,
            filter: FilterSettings {
                cutoff: 0x42A0_0000,
                resonance: 0x3F19_999A,
                env_amount: 0x453B_8000,
                attack: 0x3A83_126F,
                decay: 0x3E80_0000,
                sustain: 0x0000_0000,
                release: 0x3DCC_CCCD,
            },
            amp: EnvelopeSettings {
                attack: 0x3A83_126F,
                decay: 0x3E4C_CCCD,
                sustain: 0x3F4C_CCCD,
                release: 0x3DCC_CCCD,
            },
            lfo_enabled: 0,
            lfo: lfo(0x3F80_0000, LfoWaveform::Sine, 0x0000_0000, 0x0000_0000),
            delay: delay_set(0x3E80_0000, 0x3E99_999A, 0x3E99_999A, false),
            reverb: reverb_set(0x3F00_0000, 0x3F00_0000, 0x3DCC_CCCD, false),
            padding: [0; 4],
        },
        Preset {
            name: make_name("Octavarium Lead"),
            osc1: osc(Waveform::Saw, 0x3F80_0000, 0x0000_0000, 0x0000_0000, true),
            osc2: osc(Waveform::Saw, 0x3F00_0000, 0x0000_0000, 0x4000_0000, false),
            osc3: osc(Waveform::Square, 0x3E99_999A, 0x0000_0000, 0x0000_0000, false),
            noise_level: 0x0000_0000,
            portamento: 0x3F70_A3D7,
            filter: FilterSettings {
                cutoff: 0x43FA_0000,
                resonance: 0x3F19_999A,
                env_amount: 0x457A_0000,
                attack: 0x3C23_D70A,
                decay: 0x3F00_0000,
                sustain: 0x3F19_999A,
                release: 0x3E4C_CCCD,
            },
            amp: EnvelopeSettings {
                attack: 0x3BA3_D70A,
                decay: 0x3DCC_CCCD,
                sustain: 0x3F80_0000,
                release: 0x3E4C_CCCD,
            },
            lfo_enabled: 1,
            lfo: lfo(0x40B0_0000, LfoWaveform::Sine, 0x3FC0_0000, 0x0000_0000),
            delay: delay_set(0x3E80_0000, 0x3E99_999A, 0x3E99_999A, true),
            reverb: reverb_set(0x3F00_0000, 0x3F00_0000, 0x3DCC_CCCD, true),
            padding: [0; 4],
        },
    ];
    assert forall|i: int| 0 <= i < 5 implies #[trigger] r@[i].padding@ =~= seq![0u8, 0, 0, 0] by {}
    r
}

} // verus!
