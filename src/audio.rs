//! Block-rate decisions of the audio core: preset hot-swap, load reporting,
//! and the packing of output samples into USB audio packets.
use vstd::prelude::*;
use crate::control::MidiControl;
use crate::presets::Preset;

verus! {

/// Output sample rate, in hertz.
pub const SAMPLE_RATE_HZ: u64 = 48000;
/// Samples in one audio block: interleaved left and right.
pub const AUDIO_BLOCK_SAMPLES: usize = 256;
/// Stereo frames in one audio block.
pub const FRAMES_PER_BLOCK: u64 = 128;
/// Stereo frames in one USB audio packet: one millisecond.
pub const USB_FRAMES_PER_PACKET: usize = 48;

/// What the audio core does with the block about to be computed.
#[derive(Clone, Copy, PartialEq, Eq, Debug)]
pub enum BlockStep {
    /// Drop the current voice and build a new one from this preset, then run it.
    Rebuild(Preset),
    /// Run the current voice.
    Run,
    /// No voice: output silence.
    Silence,
}

/// The audio core's schedule: which preset the running voice was built from,
/// and the index of the next frame.
pub struct AudioPipeline {
    pub voice: Option<Preset>,
    pub frame_index: u64,
}

/// Whether the load is reported for the block that starts at `frame_index`:
/// once a second, for the block that starts within the first block of it.
pub open spec fn reports_load(frame_index: u64) -> bool {
    frame_index % SAMPLE_RATE_HZ < FRAMES_PER_BLOCK
}

impl AudioPipeline {
    /// A pipeline at frame zero, running a voice built from `initial` if given.
    pub fn new(initial: Option<Preset>) -> (r: Self)
        ensures
            r.voice == initial,
            r.frame_index == 0,
    {
        AudioPipeline { voice: initial, frame_index: 0 }
    }

    /// At a block boundary: a pending preset replaces the voice wholesale,
    /// after its glide amount has been stored in `control`; otherwise the
    /// current voice runs, or silence when there is none.
    pub fn begin_block(&mut self, control: &MidiControl, pending: Option<Preset>) -> (r: BlockStep)
        ensures
            final(self).frame_index == old(self).frame_index,
            match pending {
                Some(p) => r == BlockStep::Rebuild(p) && final(self).voice == Some(p),
                None => final(self).voice == old(self).voice && r == (if old(self).voice.is_some() {
                    BlockStep::Run
                } else {
                    BlockStep::Silence
                }),
            },
    {
        match pending {
            Some(p) => {
                control.set_portamento(p.portamento);
                self.voice = Some(p);
                BlockStep::Rebuild(p)
            },
            None => {
                if self.voice.is_some() {
                    BlockStep::Run
                } else {
                    BlockStep::Silence
                }
            },
        }
    }

    /// After a block: whether its load is reported, and on to the next block;
    /// the frame index wraps around.
    pub fn end_block(&mut self) -> (report: bool)
        ensures
            report == reports_load(old(self).frame_index),
            final(self).frame_index == (old(self).frame_index + FRAMES_PER_BLOCK) % 0x1_0000_0000_0000_0000,
            final(self).voice == old(self).voice,
    {
        let report = self.frame_index % SAMPLE_RATE_HZ < FRAMES_PER_BLOCK;
        self.frame_index = self.frame_index.wrapping_add(FRAMES_PER_BLOCK);
        report
    }
}

/// How many frames move from an audio block, read up to sample `block_pos`,
/// into a USB packet that holds `collected` frames: as many as both have.
pub fn frames_to_copy(block_pos: usize, collected: usize) -> (r: usize)
    requires
        block_pos <= AUDIO_BLOCK_SAMPLES,
        collected <= USB_FRAMES_PER_PACKET,
    ensures
        r == if (AUDIO_BLOCK_SAMPLES - block_pos) / 2 < USB_FRAMES_PER_PACKET - collected {
            (AUDIO_BLOCK_SAMPLES - block_pos) / 2
        } else {
            USB_FRAMES_PER_PACKET - collected
        },
{
    let available = (AUDIO_BLOCK_SAMPLES - block_pos) / 2;
    let needed = USB_FRAMES_PER_PACKET - collected;
    if available < needed {
        available
    } else {
        needed
    }
}

/// The little-endian bytes of a 16-bit sample.
pub open spec fn sample_bytes(s: i16) -> Seq<u8> {
    seq![((s as u16) & 0xFF) as u8, ((s as u16) >> 8) as u8]
}

/// Samples laid out one after the other, each little-endian.
pub open spec fn packed(samples: Seq<i16>) -> Seq<u8> {
    Seq::new(2 * samples.len(), |j: int| sample_bytes(samples[j / 2])[j % 2])
}

/// Packs interleaved 16-bit samples into the bytes of a USB audio packet.
pub fn pack_samples(samples: &[i16]) -> (r: Vec<u8>)
    requires
        2 * samples@.len() <= usize::MAX,
    ensures
        r@ == packed(samples@),
{
    let mut r: Vec<u8> = Vec::with_capacity(2 * samples.len());
    let mut i: usize = 0;
    while i < samples.len()
        invariant
            i <= samples@.len(),
            r@.len() == 2 * i,
            forall|j: int| 0 <= j < 2 * i ==> r@[j] == packed(samples@)[j],
        decreases samples.len() - i,
    {
        let u = samples[i] as u16;
        r.push((u & 0xFF) as u8);
        r.push((u >> 8) as u8);
        proof {
            assert((2 * i as int) / 2 == i && (2 * i as int) % 2 == 0);
            assert((2 * i as int + 1) / 2 == i && (2 * i as int + 1) % 2 == 1);
        }
        i = i + 1;
    }
    assert(r@ =~= packed(samples@));
    r
}

/// A processing stage that can be switched out of the signal path.
pub struct Bypass<T> {
    pub processor: T,
    pub enabled: bool,
}

impl<T> Bypass<T> {
    pub fn new(processor: T, enabled: bool) -> (r: Self)
        ensures
            r.processor == processor,
            r.enabled == enabled,
    {
        Bypass { processor, enabled }
    }

    pub fn set_enabled(&mut self, enabled: bool)
        ensures
            final(self).enabled == enabled,
            final(self).processor == old(self).processor,
    {
        self.enabled = enabled;
    }

    /// The stage's latency: the inner stage's when in the path, else none.
    pub fn latency_samples(&self, inner: u32) -> (r: u32)
        ensures
            r == if self.enabled { inner } else { 0 },
    {
        if self.enabled {
            inner
        } else {
            0
        }
    }
}

} // verus!
