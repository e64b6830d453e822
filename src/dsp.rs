//! The sample-exact parts of the signal processing: delay lines, the reverb's
//! tuning, the noise generator's state, and click suppression on note release.
use vstd::prelude::*;

verus! {

/// Lengths, in samples, of the reverb's comb filters on the left channel.
pub const COMB_TUNING: [usize; 4] = [1116, 1277, 1422, 1557];
/// Lengths, in samples, of the reverb's allpass filters on the left channel.
pub const ALLPASS_TUNING: [usize; 2] = [556, 341];
/// Extra length of every right-channel line, to decorrelate the channels.
pub const STEREO_SPREAD: usize = 500;
/// Samples held shut after a release with no note to follow.
pub const GATE_RESET_SAMPLES: usize = 4;

/// Abstract state of a [`DelayLine`]: its contents and the slot read next.
pub struct DelayModel<T> {
    pub buffer: Seq<T>,
    pub pos: int,
}

/// A fixed-length delay: each sample comes out as many samples later as the
/// line is long.
pub struct DelayLine<T> {
    buffer: Vec<T>,
    pos: usize,
}

impl<T: Copy> View for DelayLine<T> {
    type V = DelayModel<T>;

    closed spec fn view(&self) -> DelayModel<T> {
        DelayModel { buffer: self.buffer@, pos: self.pos as int }
    }
}

impl<T: Copy> DelayLine<T> {
    /// Every slot in range and the line not empty.
    pub closed spec fn wf(&self) -> bool {
        self.buffer@.len() > 0 && self.pos < self.buffer@.len()
    }

    /// A line of `size` slots holding `zero`.
    pub fn new(size: usize, zero: T) -> (r: Self)
        requires
            size > 0,
        ensures
            r.wf(),
            r@.buffer == Seq::new(size as nat, |i: int| zero),
            r@.pos == 0,
    {
        let mut buffer: Vec<T> = Vec::with_capacity(size);
        let mut i: usize = 0;
        while i < size
            invariant
                i <= size,
                buffer@ == Seq::new(i as nat, |j: int| zero),
            decreases size - i,
        {
            buffer.push(zero);
            i = i + 1;
            assert(buffer@ =~= Seq::new(i as nat, |j: int| zero));
        }
        DelayLine { buffer, pos: 0 }
    }

    /// Number of slots.
    pub fn len(&self) -> (r: usize)
        requires
            self.wf(),
        ensures
            r == self@.buffer.len(),
    {
        self.buffer.len()
    }

    /// The sample that comes out next, left in place.
    pub fn peek(&self) -> (r: T)
        requires
            self.wf(),
        ensures
            r == self@.buffer[self@.pos],
    {
        self.buffer[self.pos]
    }

    /// Puts `input` in and takes out the sample put in one line length ago.
    pub fn process(&mut self, input: T) -> (r: T)
        requires
            old(self).wf(),
        ensures
            final(self).wf(),
            r == old(self)@.buffer[old(self)@.pos],
            final(self)@.buffer == old(self)@.buffer.update(old(self)@.pos, input),
            final(self)@.pos == (old(self)@.pos + 1) % (old(self)@.buffer.len() as int),
    {
        let n = self.buffer.len();
        let output = self.buffer[self.pos];
        self.buffer.set(self.pos, input);
        self.pos = (self.pos + 1) % n;
        output
    }

    /// Fills the line with `zero` and starts over, so nothing of the past
    /// comes out.
    pub fn reset(&mut self, zero: T)
        requires
            old(self).wf(),
        ensures
            final(self).wf(),
            final(self)@.buffer == Seq::new(old(self)@.buffer.len(), |i: int| zero),
            final(self)@.pos == 0,
    {
        let n = self.buffer.len();
        let mut i: usize = 0;
        while i < n
            invariant
                n == self.buffer@.len(),
                n > 0,
                i <= n,
                forall|j: int| 0 <= j < i ==> self.buffer@[j] == zero,
            decreases n - i,
        {
            self.buffer.set(i, zero);
            i = i + 1;
        }
        self.pos = 0;
        assert(self.buffer@ =~= Seq::new(n as nat, |i: int| zero));
    }
}

/// Lengths of the reverb's comb filters, left channel then right, offset by `seed`.
pub fn comb_lengths(seed: usize) -> (r: (Vec<usize>, Vec<usize>))
    requires
        seed <= usize::MAX - 1557 - STEREO_SPREAD,
    ensures
        r.0@.len() == 4 && r.1@.len() == 4,
        forall|i: int| 0 <= i < 4 ==> r.0@[i] == COMB_TUNING@[i] + seed,
        forall|i: int| 0 <= i < 4 ==> r.1@[i] == COMB_TUNING@[i] + STEREO_SPREAD + seed,
{
    let mut left: Vec<usize> = Vec::new();
    let mut right: Vec<usize> = Vec::new();
    let mut i: usize = 0;
    while i < 4
        invariant
            seed <= usize::MAX - 1557 - STEREO_SPREAD,
            i <= 4,
            COMB_TUNING@ == seq![1116usize, 1277, 1422, 1557],
            left@.len() == i && right@.len() == i,
            forall|j: int| 0 <= j < i ==> left@[j] == COMB_TUNING@[j] + seed,
            forall|j: int| 0 <= j < i ==> right@[j] == COMB_TUNING@[j] + STEREO_SPREAD + seed,
        decreases 4 - i,
    {
        let t = COMB_TUNING[i];
        left.push(t + seed);
        right.push(t + STEREO_SPREAD + seed);
        i = i + 1;
    }
    (left, right)
}

/// Lengths of the reverb's allpass filters, left channel then right, offset by `seed`.
pub fn allpass_lengths(seed: usize) -> (r: (Vec<usize>, Vec<usize>))
    requires
        seed <= usize::MAX - 556 - STEREO_SPREAD,
    ensures
        r.0@.len() == 2 && r.1@.len() == 2,
        forall|i: int| 0 <= i < 2 ==> r.0@[i] == ALLPASS_TUNING@[i] + seed,
        forall|i: int| 0 <= i < 2 ==> r.1@[i] == ALLPASS_TUNING@[i] + STEREO_SPREAD + seed,
{
    let mut left: Vec<usize> = Vec::new();
    let mut right: Vec<usize> = Vec::new();
    let mut i: usize = 0;
    while i < 2
        invariant
            seed <= usize::MAX - 556 - STEREO_SPREAD,
            i <= 2,
            ALLPASS_TUNING@ == seq![556usize, 341],
            left@.len() == i && right@.len() == i,
            forall|j: int| 0 <= j < i ==> left@[j] == ALLPASS_TUNING@[j] + seed,
            forall|j: int| 0 <= j < i ==> right@[j] == ALLPASS_TUNING@[j] + STEREO_SPREAD + seed,
        decreases 2 - i,
    {
        let t = ALLPASS_TUNING[i];
        left.push(t + seed);
        right.push(t + STEREO_SPREAD + seed);
        i = i + 1;
    }
    (left, right)
}

/// Seed of the noise generator.
pub const NOISE_SEED: u32 = 12345;

/// The noise generator's next state: a linear congruential step modulo 2^32.
pub open spec fn lcg_next(state: u32) -> u32 {
    state.wrapping_mul(1103515245).wrapping_add(12345)
}

/// One step of the noise generator: the new state, and the 15-bit value,
/// from 0 to 32767, that the audio side scales to [-1, 1).
pub fn next_random(state: &mut u32) -> (r: u16)
    ensures
        *final(state) == lcg_next(*old(state)),
        r == (*final(state) / 0x1_0000) % 0x8000,
        r < 0x8000,
{
    let s = state.wrapping_mul(1103515245).wrapping_add(12345);
    *state = s;
    let v = (s >> 16) & 0x7FFF;
    assert(v == (s / 0x1_0000) % 0x8000) by (bit_vector)
        requires
            v == (s >> 16) & 0x7FFF,
    ;
    v as u16
}

/// Whether gate sample `index` of a block is open: open with a held note, except
/// that the first few samples stay shut after a release with no successor.
pub fn gate_sample_open(index: usize, gate: bool, reset: bool) -> (r: bool)
    ensures
        r == (gate && !(reset && index < GATE_RESET_SAMPLES)),
{
    if reset && index < GATE_RESET_SAMPLES {
        false
    } else {
        gate
    }
}

} // verus!
