//! The persisted preset bank: a little-endian header followed by packed
//! preset records, all within one erase unit of storage.
use vstd::prelude::*;
use vstd::arithmetic::div_mod::lemma_fundamental_div_mod_converse;
use crate::presets::{
    DelaySettings, EnvelopeSettings, FilterSettings, LfoSettings, OscSettings, Preset, ReverbSettings,
};

verus! {

/// Tag that marks a formatted bank ("PDSP").
pub const MAGIC: u32 = 0x5044_5350;
/// Layout version of the bank.
pub const VERSION: u32 = 7;
/// Size of the whole bank: one erase unit.
pub const BLOCK_SIZE: usize = 4096;
/// Size of the header.
pub const HEADER_SIZE: usize = 16;
/// Size of one preset record.
pub const PRESET_SIZE: usize = 200;
/// Parameter words in one preset record, between its name and its padding.
pub const PRESET_WORDS: usize = 41;

/// The four little-endian bytes of `w`.
pub open spec fn le_bytes(w: u32) -> Seq<u8> {
    seq![(w & 0xFF) as u8, ((w >> 8) & 0xFF) as u8, ((w >> 16) & 0xFF) as u8, ((w >> 24) & 0xFF) as u8]
}

/// The word whose little-endian bytes are `b0` to `b3`.
pub open spec fn le_word(b0: u8, b1: u8, b2: u8, b3: u8) -> u32 {
    (b0 as u32) | ((b1 as u32) << 8) | ((b2 as u32) << 16) | ((b3 as u32) << 24)
}

/// The little-endian word stored at `off` in `b`.
pub open spec fn word_at(b: Seq<u8>, off: int) -> u32 {
    le_word(b[off], b[off + 1], b[off + 2], b[off + 3])
}

/// Words laid out one after the other, each little-endian.
pub open spec fn words_le(ws: Seq<u32>) -> Seq<u8> {
    Seq::new(4 * ws.len(), |j: int| le_bytes(ws[j / 4])[j % 4])
}

/// The parameter words of a preset, in their stored order.
pub open spec fn preset_words(p: Preset) -> Seq<u32> {
    seq![
        p.osc1.waveform, p.osc1.level, p.osc1.octave, p.osc1.detune, p.osc1.enable_vibrato,
        p.osc2.waveform, p.osc2.level, p.osc2.octave, p.osc2.detune, p.osc2.enable_vibrato,
        p.osc3.waveform, p.osc3.level, p.osc3.octave, p.osc3.detune, p.osc3.enable_vibrato,
        p.noise_level, p.portamento,
        p.filter.cutoff, p.filter.resonance, p.filter.env_amount, p.filter.attack,
        p.filter.decay, p.filter.sustain, p.filter.release,
        p.amp.attack, p.amp.decay, p.amp.sustain, p.amp.release,
        p.lfo_enabled,
        p.lfo.frequency, p.lfo.waveform, p.lfo.vibrato_amount, p.lfo.filter_amount,
        p.delay.time, p.delay.feedback, p.delay.mix, p.delay.enabled,
        p.reverb.size, p.reverb.damping, p.reverb.mix, p.reverb.enabled,
    ]
}

/// The stored record of a preset: name, parameter words, padding.
pub open spec fn preset_bytes(p: Preset) -> Seq<u8> {
    p.name@ + words_le(preset_words(p)) + p.padding@
}

/// The header of a bank of `count` presets.
pub open spec fn header_bytes(count: u32) -> Seq<u8> {
    words_le(seq![MAGIC, VERSION, count, 0u32])
}

/// Offset of record `i` in a bank.
pub open spec fn record_offset(i: int) -> int {
    HEADER_SIZE + PRESET_SIZE * i
}

/// The record bytes at index `i` of the image `img`.
pub open spec fn record_at(img: Seq<u8>, i: int) -> Seq<u8> {
    img.subrange(record_offset(i), record_offset(i) + PRESET_SIZE)
}

/// Whether `count` records fit in a bank after its header.
pub open spec fn fits_in_bank(count: int) -> bool {
    record_offset(count) <= BLOCK_SIZE
}

/// A formatted bank holding `ps`: header, records, then zeros.
pub open spec fn bank_image(ps: Seq<Preset>) -> Seq<u8> {
    Seq::new(
        BLOCK_SIZE as nat,
        |j: int|
            if j < HEADER_SIZE {
                header_bytes(ps.len() as u32)[j]
            } else if j < record_offset(ps.len() as int) {
                preset_bytes(ps[(j - HEADER_SIZE) / PRESET_SIZE as int])[(j - HEADER_SIZE) % PRESET_SIZE as int]
            } else {
                0u8
            },
    )
}

/// Whether a bank's header carries the expected tag and version.
pub open spec fn header_valid(img: Seq<u8>) -> bool {
    img.len() >= 8 && word_at(img, 0) == MAGIC && word_at(img, 4) == VERSION
}

/// Number of presets that a bank's header announces.
pub open spec fn header_count(img: Seq<u8>) -> u32 {
    word_at(img, 8)
}

/// Whether loading preset `index` from `img` finds it.
pub open spec fn preset_found(img: Seq<u8>, index: int) -> bool {
    img.len() >= HEADER_SIZE && index < header_count(img) && record_offset(index + 1) <= img.len()
}

/// Encoding a word and reading it back gives the word, and the other way round.
pub proof fn lemma_le_round_trip(w: u32, b0: u8, b1: u8, b2: u8, b3: u8)
    ensures
        le_word(le_bytes(w)[0], le_bytes(w)[1], le_bytes(w)[2], le_bytes(w)[3]) == w,
        le_bytes(le_word(b0, b1, b2, b3)) == seq![b0, b1, b2, b3],
{
    assert(le_word(((w & 0xFF) as u8), (((w >> 8) & 0xFF) as u8), (((w >> 16) & 0xFF) as u8),
        (((w >> 24) & 0xFF) as u8)) == w) by (bit_vector);
    let v = le_word(b0, b1, b2, b3);
    assert(((v & 0xFF) as u8) == b0 && (((v >> 8) & 0xFF) as u8) == b1 && (((v >> 16) & 0xFF) as u8) == b2
        && (((v >> 24) & 0xFF) as u8) == b3) by (bit_vector)
        requires
            v == le_word(b0, b1, b2, b3),
    ;
    assert(le_bytes(v) =~= seq![b0, b1, b2, b3]);
}

/// Quotient and remainder of `q * d + r` by `d`.
proof fn lemma_div_split(q: int, d: int, r: int)
    requires
        0 < d,
        0 <= r < d,
    ensures
        (q * d + r) / d == q,
        (q * d + r) % d == r,
{
    lemma_fundamental_div_mod_converse(q * d + r, d, q, r);
}

/// Appends the little-endian bytes of `w`.
pub fn push_word(out: &mut Vec<u8>, w: u32)
    ensures
        final(out)@ == old(out)@ + le_bytes(w),
{
    out.push((w & 0xFF) as u8);
    out.push(((w >> 8) & 0xFF) as u8);
    out.push(((w >> 16) & 0xFF) as u8);
    out.push(((w >> 24) & 0xFF) as u8);
    assert(final(out)@ =~= old(out)@ + le_bytes(w));
}

/// The little-endian word at `off`.
pub fn read_word(b: &[u8], off: usize) -> (r: u32)
    requires
        off + 4 <= b@.len(),
    ensures
        r == word_at(b@, off as int),
{
    (b[off] as u32) | ((b[off + 1] as u32) << 8) | ((b[off + 2] as u32) << 16) | ((b[off + 3] as u32) << 24)
}

/// Appends words, each little-endian.
fn push_words(out: &mut Vec<u8>, ws: &[u32])
    ensures
        final(out)@ == old(out)@ + words_le(ws@),
{
    let ghost start = out@;
    let mut i: usize = 0;
    while i < ws.len()
        invariant
            i <= ws@.len(),
            out@ == start + words_le(ws@.take(i as int)),
        decreases ws.len() - i,
    {
        proof {
            let a = words_le(ws@.take(i + 1));
            let b = words_le(ws@.take(i as int)) + le_bytes(ws@[i as int]);
            assert forall|j: int| 0 <= j < 4 * i + 4 implies #[trigger] a[j] == b[j] by {
                if j >= 4 * i {
                    lemma_div_split(i as int, 4, j - 4 * i);
                }
            }
            assert(a =~= b);
        }
        push_word(out, ws[i]);
        i = i + 1;
    }
    assert(ws@.take(i as int) =~= ws@);
}

/// The parameter words of `p`, in their stored order.
fn words_of(p: &Preset) -> (r: Vec<u32>)
    ensures
        r@ == preset_words(*p),
{
    let r = vec![
        p.osc1.waveform, p.osc1.level, p.osc1.octave, p.osc1.detune, p.osc1.enable_vibrato,
        p.osc2.waveform, p.osc2.level, p.osc2.octave, p.osc2.detune, p.osc2.enable_vibrato,
        p.osc3.waveform, p.osc3.level, p.osc3.octave, p.osc3.detune, p.osc3.enable_vibrato,
        p.noise_level, p.portamento,
        p.filter.cutoff, p.filter.resonance, p.filter.env_amount, p.filter.attack,
        p.filter.decay, p.filter.sustain, p.filter.release,
        p.amp.attack, p.amp.decay, p.amp.sustain, p.amp.release,
        p.lfo_enabled,
        p.lfo.frequency, p.lfo.waveform, p.lfo.vibrato_amount, p.lfo.filter_amount,
        p.delay.time, p.delay.feedback, p.delay.mix, p.delay.enabled,
        p.reverb.size, p.reverb.damping, p.reverb.mix, p.reverb.enabled,
    ];
    assert(r@ =~= preset_words(*p));
    r
}

/// The stored record of `p`.
pub fn encode_preset(p: &Preset) -> (r: Vec<u8>)
    ensures
        r@ == preset_bytes(*p),
        r@.len() == PRESET_SIZE,
{
    let mut r: Vec<u8> = Vec::with_capacity(PRESET_SIZE);
    let mut i: usize = 0;
    while i < 32
        invariant
            i <= 32,
            p.name@.len() == 32,
            r@ == p.name@.take(i as int),
        decreases 32 - i,
    {
        r.push(p.name[i]);
        i = i + 1;
        assert(r@ =~= p.name@.take(i as int));
    }
    assert(p.name@.take(32) =~= p.name@);
    let ws = words_of(p);
    push_words(&mut r, ws.as_slice());
    let mut k: usize = 0;
    while k < 4
        invariant
            k <= 4,
            p.padding@.len() == 4,
            r@ == p.name@ + words_le(preset_words(*p)) + p.padding@.take(k as int),
        decreases 4 - k,
    {
        r.push(p.padding[k]);
        k = k + 1;
        assert(r@ =~= p.name@ + words_le(preset_words(*p)) + p.padding@.take(k as int));
    }
    assert(p.padding@.take(4) =~= p.padding@);
    r
}

/// The preset whose name, parameter words and padding are given.
fn preset_from_words(name: [u8; 32], w: &[u32], padding: [u8; 4]) -> (r: Preset)
    requires
        w@.len() == PRESET_WORDS,
    ensures
        r.name == name,
        r.padding == padding,
        preset_words(r) == w@,
{
    let r = Preset {
        name,
        osc1: OscSettings { waveform: w[0], level: w[1], octave: w[2], detune: w[3], enable_vibrato: w[4] },
        osc2: OscSettings { waveform: w[5], level: w[6], octave: w[7], detune: w[8], enable_vibrato: w[9] },
        osc3: OscSettings { waveform: w[10], level: w[11], octave: w[12], detune: w[13], enable_vibrato: w[14] },
        noise_level: w[15],
        portamento: w[16],
        filter: FilterSettings {
            cutoff: w[17],
            resonance: w[18],
            env_amount: w[19],
            attack: w[20],
            decay: w[21],
            sustain: w[22],
            release: w[23],
        },
        amp: EnvelopeSettings { attack: w[24], decay: w[25], sustain: w[26], release: w[27] },
        lfo_enabled: w[28],
        lfo: LfoSettings { frequency: w[29], waveform: w[30], vibrato_amount: w[31], filter_amount: w[32] },
        delay: DelaySettings { time: w[33], feedback: w[34], mix: w[35], enabled: w[36] },
        reverb: ReverbSettings { size: w[37], damping: w[38], mix: w[39], enabled: w[40] },
        padding,
    };
    assert(preset_words(r) =~= w@);
    r
}

/// The words of `words_le(ws)` read back at each offset are `ws`, and the other way round.
proof fn lemma_words_at(b: Seq<u8>, start: int, ws: Seq<u32>)
    requires
        0 <= start,
        start + 4 * ws.len() <= b.len(),
        forall|m: int| 0 <= m < ws.len() ==> #[trigger] ws[m] == word_at(b, start + 4 * m),
    ensures
        words_le(ws) == b.subrange(start, start + 4 * ws.len()),
{
    let e = words_le(ws);
    let t = b.subrange(start, start + 4 * ws.len());
    assert forall|j: int| 0 <= j < e.len() implies #[trigger] e[j] == t[j] by {
        let m = j / 4;
        let o = j % 4;
        lemma_div_split(m, 4, o);
        let off = start + 4 * m;
        assert(ws[m] == word_at(b, off));
        lemma_le_round_trip(0, b[off], b[off + 1], b[off + 2], b[off + 3]);
        assert(le_bytes(ws[m]) == seq![b[off], b[off + 1], b[off + 2], b[off + 3]]);
        assert(j == 4 * m + o);
    }
    assert(e =~= t);
}

/// The preset whose stored record starts at `off` in `b`.
pub fn decode_preset(b: &[u8], off: usize) -> (r: Preset)
    requires
        off + PRESET_SIZE <= b@.len(),
    ensures
        preset_bytes(r) == b@.subrange(off as int, off + PRESET_SIZE),
{
    let len = b.len();
    let mut name = [0u8; 32];
    let mut i: usize = 0;
    while i < 32
        invariant
            off + PRESET_SIZE <= b@.len(),
            i <= 32,
            name@.len() == 32,
            len == b@.len(),
            forall|j: int| 0 <= j < i ==> name@[j] == b@[off + j],
        decreases 32 - i,
    {
        name[i] = b[off + i];
        i = i + 1;
    }
    let mut w: Vec<u32> = Vec::with_capacity(PRESET_WORDS);
    let mut k: usize = 0;
    while k < PRESET_WORDS
        invariant
            off + PRESET_SIZE <= b@.len(),
            k <= PRESET_WORDS,
            w@.len() == k,
            len == b@.len(),
            forall|m: int| 0 <= m < k ==> #[trigger] w@[m] == word_at(b@, off + 32 + 4 * m),
        decreases PRESET_WORDS - k,
    {
        w.push(read_word(b, off + 32 + 4 * k));
        k = k + 1;
    }
    let mut padding = [0u8; 4];
    let mut q: usize = 0;
    while q < 4
        invariant
            off + PRESET_SIZE <= b@.len(),
            q <= 4,
            padding@.len() == 4,
            len == b@.len(),
            forall|j: int| 0 <= j < q ==> padding@[j] == b@[off + 196 + j],
        decreases 4 - q,
    {
        padding[q] = b[off + 196 + q];
        q = q + 1;
    }
    let r = preset_from_words(name, w.as_slice(), padding);
    proof {
        lemma_words_at(b@, off + 32, w@);
        assert(name@ =~= b@.subrange(off as int, off + 32));
        assert(padding@ =~= b@.subrange(off + 196, off + 200));
        assert(preset_bytes(r) =~= b@.subrange(off as int, off + PRESET_SIZE));
    }
    r
}

/// The header at the start of a bank.
#[derive(Clone, Copy, PartialEq, Eq, Debug)]
pub struct StorageHeader {
    pub magic: u32,
    pub version: u32,
    pub num_presets: u32,
    pub padding: u32,
}

impl StorageHeader {
    /// Reads the header of the bank `img`.
    pub fn read(img: &[u8]) -> (r: StorageHeader)
        requires
            img@.len() >= HEADER_SIZE,
        ensures
            r.magic == word_at(img@, 0),
            r.version == word_at(img@, 4),
            r.num_presets == header_count(img@),
            r.padding == word_at(img@, 12),
    {
        StorageHeader {
            magic: read_word(img, 0),
            version: read_word(img, 4),
            num_presets: read_word(img, 8),
            padding: read_word(img, 12),
        }
    }

    /// Whether the bank can be trusted: tag and version as expected. A bank
    /// that fails this is reformatted.
    pub fn is_valid(&self) -> (r: bool)
        ensures
            r == (self.magic == MAGIC && self.version == VERSION),
    {
        self.magic == MAGIC && self.version == VERSION
    }
}

/// Whether the block `b` starts with the expected tag and version.
pub fn block_header_valid(b: &[u8]) -> (r: bool)
    ensures
        r == header_valid(b@),
{
    b.len() >= 8 && read_word(b, 0) == MAGIC && read_word(b, 4) == VERSION
}

/// Appends every byte of `src`.
fn push_bytes(out: &mut Vec<u8>, src: &[u8])
    ensures
        final(out)@ == old(out)@ + src@,
{
    let ghost start = out@;
    let mut i: usize = 0;
    while i < src.len()
        invariant
            i <= src@.len(),
            out@ == start + src@.take(i as int),
        decreases src.len() - i,
    {
        out.push(src[i]);
        i = i + 1;
        assert(out@ =~= start + src@.take(i as int));
    }
    assert(src@.take(i as int) =~= src@);
}

/// A formatted bank holding `presets`: header, packed records, zeros.
pub fn format_image(presets: &[Preset]) -> (r: Vec<u8>)
    requires
        fits_in_bank(presets@.len() as int),
    ensures
        r@ == bank_image(presets@),
{
    let ghost img = bank_image(presets@);
    let n = presets.len();
    let mut out: Vec<u8> = Vec::with_capacity(BLOCK_SIZE);
    let head = [MAGIC, VERSION, n as u32, 0u32];
    push_words(&mut out, head.as_slice());
    proof {
        assert(head@ =~= seq![MAGIC, VERSION, n as u32, 0u32]);
        assert forall|j: int| 0 <= j < HEADER_SIZE implies out@[j] == img[j] by {}
    }
    let mut i: usize = 0;
    while i < n
        invariant
            n == presets@.len(),
            fits_in_bank(n as int),
            img == bank_image(presets@),
            i <= n,
            out@.len() == record_offset(i as int),
            forall|j: int| 0 <= j < out@.len() ==> out@[j] == img[j],
        decreases n - i,
    {
        let rec = encode_preset(&presets[i]);
        let ghost before = out@;
        push_bytes(&mut out, rec.as_slice());
        proof {
            assert forall|j: int| 0 <= j < out@.len() implies out@[j] == img[j] by {
                if j >= before.len() {
                    let k = j - before.len();
                    lemma_div_split(i as int, PRESET_SIZE as int, k);
                    assert(j - HEADER_SIZE == i * PRESET_SIZE + k);
                }
            }
        }
        i = i + 1;
    }
    while out.len() < BLOCK_SIZE
        invariant
            img == bank_image(presets@),
            record_offset(n as int) <= out@.len() <= BLOCK_SIZE,
            n == presets@.len(),
            forall|j: int| 0 <= j < out@.len() ==> out@[j] == img[j],
        decreases BLOCK_SIZE - out@.len(),
    {
        out.push(0u8);
    }
    assert(out@ =~= img);
    out
}

/// Loads preset `index` from the bank `img`: found only when the header
/// announces more than `index` presets and the record lies within `img`.
pub fn load_preset(img: &[u8], index: usize) -> (r: Option<Preset>)
    ensures
        r.is_some() == preset_found(img@, index as int),
        r matches Some(p) ==> preset_bytes(p) == record_at(img@, index as int),
{
    if img.len() < HEADER_SIZE {
        return None;
    }
    let header = StorageHeader::read(img);
    if index as u64 >= header.num_presets as u64 {
        return None;
    }
    if index >= (img.len() - HEADER_SIZE) / PRESET_SIZE {
        return None;
    }
    let off = HEADER_SIZE + PRESET_SIZE * index;
    Some(decode_preset(img, off))
}

/// Word `m` of a formatted bank's header.
proof fn lemma_header_word(ps: Seq<Preset>, m: int)
    requires
        0 <= m < 4,
    ensures
        word_at(bank_image(ps), 4 * m) == seq![MAGIC, VERSION, ps.len() as u32, 0u32][m],
{
    let img = bank_image(ps);
    let h = seq![MAGIC, VERSION, ps.len() as u32, 0u32];
    assert(header_bytes(ps.len() as u32) == words_le(h));
    assert forall|o: int| 0 <= o < 4 implies #[trigger] img[4 * m + o] == le_bytes(h[m])[o] by {
        lemma_div_split(m, 4, o);
    }
    lemma_le_round_trip(h[m], 0, 0, 0, 0);
    assert(img[4 * m + 0] == le_bytes(h[m])[0]);
}

/// A formatted bank has a valid header announcing its presets, and loading
/// each of them gives back its record byte for byte.
pub proof fn lemma_format_round_trip(ps: Seq<Preset>, i: int)
    requires
        fits_in_bank(ps.len() as int),
        0 <= i < ps.len(),
    ensures
        header_valid(bank_image(ps)),
        header_count(bank_image(ps)) == ps.len(),
        preset_found(bank_image(ps), i),
        record_at(bank_image(ps), i) == preset_bytes(ps[i]),
{
    let img = bank_image(ps);
    lemma_header_word(ps, 0);
    lemma_header_word(ps, 1);
    lemma_header_word(ps, 2);
    let rec = record_at(img, i);
    assert forall|k: int| 0 <= k < PRESET_SIZE implies #[trigger] rec[k] == preset_bytes(ps[i])[k] by {
        lemma_div_split(i, PRESET_SIZE as int, k);
        assert(record_offset(i) + k - HEADER_SIZE == i * PRESET_SIZE + k);
    }
    assert(rec =~= preset_bytes(ps[i]));
}

} // verus!
