//! Nibble encoding of SysEx payloads, and their framing into USB-MIDI packets.
use vstd::prelude::*;

verus! {

/// First byte of a SysEx message.
pub const SYSEX_START: u8 = 0xF0;
/// Last byte of a SysEx message.
pub const SYSEX_END: u8 = 0xF7;
/// Code index number of a packet that starts or continues a SysEx message.
pub const CIN_SYSEX_CONTINUE: u8 = 0x04;

/// High nibble of `b`.
pub open spec fn hi_nibble(b: u8) -> u8 {
    b / 16
}

/// Low nibble of `b`.
pub open spec fn lo_nibble(b: u8) -> u8 {
    b % 16
}

/// The byte whose high nibble is the low four bits of `h` and whose low nibble
/// is the low four bits of `l`.
pub open spec fn join_nibbles(h: u8, l: u8) -> u8 {
    ((h % 16) * 16 + l % 16) as u8
}

/// Each byte as its high nibble then its low nibble.
pub open spec fn encoded(data: Seq<u8>) -> Seq<u8> {
    Seq::new(2 * data.len(), |j: int| if j % 2 == 0 { hi_nibble(data[j / 2]) } else { lo_nibble(data[j / 2]) })
}

/// Each pair of nibbles joined back into a byte.
pub open spec fn decoded(enc: Seq<u8>) -> Seq<u8> {
    Seq::new(enc.len() / 2, |i: int| join_nibbles(enc[2 * i], enc[2 * i + 1]))
}

/// Splits a byte into its two nibbles, high first; both are below 0x80.
pub fn encode_nibbles(b: u8) -> (r: (u8, u8))
    ensures
        r.0 == hi_nibble(b),
        r.1 == lo_nibble(b),
        r.0 < 0x80 && r.1 < 0x80,
{
    let h = (b >> 4) & 0x0F;
    let l = b & 0x0F;
    assert(h == b / 16 && l == b % 16) by (bit_vector)
        requires
            h == (b >> 4) & 0x0F,
            l == b & 0x0F,
    ;
    (h, l)
}

/// Joins a high and a low nibble into a byte; bits above the nibble are dropped.
pub fn decode_nibbles(h: u8, l: u8) -> (r: u8)
    ensures
        r == join_nibbles(h, l),
{
    let r = (h << 4) | (l & 0x0F);
    assert(r == ((h % 16) * 16 + l % 16) as u8) by (bit_vector)
        requires
            r == (h << 4) | (l & 0x0F),
    ;
    r
}

/// Decoding the two nibbles of a byte gives the byte back.
pub proof fn lemma_nibble_round_trip(b: u8)
    ensures
        join_nibbles(hi_nibble(b), lo_nibble(b)) == b,
        hi_nibble(b) < 0x80 && lo_nibble(b) < 0x80,
{
}

/// Decoding the nibble encoding of any block gives the block back.
pub proof fn lemma_block_round_trip(data: Seq<u8>)
    ensures
        decoded(encoded(data)) == data,
{
    let e = encoded(data);
    assert forall|i: int| 0 <= i < data.len() implies #[trigger] decoded(e)[i] == data[i] by {
        assert((2 * i) / 2 == i && (2 * i) % 2 == 0);
        assert((2 * i + 1) / 2 == i && (2 * i + 1) % 2 == 1);
        lemma_nibble_round_trip(data[i]);
    }
    assert(decoded(e) =~= data);
}

/// Nibble-encodes a block: two bytes out for each byte in.
pub fn encode_block(data: &[u8]) -> (r: Vec<u8>)
    requires
        2 * data@.len() <= usize::MAX,
    ensures
        r@ == encoded(data@),
{
    let mut r: Vec<u8> = Vec::with_capacity(2 * data.len());
    let mut i: usize = 0;
    while i < data.len()
        invariant
            i <= data@.len(),
            r@.len() == 2 * i,
            forall|j: int| 0 <= j < 2 * i ==> r@[j] == encoded(data@)[j],
        decreases data.len() - i,
    {
        let (h, l) = encode_nibbles(data[i]);
        r.push(h);
        r.push(l);
        proof {
            assert((2 * i as int) / 2 == i && (2 * i as int) % 2 == 0);
            assert((2 * i as int + 1) / 2 == i && (2 * i as int + 1) % 2 == 1);
        }
        i = i + 1;
    }
    assert(r@ =~= encoded(data@));
    r
}

/// Joins nibble pairs back into bytes; a trailing odd nibble is ignored.
pub fn decode_block(enc: &[u8]) -> (r: Vec<u8>)
    ensures
        r@ == decoded(enc@),
{
    let n = enc.len() / 2;
    let mut r: Vec<u8> = Vec::with_capacity(n);
    let mut i: usize = 0;
    while i < n
        invariant
            n == enc@.len() / 2,
            enc@.len() <= usize::MAX,
            i <= n,
            r@.len() == i,
            forall|j: int| 0 <= j < i ==> r@[j] == decoded(enc@)[j],
        decreases n - i,
    {
        r.push(decode_nibbles(enc[2 * i], enc[2 * i + 1]));
        i = i + 1;
    }
    assert(r@ =~= decoded(enc@));
    r
}

/// Number of packets that carry a message of `n` bytes.
pub open spec fn packet_count(n: int) -> int {
    (n + 2) / 3
}

/// Code index number of packet `k` of a message of `n` bytes: a continuation
/// for every packet but the last, which ends the message with its 1, 2 or 3
/// remaining bytes.
pub open spec fn packet_cin(n: int, k: int) -> u8 {
    if k + 1 < packet_count(n) {
        CIN_SYSEX_CONTINUE
    } else {
        (CIN_SYSEX_CONTINUE + (n - 3 * k)) as u8
    }
}

/// The USB-MIDI packets that carry `msg`, laid out four bytes each: the code
/// index number, then three message bytes, zero-padded in the last packet.
pub open spec fn framed(msg: Seq<u8>) -> Seq<u8> {
    Seq::new(
        (4 * packet_count(msg.len() as int)) as nat,
        |j: int|
            {
                let k = j / 4;
                let o = j % 4;
                if o == 0 {
                    packet_cin(msg.len() as int, k)
                } else if 3 * k + o - 1 < msg.len() {
                    msg[3 * k + o - 1]
                } else {
                    0u8
                }
            },
    )
}

/// Frames a complete SysEx message (start to end byte) as USB-MIDI packets.
pub fn frame_sysex(msg: &[u8]) -> (r: Vec<u8>)
    requires
        msg@.len() <= 3 * (usize::MAX / 8),
    ensures
        r@ == framed(msg@),
{
    let n = msg.len();
    let count = (n + 2) / 3;
    let mut r: Vec<u8> = Vec::with_capacity(4 * count);
    let mut k: usize = 0;
    while k < count
        invariant
            n == msg@.len(),
            count == packet_count(n as int),
            n <= 3 * (usize::MAX / 8),
            k <= count,
            r@.len() == 4 * k,
            forall|j: int| 0 <= j < 4 * k ==> r@[j] == framed(msg@)[j],
        decreases count - k,
    {
        let start = 3 * k;
        let cin: u8 = if k + 1 < count {
            CIN_SYSEX_CONTINUE
        } else {
            CIN_SYSEX_CONTINUE + (n - start) as u8
        };
        let b1 = if start < n { msg[start] } else { 0 };
        let b2 = if start + 1 < n { msg[start + 1] } else { 0 };
        let b3 = if start + 2 < n { msg[start + 2] } else { 0 };
        r.push(cin);
        r.push(b1);
        r.push(b2);
        r.push(b3);
        proof {
            assert forall|j: int| 4 * k <= j < 4 * k + 4 implies r@[j] == framed(msg@)[j] by {
                assert(j / 4 == k as int);
                assert(j % 4 == j - 4 * k);
            }
        }
        k = k + 1;
    }
    assert(r@ =~= framed(msg@));
    r
}

} // verus!
