//! Bulk preset transfer over SysEx: message accumulation, requests and replies.
use vstd::prelude::*;
use crate::bank::{block_header_valid, header_valid, BLOCK_SIZE};
use crate::nibble::{
    decode_block, decoded, encode_block, encoded, frame_sysex, framed, SYSEX_END, SYSEX_START,
};

verus! {

/// Manufacturer identifier that every message of this device carries.
pub const SYSEX_ID: u8 = 0x7D;
/// Model identifier that every message of this device carries.
pub const SYSEX_MODEL: u8 = 0x01;
/// Command: send the stored bank back.
pub const CMD_DUMP_REQ: u8 = 0x01;
/// Command: replace the stored bank.
pub const CMD_WRITE_REQ: u8 = 0x02;
/// Reply: the bank was written.
pub const CMD_WRITE_SUCCESS: u8 = 0x03;
/// Reply: the bank was refused, with an error code.
pub const CMD_WRITE_ERROR: u8 = 0x04;
/// Error code: the payload does not decode to a whole bank.
pub const ERR_BAD_LENGTH: u8 = 0x01;
/// Error code: the decoded bank has the wrong tag or version.
pub const ERR_BAD_MAGIC: u8 = 0x02;
/// Room for the longest message accepted: a whole encoded bank and its framing.
pub const SYSEX_CAPACITY: usize = 8224;
/// Length of a write request's payload: the nibble encoding of a whole bank.
pub const WRITE_PAYLOAD_LEN: usize = 8192;

/// Abstract state of a [`SysexAssembler`]: the bytes kept, whether a message
/// is open, and whether bytes of it were dropped for want of room.
pub struct AssemblerModel {
    pub data: Seq<u8>,
    pub in_sysex: bool,
    pub overflowed: bool,
}

/// The state after a continuation packet carrying `bytes`: a message starts
/// if none was open, and the bytes are kept while they leave spare room;
/// otherwise they are dropped and the message is marked as overflowed.
pub open spec fn model_continue(m: AssemblerModel, bytes: Seq<u8>) -> AssemblerModel {
    let base = if m.in_sysex { m.data } else { Seq::empty() };
    let base_over = m.in_sysex && m.overflowed;
    if base.len() + 3 < SYSEX_CAPACITY {
        AssemblerModel { data: base + bytes, in_sysex: true, overflowed: base_over }
    } else {
        AssemblerModel { data: base, in_sysex: true, overflowed: true }
    }
}

/// The state after an end packet carrying `bytes` closes the open message:
/// the bytes are kept if they fit, else the message is marked as overflowed.
pub open spec fn model_end(m: AssemblerModel, bytes: Seq<u8>) -> AssemblerModel {
    if m.data.len() + bytes.len() <= SYSEX_CAPACITY {
        AssemblerModel { data: m.data + bytes, in_sysex: false, overflowed: m.overflowed }
    } else {
        AssemblerModel { data: m.data, in_sysex: false, overflowed: true }
    }
}

/// Collects the bytes of one SysEx message from USB-MIDI packets.
pub struct SysexAssembler {
    buf: Vec<u8>,
    in_sysex: bool,
    overflowed: bool,
}

impl View for SysexAssembler {
    type V = AssemblerModel;

    closed spec fn view(&self) -> AssemblerModel {
        AssemblerModel { data: self.buf@, in_sysex: self.in_sysex, overflowed: self.overflowed }
    }
}

impl SysexAssembler {
    /// No message open.
    pub fn new() -> (r: Self)
        ensures
            r@.data == Seq::<u8>::empty(),
            !r@.in_sysex,
            !r@.overflowed,
    {
        SysexAssembler { buf: Vec::new(), in_sysex: false, overflowed: false }
    }

    /// A packet with code index number 0x4: starts or continues a message.
    pub fn continue_message(&mut self, b1: u8, b2: u8, b3: u8)
        ensures
            final(self)@ == model_continue(old(self)@, seq![b1, b2, b3]),
    {
        if !self.in_sysex {
            self.in_sysex = true;
            self.overflowed = false;
            self.buf.clear();
        }
        if self.buf.len() < SYSEX_CAPACITY - 3 {
            self.buf.push(b1);
            self.buf.push(b2);
            self.buf.push(b3);
        } else {
            self.overflowed = true;
        }
        assert(final(self)@.data =~= model_continue(old(self)@, seq![b1, b2, b3]).data);
    }

    /// A packet that ends a message with the first `len` of its bytes. An open
    /// message is always closed; returns whether one was, and it is then
    /// [`Self::message`]. An end packet with no message open is ignored.
    pub fn end_message(&mut self, len: usize, b1: u8, b2: u8, b3: u8) -> (done: bool)
        requires
            1 <= len <= 3,
        ensures
            done == old(self)@.in_sysex,
            done ==> final(self)@ == model_end(old(self)@, seq![b1, b2, b3].take(len as int)),
            !done ==> final(self)@ == old(self)@,
    {
        if !self.in_sysex {
            return false;
        }
        if self.buf.len() <= SYSEX_CAPACITY - len {
            self.buf.push(b1);
            if len >= 2 {
                self.buf.push(b2);
            }
            if len >= 3 {
                self.buf.push(b3);
            }
            assert(self.buf@ =~= old(self)@.data + seq![b1, b2, b3].take(len as int));
        } else {
            self.overflowed = true;
        }
        self.in_sysex = false;
        true
    }

    /// Whether bytes of the last message were dropped for want of room.
    pub fn overflowed(&self) -> (r: bool)
        ensures
            r == self@.overflowed,
    {
        self.overflowed
    }

    /// The bytes collected so far.
    pub fn message(&self) -> (r: &[u8])
        ensures
            r@ == self@.data,
    {
        self.buf.as_slice()
    }
}

/// What a complete message asks for.
#[derive(Clone, Copy, PartialEq, Eq, Debug)]
pub enum SysexRequest {
    Dump,
    Write,
    Other,
}

/// Whether `msg` is framed as a message to this device: start byte,
/// identifiers, a command byte, end byte.
pub open spec fn addressed_to_us(msg: Seq<u8>) -> bool {
    msg.len() >= 5 && msg[0] == SYSEX_START && msg[msg.len() - 1] == SYSEX_END && msg[1] == SYSEX_ID
        && msg[2] == SYSEX_MODEL
}

/// The request that `msg` makes.
pub open spec fn request_of(msg: Seq<u8>) -> SysexRequest {
    if !addressed_to_us(msg) {
        SysexRequest::Other
    } else if msg[3] == CMD_DUMP_REQ {
        SysexRequest::Dump
    } else if msg[3] == CMD_WRITE_REQ {
        SysexRequest::Write
    } else {
        SysexRequest::Other
    }
}

/// Whether `msg` starts as a write request to this device.
pub open spec fn write_head(msg: Seq<u8>) -> bool {
    msg.len() >= 4 && msg[0] == SYSEX_START && msg[1] == SYSEX_ID && msg[2] == SYSEX_MODEL && msg[3]
        == CMD_WRITE_REQ
}

/// Whether `msg` starts as a write request to this device.
pub fn is_write_head(msg: &[u8]) -> (r: bool)
    ensures
        r == write_head(msg@),
{
    msg.len() >= 4 && msg[0] == SYSEX_START && msg[1] == SYSEX_ID && msg[2] == SYSEX_MODEL && msg[3]
        == CMD_WRITE_REQ
}

/// Classifies a complete message.
pub fn classify(msg: &[u8]) -> (r: SysexRequest)
    ensures
        r == request_of(msg@),
{
    let n = msg.len();
    if n >= 5 && msg[0] == SYSEX_START && msg[n - 1] == SYSEX_END && msg[1] == SYSEX_ID && msg[2]
        == SYSEX_MODEL {
        if msg[3] == CMD_DUMP_REQ {
            SysexRequest::Dump
        } else if msg[3] == CMD_WRITE_REQ {
            SysexRequest::Write
        } else {
            SysexRequest::Other
        }
    } else {
        SysexRequest::Other
    }
}

/// Why a write request was refused.
#[derive(Clone, Copy, PartialEq, Eq, Debug)]
pub enum WriteError {
    BadLength,
    BadMagic,
}

impl WriteError {
    /// The error code sent back to the requester.
    pub fn code(&self) -> (r: u8)
        ensures
            r == (match self {
                WriteError::BadLength => ERR_BAD_LENGTH,
                WriteError::BadMagic => ERR_BAD_MAGIC,
            }),
    {
        match self {
            WriteError::BadLength => ERR_BAD_LENGTH,
            WriteError::BadMagic => ERR_BAD_MAGIC,
        }
    }
}

/// The encoded payload of a request: between the command byte and the end byte.
pub open spec fn payload_of(msg: Seq<u8>) -> Seq<u8> {
    msg.subrange(4, msg.len() - 1)
}

/// The outcome of a write request: the bank to store, or why it is refused.
pub open spec fn write_outcome(msg: Seq<u8>) -> Result<Seq<u8>, WriteError> {
    let payload = payload_of(msg);
    if payload.len() != WRITE_PAYLOAD_LEN {
        Err(WriteError::BadLength)
    } else if !header_valid(decoded(payload)) {
        Err(WriteError::BadMagic)
    } else {
        Ok(decoded(payload))
    }
}

/// Checks a write request addressed to this device: the payload must decode
/// to exactly one bank, and that bank must carry the expected tag and
/// version. On success, returns the bank to store.
pub fn check_write_request(msg: &[u8]) -> (r: Result<Vec<u8>, WriteError>)
    requires
        msg@.len() >= 5,
    ensures
        match (r, write_outcome(msg@)) {
            (Ok(b), Ok(s)) => b@ == s,
            (Err(e), Err(f)) => e == f,
            _ => false,
        },
{
    let n = msg.len();
    let mut payload: Vec<u8> = Vec::with_capacity(n - 5);
    let mut i: usize = 4;
    while i < n - 1
        invariant
            n == msg@.len(),
            n >= 5,
            4 <= i <= n - 1,
            payload@ == msg@.subrange(4, i as int),
        decreases n - 1 - i,
    {
        payload.push(msg[i]);
        i = i + 1;
        assert(payload@ =~= msg@.subrange(4, i as int));
    }
    if payload.len() != WRITE_PAYLOAD_LEN {
        return Err(WriteError::BadLength);
    }
    let block = decode_block(payload.as_slice());
    if !block_header_valid(block.as_slice()) {
        return Err(WriteError::BadMagic);
    }
    Ok(block)
}

/// The message sent back for a dump request: a write request carrying the
/// nibble-encoded bank, so that it can be sent back unchanged to restore it.
pub open spec fn dump_message(raw: Seq<u8>) -> Seq<u8> {
    seq![SYSEX_START, SYSEX_ID, SYSEX_MODEL, CMD_WRITE_REQ] + encoded(raw) + seq![SYSEX_END]
}

/// The reply to a write request: success, or an error with its code.
pub open spec fn write_reply(outcome: Result<(), WriteError>) -> Seq<u8> {
    match outcome {
        Ok(()) => seq![SYSEX_START, SYSEX_ID, SYSEX_MODEL, CMD_WRITE_SUCCESS, SYSEX_END],
        Err(e) => seq![
            SYSEX_START,
            SYSEX_ID,
            SYSEX_MODEL,
            CMD_WRITE_ERROR,
            match e {
                WriteError::BadLength => ERR_BAD_LENGTH,
                WriteError::BadMagic => ERR_BAD_MAGIC,
            },
            SYSEX_END,
        ],
    }
}

/// The packets that answer a dump request for the bank `raw`.
pub fn dump_response(raw: &[u8]) -> (r: Vec<u8>)
    requires
        raw@.len() <= BLOCK_SIZE,
    ensures
        r@ == framed(dump_message(raw@)),
{
    let mut msg: Vec<u8> = Vec::with_capacity(2 * raw.len() + 5);
    msg.push(SYSEX_START);
    msg.push(SYSEX_ID);
    msg.push(SYSEX_MODEL);
    msg.push(CMD_WRITE_REQ);
    let enc = encode_block(raw);
    let mut i: usize = 0;
    while i < enc.len()
        invariant
            enc@ == encoded(raw@),
            enc@.len() == 2 * raw@.len(),
            raw@.len() <= BLOCK_SIZE,
            i <= enc@.len(),
            msg@ == seq![SYSEX_START, SYSEX_ID, SYSEX_MODEL, CMD_WRITE_REQ] + enc@.take(i as int),
        decreases enc.len() - i,
    {
        msg.push(enc[i]);
        i = i + 1;
        assert(msg@ =~= seq![SYSEX_START, SYSEX_ID, SYSEX_MODEL, CMD_WRITE_REQ] + enc@.take(i as int));
    }
    msg.push(SYSEX_END);
    assert(msg@ =~= dump_message(raw@));
    frame_sysex(msg.as_slice())
}

/// The packets that answer a write request with `outcome`.
pub fn write_response(outcome: Result<(), WriteError>) -> (r: Vec<u8>)
    ensures
        r@ == framed(write_reply(outcome)),
{
    let mut msg: Vec<u8> = Vec::new();
    msg.push(SYSEX_START);
    msg.push(SYSEX_ID);
    msg.push(SYSEX_MODEL);
    match outcome {
        Ok(()) => {
            msg.push(CMD_WRITE_SUCCESS);
        },
        Err(e) => {
            msg.push(CMD_WRITE_ERROR);
            msg.push(e.code());
        },
    }
    msg.push(SYSEX_END);
    assert(msg@ =~= write_reply(outcome));
    frame_sysex(msg.as_slice())
}

} // verus!
