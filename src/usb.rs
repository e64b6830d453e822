//! Decisions of the USB audio function: replies to audio-class control
//! requests, and the build-time sizes read from text.
use vstd::prelude::*;
use vstd::string::StringSliceAdditionalSpecFns;

verus! {

/// Control selector of the mute control.
pub const CS_MUTE: u8 = 0x01;
/// Control selector of the volume control.
pub const CS_VOLUME: u8 = 0x02;
/// Request: current value.
pub const GET_CUR: u8 = 0x81;
/// Request: minimum value.
pub const GET_MIN: u8 = 0x82;
/// Request: maximum value.
pub const GET_MAX: u8 = 0x83;
/// Request: resolution.
pub const GET_RES: u8 = 0x84;

/// The reply to a class request addressed to the audio interface: never
/// muted; volume at 0 dB, from -64 dB to 0 dB in steps of 1/256 dB.
pub open spec fn class_reply(value: u16, request: u8) -> Option<Seq<u8>> {
    let cs = (value >> 8u16) as u8;
    if cs == CS_MUTE {
        if request == GET_CUR { Some(seq![0u8]) } else { None }
    } else if cs == CS_VOLUME {
        if request == GET_CUR {
            Some(seq![0x00u8, 0x00u8])
        } else if request == GET_MIN {
            Some(seq![0x00u8, 0xC0u8])
        } else if request == GET_MAX {
            Some(seq![0x00u8, 0x00u8])
        } else if request == GET_RES {
            Some(seq![0x00u8, 0x01u8])
        } else {
            None
        }
    } else {
        None
    }
}

/// Answers a class request to the audio interface with the control selector
/// in the high byte of `value`; `None` stalls the request.
pub fn class_request_reply(value: u16, request: u8) -> (r: Option<Vec<u8>>)
    ensures
        match (r, class_reply(value, request)) {
            (Some(v), Some(s)) => v@ == s,
            (None, None) => true,
            _ => false,
        },
{
    let cs = (value >> 8) as u8;
    if cs == CS_MUTE {
        if request == GET_CUR {
            return Some(vec![0u8]);
        }
        None
    } else if cs == CS_VOLUME {
        if request == GET_CUR {
            Some(vec![0x00u8, 0x00u8])
        } else if request == GET_MIN {
            Some(vec![0x00u8, 0xC0u8])
        } else if request == GET_MAX {
            Some(vec![0x00u8, 0x00u8])
        } else if request == GET_RES {
            Some(vec![0x00u8, 0x01u8])
        } else {
            None
        }
    } else {
        None
    }
}

/// The control-request handler of the audio function.
pub struct Control {}

impl Control {
    /// Answers a class request to the audio interface; see [`class_request_reply`].
    pub fn reply(&self, value: u16, request: u8) -> (r: Option<Vec<u8>>)
        ensures
            match (r, class_reply(value, request)) {
                (Some(v), Some(s)) => v@ == s,
                (None, None) => true,
                _ => false,
            },
    {
        class_request_reply(value, request)
    }
}

/// Storage for the audio function's handler, filled when the function is built.
pub struct State {
    pub control: Option<Control>,
}

impl State {
    pub fn new() -> (r: Self)
        ensures
            r.control.is_none(),
    {
        State { control: None }
    }
}

/// The number written by the decimal digits of `s`; other bytes are skipped.
pub open spec fn digits_value(s: Seq<u8>) -> nat
    decreases s.len(),
{
    if s.len() == 0 {
        0
    } else {
        let d = s.last();
        if 0x30 <= d <= 0x39 {
            10 * digits_value(s.drop_last()) + (d - 0x30) as nat
        } else {
            digits_value(s.drop_last())
        }
    }
}

proof fn lemma_digits_prefix(s: Seq<u8>, i: int)
    requires
        0 <= i <= s.len(),
    ensures
        digits_value(s.take(i)) <= digits_value(s),
    decreases s.len() - i,
{
    if i < s.len() {
        lemma_digits_prefix(s, i + 1);
        assert(s.take(i + 1).drop_last() =~= s.take(i));
    } else {
        assert(s.take(i) =~= s);
    }
}

/// Reads the decimal digits of `s` as a number, skipping any other byte.
pub fn parse_int(s: &str) -> (r: usize)
    requires
        digits_value(s.spec_bytes()) <= usize::MAX,
    ensures
        r == digits_value(s.spec_bytes()),
{
    let bytes = s.as_bytes();
    let mut res: usize = 0;
    let mut i: usize = 0;
    while i < bytes.len()
        invariant
            bytes@ == s.spec_bytes(),
            digits_value(bytes@) <= usize::MAX,
            i <= bytes@.len(),
            res == digits_value(bytes@.take(i as int)),
        decreases bytes.len() - i,
    {
        proof {
            assert(bytes@.take(i + 1).drop_last() =~= bytes@.take(i as int));
            lemma_digits_prefix(bytes@, i + 1);
        }
        let b = bytes[i];
        if b >= 0x30 && b <= 0x39 {
            res = res * 10 + (b - 0x30) as usize;
        }
        i = i + 1;
    }
    assert(bytes@.take(i as int) =~= bytes@);
    res
}

} // verus!
