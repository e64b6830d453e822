//! The MIDI protocol engine: each USB-MIDI packet updates the note stack or the
//! SysEx assembler and yields the one action that the device must carry out.
use vstd::prelude::*;
use crate::notes::{
    model_active, model_empty, model_note_off, model_note_on, model_sustain, NoteModel, NoteStack,
};
use crate::bank::{header_valid, BLOCK_SIZE};
use crate::nibble::{decoded, encoded, lemma_block_round_trip};
use crate::sysex::{
    check_write_request, classify, dump_message, is_write_head, model_continue, model_end, payload_of,
    request_of, write_head, write_outcome, AssemblerModel, SysexAssembler, SysexRequest, WriteError, WRITE_PAYLOAD_LEN,
};

verus! {

pub const NOTE_OFF: u8 = 0x80;
pub const NOTE_ON: u8 = 0x90;
pub const CONTROL_CHANGE: u8 = 0xB0;
pub const PROGRAM_CHANGE: u8 = 0xC0;
pub const PITCH_BEND: u8 = 0xE0;

pub const CC_MOD_WHEEL: u8 = 1;
pub const CC_PORTAMENTO_TIME: u8 = 5;
pub const CC_SUSTAIN: u8 = 64;
pub const CC_FILTER_RESONANCE: u8 = 71;
pub const CC_FILTER_CUTOFF: u8 = 74;
pub const CC_ALL_SOUND_OFF: u8 = 120;
pub const CC_ALL_NOTES_OFF: u8 = 123;

/// Controller values from this one up hold the sustain pedal down.
pub const SUSTAIN_THRESHOLD: u8 = 64;
/// The preset selected at start-up.
pub const INITIAL_PRESET_INDEX: usize = 4;

/// What the device must do after a packet.
#[derive(Debug)]
pub enum MidiAction {
    /// Nothing to do.
    Nothing,
    /// Sound this note: set its pitch and hold its gate open.
    NoteSounding(u8),
    /// No note is held any more: release, closing its gate.
    Release,
    /// New modulation wheel position, 0 to 127.
    ModWheel(u8),
    /// New glide amount, 0 to 127.
    Portamento(u8),
    /// New filter resonance, 0 to 127.
    FilterResonance(u8),
    /// New filter cutoff, 0 to 127.
    FilterCutoff(u8),
    /// All notes and sound off: reset the control parameters.
    AllNotesOff,
    /// Select the preset with this index.
    ProgramChange(u8),
    /// New 14-bit pitch-bend position; 8192 is the centre.
    PitchBend(u16),
    /// Send the stored bank back.
    DumpRequest,
    /// Store this bank, reply with success and reload the current preset.
    WriteBlock(Vec<u8>),
    /// Leave storage alone and reply with this error.
    WriteRejected(WriteError),
}

/// Abstract value of a [`MidiAction`].
pub enum ActionModel {
    Nothing,
    NoteSounding(u8),
    Release,
    ModWheel(u8),
    Portamento(u8),
    FilterResonance(u8),
    FilterCutoff(u8),
    AllNotesOff,
    ProgramChange(u8),
    PitchBend(u16),
    DumpRequest,
    WriteBlock(Seq<u8>),
    WriteRejected(WriteError),
}

impl View for MidiAction {
    type V = ActionModel;

    open spec fn view(&self) -> ActionModel {
        match self {
            MidiAction::Nothing => ActionModel::Nothing,
            MidiAction::NoteSounding(n) => ActionModel::NoteSounding(*n),
            MidiAction::Release => ActionModel::Release,
            MidiAction::ModWheel(v) => ActionModel::ModWheel(*v),
            MidiAction::Portamento(v) => ActionModel::Portamento(*v),
            MidiAction::FilterResonance(v) => ActionModel::FilterResonance(*v),
            MidiAction::FilterCutoff(v) => ActionModel::FilterCutoff(*v),
            MidiAction::AllNotesOff => ActionModel::AllNotesOff,
            MidiAction::ProgramChange(p) => ActionModel::ProgramChange(*p),
            MidiAction::PitchBend(b) => ActionModel::PitchBend(*b),
            MidiAction::DumpRequest => ActionModel::DumpRequest,
            MidiAction::WriteBlock(b) => ActionModel::WriteBlock(b@),
            MidiAction::WriteRejected(e) => ActionModel::WriteRejected(*e),
        }
    }
}

/// Abstract state of a [`MidiEngine`].
pub struct EngineModel {
    pub notes: NoteModel,
    pub sysex: AssemblerModel,
    pub current_preset: usize,
}

/// The note that now sounds, or a release when none is held.
pub open spec fn sounding(m: NoteModel) -> ActionModel {
    match model_active(m) {
        Some(n) => ActionModel::NoteSounding(n),
        None => ActionModel::Release,
    }
}

/// The 14-bit pitch-bend position of the data bytes `lsb` and `msb`.
pub open spec fn bend_value(lsb: u8, msb: u8) -> u16 {
    ((msb as u16) << 7u16) | (lsb as u16)
}

/// A control change on the note state.
pub open spec fn control_step(m: NoteModel, num: u8, val: u8) -> (NoteModel, ActionModel) {
    if num == CC_MOD_WHEEL {
        (m, ActionModel::ModWheel(val))
    } else if num == CC_PORTAMENTO_TIME {
        (m, ActionModel::Portamento(val))
    } else if num == CC_SUSTAIN {
        let on = val >= SUSTAIN_THRESHOLD;
        let m2 = model_sustain(m, on);
        (m2, if on { ActionModel::Nothing } else { sounding(m2) })
    } else if num == CC_FILTER_RESONANCE {
        (m, ActionModel::FilterResonance(val))
    } else if num == CC_FILTER_CUTOFF {
        (m, ActionModel::FilterCutoff(val))
    } else if num == CC_ALL_SOUND_OFF || num == CC_ALL_NOTES_OFF {
        (model_empty(), ActionModel::AllNotesOff)
    } else {
        (m, ActionModel::Nothing)
    }
}

/// A channel message on the note state; a note-on of velocity zero is a note-off.
pub open spec fn channel_step(m: NoteModel, status: u8, d1: u8, d2: u8) -> (NoteModel, ActionModel) {
    let kind = status & 0xF0u8;
    if kind == NOTE_ON && d2 > 0 {
        (model_note_on(m, d1), ActionModel::NoteSounding(d1))
    } else if kind == NOTE_OFF || kind == NOTE_ON {
        let m2 = model_note_off(m, d1);
        (m2, sounding(m2))
    } else if kind == CONTROL_CHANGE {
        control_step(m, d1, d2)
    } else if kind == PROGRAM_CHANGE {
        (m, ActionModel::ProgramChange(d1))
    } else if kind == PITCH_BEND {
        (m, ActionModel::PitchBend(bend_value(d1, d2)))
    } else {
        (m, ActionModel::Nothing)
    }
}

/// What a closed SysEx message asks the device to do. A message that
/// overflowed the buffer is incomplete: a write request is refused for its
/// length, anything else is ignored.
pub open spec fn closed_action(msg: Seq<u8>, overflowed: bool) -> ActionModel {
    if overflowed {
        if write_head(msg) {
            ActionModel::WriteRejected(WriteError::BadLength)
        } else {
            ActionModel::Nothing
        }
    } else {
        message_action(msg)
    }
}

/// What a complete SysEx message asks the device to do.
pub open spec fn message_action(msg: Seq<u8>) -> ActionModel {
    match request_of(msg) {
        SysexRequest::Dump => ActionModel::DumpRequest,
        SysexRequest::Write => match write_outcome(msg) {
            Ok(b) => ActionModel::WriteBlock(b),
            Err(e) => ActionModel::WriteRejected(e),
        },
        SysexRequest::Other => ActionModel::Nothing,
    }
}

/// The engine's next state and action for one packet.
pub open spec fn packet_step(m: EngineModel, p: Seq<u8>) -> (EngineModel, ActionModel) {
    if p.len() < 4 {
        (m, ActionModel::Nothing)
    } else {
        let cin = p[0] & 0x0Fu8;
        if cin == 4 {
            (
                EngineModel { sysex: model_continue(m.sysex, p.subrange(1, 4)), ..m },
                ActionModel::Nothing,
            )
        } else if 5 <= cin <= 7 {
            let len = cin - 4;
            if m.sysex.in_sysex {
                let s = model_end(m.sysex, p.subrange(1, 1 + len));
                (EngineModel { sysex: s, ..m }, closed_action(s.data, s.overflowed))
            } else {
                (m, ActionModel::Nothing)
            }
        } else {
            let (notes, action) = channel_step(m.notes, p[1], p[2], p[3]);
            (EngineModel { notes, ..m }, action)
        }
    }
}

/// The protocol engine's state: held notes, the SysEx message being
/// collected, and the index of the preset that plays.
pub struct MidiEngine {
    notes: NoteStack,
    sysex: SysexAssembler,
    current_preset_index: usize,
}

impl View for MidiEngine {
    type V = EngineModel;

    closed spec fn view(&self) -> EngineModel {
        EngineModel { notes: self.notes@, sysex: self.sysex@, current_preset: self.current_preset_index }
    }
}

impl MidiEngine {
    /// Nothing held, no message open, the start-up preset selected.
    pub fn new() -> (r: Self)
        ensures
            r@.notes == model_empty(),
            r@.sysex.data == Seq::<u8>::empty(),
            !r@.sysex.in_sysex,
            !r@.sysex.overflowed,
            r@.current_preset == INITIAL_PRESET_INDEX,
    {
        MidiEngine {
            notes: NoteStack::new(),
            sysex: SysexAssembler::new(),
            current_preset_index: INITIAL_PRESET_INDEX,
        }
    }

    /// Records that preset `index` was found and now plays: a later write of
    /// the bank reloads it. A program change to a preset that is not found
    /// changes nothing, so it must not be recorded.
    pub fn preset_loaded(&mut self, index: usize)
        ensures
            final(self)@ == (EngineModel { current_preset: index, ..old(self)@ }),
    {
        self.current_preset_index = index;
    }

    /// Index of the preset that plays.
    pub fn current_preset_index(&self) -> (r: usize)
        ensures
            r == self@.current_preset,
    {
        self.current_preset_index
    }

    /// The note that sounds now, if any.
    pub fn active_note(&self) -> (r: Option<u8>)
        ensures
            r == model_active(self@.notes),
    {
        self.notes.active_note()
    }

    fn sounding_action(&self) -> (r: MidiAction)
        ensures
            r@ == sounding(self@.notes),
    {
        match self.notes.active_note() {
            Some(n) => MidiAction::NoteSounding(n),
            None => MidiAction::Release,
        }
    }

    fn control_change(&mut self, num: u8, val: u8) -> (r: MidiAction)
        ensures
            (final(self)@.notes, r@) == control_step(old(self)@.notes, num, val),
            final(self)@.sysex == old(self)@.sysex,
            final(self)@.current_preset == old(self)@.current_preset,
    {
        if num == CC_MOD_WHEEL {
            MidiAction::ModWheel(val)
        } else if num == CC_PORTAMENTO_TIME {
            MidiAction::Portamento(val)
        } else if num == CC_SUSTAIN {
            let on = val >= SUSTAIN_THRESHOLD;
            self.notes.set_sustain(on);
            if on {
                MidiAction::Nothing
            } else {
                self.sounding_action()
            }
        } else if num == CC_FILTER_RESONANCE {
            MidiAction::FilterResonance(val)
        } else if num == CC_FILTER_CUTOFF {
            MidiAction::FilterCutoff(val)
        } else if num == CC_ALL_SOUND_OFF || num == CC_ALL_NOTES_OFF {
            self.notes.clear();
            MidiAction::AllNotesOff
        } else {
            MidiAction::Nothing
        }
    }

    fn channel_message(&mut self, status: u8, d1: u8, d2: u8) -> (r: MidiAction)
        ensures
            (final(self)@.notes, r@) == channel_step(old(self)@.notes, status, d1, d2),
            final(self)@.sysex == old(self)@.sysex,
            final(self)@.current_preset == old(self)@.current_preset,
    {
        let kind = status & 0xF0;
        if kind == NOTE_ON && d2 > 0 {
            self.notes.note_on(d1);
            MidiAction::NoteSounding(d1)
        } else if kind == NOTE_OFF || kind == NOTE_ON {
            self.notes.note_off(d1);
            self.sounding_action()
        } else if kind == CONTROL_CHANGE {
            self.control_change(d1, d2)
        } else if kind == PROGRAM_CHANGE {
            MidiAction::ProgramChange(d1)
        } else if kind == PITCH_BEND {
            MidiAction::PitchBend(((d2 as u16) << 7) | (d1 as u16))
        } else {
            MidiAction::Nothing
        }
    }

    /// The action that the message just closed asks for.
    fn message_action(&self) -> (r: MidiAction)
        ensures
            r@ == closed_action(self@.sysex.data, self@.sysex.overflowed),
    {
        let msg = self.sysex.message();
        if self.sysex.overflowed() {
            return if is_write_head(msg) {
                MidiAction::WriteRejected(WriteError::BadLength)
            } else {
                MidiAction::Nothing
            };
        }
        match classify(msg) {
            SysexRequest::Dump => MidiAction::DumpRequest,
            SysexRequest::Write => match check_write_request(msg) {
                Ok(b) => MidiAction::WriteBlock(b),
                Err(e) => MidiAction::WriteRejected(e),
            },
            SysexRequest::Other => MidiAction::Nothing,
        }
    }

    /// Handles one USB-MIDI packet: code index number, status, two data bytes.
    /// Shorter packets are ignored. Packets with code index numbers 0x4 to 0x7
    /// carry SysEx; any other packet is read as a channel message.
    pub fn handle_packet(&mut self, packet: &[u8]) -> (r: MidiAction)
        ensures
            (final(self)@, r@) == packet_step(old(self)@, packet@),
    {
        if packet.len() < 4 {
            return MidiAction::Nothing;
        }
        let cin = packet[0] & 0x0F;
        proof {
            assert(packet@.subrange(1, 4) =~= seq![packet@[1], packet@[2], packet@[3]]);
        }
        if cin == 4 {
            self.sysex.continue_message(packet[1], packet[2], packet[3]);
            MidiAction::Nothing
        } else if 5 <= cin && cin <= 7 {
            let len = (cin - 4) as usize;
            proof {
                assert(packet@.subrange(1, 1 + len) =~= seq![packet@[1], packet@[2], packet@[3]].take(
                    len as int,
                ));
            }
            if self.sysex.end_message(len, packet[1], packet[2], packet[3]) {
                self.message_action()
            } else {
                MidiAction::Nothing
            }
        } else {
            self.channel_message(packet[1], packet[2], packet[3])
        }
    }
}

/// Only a validated write is ever stored: a closed message yields a bank to
/// store only when nothing of it was dropped and it is a write request whose
/// payload decodes to exactly one bank with the expected tag and version, and
/// the bank is that decoding.
pub proof fn lemma_only_valid_writes_stored(msg: Seq<u8>, overflowed: bool)
    ensures
        closed_action(msg, overflowed) matches ActionModel::WriteBlock(b) ==> {
            &&& !overflowed
            &&& request_of(msg) == SysexRequest::Write
            &&& payload_of(msg).len() == WRITE_PAYLOAD_LEN
            &&& b == decoded(payload_of(msg))
            &&& b.len() == BLOCK_SIZE
            &&& header_valid(b)
        },
{
}

/// The reply to a dump request, sent back unchanged, is a write request that
/// restores the same bank.
pub proof fn lemma_dump_restores(raw: Seq<u8>)
    requires
        raw.len() == BLOCK_SIZE,
        header_valid(raw),
    ensures
        closed_action(dump_message(raw), false) == ActionModel::WriteBlock(raw),
{
    let msg = dump_message(raw);
    lemma_block_round_trip(raw);
    assert(payload_of(msg) =~= encoded(raw));
}

} // verus!
