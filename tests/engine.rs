use pico_synth::bank::{format_image, BLOCK_SIZE, MAGIC, VERSION};
use pico_synth::midi::{MidiAction, MidiEngine};
use pico_synth::nibble::encode_block;
use pico_synth::presets::get_default_presets;
use pico_synth::sysex::WriteError;

fn note_on(e: &mut MidiEngine, n: u8) -> MidiAction {
    e.handle_packet(&[0x09, 0x90, n, 100])
}

fn note_off(e: &mut MidiEngine, n: u8) -> MidiAction {
    e.handle_packet(&[0x08, 0x80, n, 0])
}

fn sustain(e: &mut MidiEngine, on: bool) -> MidiAction {
    e.handle_packet(&[0x0B, 0xB0, 64, if on { 127 } else { 0 }])
}

/// Sends a whole SysEx message as USB-MIDI packets.
fn send_sysex(e: &mut MidiEngine, msg: &[u8]) -> MidiAction {
    let mut last = MidiAction::Nothing;
    let mut i = 0;
    while i < msg.len() {
        let rest = msg.len() - i;
        if rest > 3 {
            last = e.handle_packet(&[0x04, msg[i], msg[i + 1], msg[i + 2]]);
            i += 3;
        } else {
            let mut p = [0x04 + rest as u8, 0, 0, 0];
            p[1..1 + rest].copy_from_slice(&msg[i..]);
            last = e.handle_packet(&p);
            i = msg.len();
        }
    }
    last
}

fn write_request(block: &[u8]) -> Vec<u8> {
    let mut msg = vec![0xF0, 0x7D, 0x01, 0x02];
    msg.extend_from_slice(&encode_block(block));
    msg.push(0xF7);
    msg
}

#[test]
fn second_note_keeps_sounding_after_first_released() {
    let mut e = MidiEngine::new();
    assert!(matches!(note_on(&mut e, 60), MidiAction::NoteSounding(60)));
    assert!(matches!(note_on(&mut e, 64), MidiAction::NoteSounding(64)));
    assert!(matches!(note_off(&mut e, 60), MidiAction::NoteSounding(64)));
    assert_eq!(e.active_note(), Some(64));
}

#[test]
fn sustained_note_sounds_until_pedal_released() {
    let mut e = MidiEngine::new();
    assert!(matches!(note_on(&mut e, 60), MidiAction::NoteSounding(60)));
    assert!(matches!(sustain(&mut e, true), MidiAction::Nothing));
    assert!(matches!(note_off(&mut e, 60), MidiAction::NoteSounding(60)));
    assert_eq!(e.active_note(), Some(60));
    assert!(matches!(sustain(&mut e, false), MidiAction::Release));
    assert_eq!(e.active_note(), None);
}

#[test]
fn releasing_last_note_closes_gate() {
    let mut e = MidiEngine::new();
    note_on(&mut e, 48);
    assert!(matches!(note_off(&mut e, 48), MidiAction::Release));
}

#[test]
fn velocity_zero_note_on_is_note_off() {
    let mut e = MidiEngine::new();
    note_on(&mut e, 50);
    note_on(&mut e, 52);
    assert!(matches!(e.handle_packet(&[0x09, 0x90, 52, 0]), MidiAction::NoteSounding(50)));
}

#[test]
fn active_note_is_latest_held_over_mixed_events() {
    let mut e = MidiEngine::new();
    note_on(&mut e, 60);
    note_on(&mut e, 62);
    sustain(&mut e, true);
    note_on(&mut e, 64);
    note_off(&mut e, 64);
    note_off(&mut e, 62);
    assert_eq!(e.active_note(), Some(64));
    note_on(&mut e, 67);
    assert_eq!(e.active_note(), Some(67));
    assert!(matches!(sustain(&mut e, false), MidiAction::NoteSounding(67)));
    note_off(&mut e, 67);
    assert_eq!(e.active_note(), Some(60));
    note_off(&mut e, 70);
    assert_eq!(e.active_note(), Some(60));
}

#[test]
fn re_pressing_a_sustained_note_cancels_its_release() {
    let mut e = MidiEngine::new();
    note_on(&mut e, 60);
    sustain(&mut e, true);
    note_off(&mut e, 60);
    note_on(&mut e, 60);
    assert!(matches!(sustain(&mut e, false), MidiAction::NoteSounding(60)));
}

#[test]
fn overflowing_note_is_dropped() {
    let mut e = MidiEngine::new();
    for n in 0..16u8 {
        note_on(&mut e, 40 + n);
    }
    assert!(matches!(note_on(&mut e, 90), MidiAction::NoteSounding(90)));
    assert_eq!(e.active_note(), Some(55));
}

#[test]
fn all_notes_off_clears_everything() {
    let mut e = MidiEngine::new();
    note_on(&mut e, 60);
    sustain(&mut e, true);
    assert!(matches!(e.handle_packet(&[0x0B, 0xB0, 123, 0]), MidiAction::AllNotesOff));
    assert_eq!(e.active_note(), None);
    note_on(&mut e, 61);
    assert!(matches!(note_off(&mut e, 61), MidiAction::Release));
    assert!(matches!(e.handle_packet(&[0x0B, 0xB0, 120, 0]), MidiAction::AllNotesOff));
}

#[test]
fn control_changes_map_to_parameters() {
    let mut e = MidiEngine::new();
    assert!(matches!(e.handle_packet(&[0x0B, 0xB0, 1, 33]), MidiAction::ModWheel(33)));
    assert!(matches!(e.handle_packet(&[0x0B, 0xB0, 5, 90]), MidiAction::Portamento(90)));
    assert!(matches!(e.handle_packet(&[0x0B, 0xB0, 71, 12]), MidiAction::FilterResonance(12)));
    assert!(matches!(e.handle_packet(&[0x0B, 0xB0, 74, 127]), MidiAction::FilterCutoff(127)));
    assert!(matches!(e.handle_packet(&[0x0B, 0xB0, 7, 127]), MidiAction::Nothing));
}

#[test]
fn sustain_threshold_is_midpoint() {
    let mut e = MidiEngine::new();
    note_on(&mut e, 60);
    assert!(matches!(e.handle_packet(&[0x0B, 0xB0, 64, 64]), MidiAction::Nothing));
    note_off(&mut e, 60);
    assert_eq!(e.active_note(), Some(60));
    assert!(matches!(e.handle_packet(&[0x0B, 0xB0, 64, 63]), MidiAction::Release));
}

#[test]
fn pitch_bend_is_fourteen_bits() {
    let mut e = MidiEngine::new();
    assert!(matches!(e.handle_packet(&[0x0E, 0xE0, 0x00, 0x40]), MidiAction::PitchBend(8192)));
    assert!(matches!(e.handle_packet(&[0x0E, 0xE3, 0x7F, 0x7F]), MidiAction::PitchBend(16383)));
    assert!(matches!(e.handle_packet(&[0x0E, 0xE0, 0x01, 0x00]), MidiAction::PitchBend(1)));
}

#[test]
fn program_change_selects_index() {
    let mut e = MidiEngine::new();
    assert_eq!(e.current_preset_index(), 4);
    assert!(matches!(e.handle_packet(&[0x0C, 0xC0, 2, 0]), MidiAction::ProgramChange(2)));
    assert_eq!(e.current_preset_index(), 4);
    e.preset_loaded(2);
    assert_eq!(e.current_preset_index(), 2);
}

#[test]
fn missing_preset_keeps_current_index() {
    let mut e = MidiEngine::new();
    assert!(matches!(e.handle_packet(&[0x0C, 0xC0, 9, 0]), MidiAction::ProgramChange(9)));
    let presets = get_default_presets();
    let image = format_image(&presets);
    assert_eq!(pico_synth::bank::load_preset(&image, 9), None);
    assert!(matches!(send_sysex(&mut e, &write_request(&image)), MidiAction::WriteBlock(_)));
    assert_eq!(e.current_preset_index(), 4);
}

#[test]
fn overlong_write_request_is_rejected_for_length() {
    let mut e = MidiEngine::new();
    let mut msg = vec![0xF0, 0x7D, 0x01, 0x02];
    msg.extend_from_slice(&vec![0u8; 9000]);
    msg.push(0xF7);
    let action = send_sysex(&mut e, &msg);
    assert!(matches!(action, MidiAction::WriteRejected(WriteError::BadLength)));
    assert!(matches!(send_sysex(&mut e, &[0xF0, 0x7D, 0x01, 0x01, 0xF7]), MidiAction::DumpRequest));
}

#[test]
fn overlong_foreign_message_is_ignored() {
    let mut e = MidiEngine::new();
    let mut msg = vec![0xF0, 0x7E, 0x01, 0x02];
    msg.extend_from_slice(&vec![0u8; 9000]);
    msg.push(0xF7);
    assert!(matches!(send_sysex(&mut e, &msg), MidiAction::Nothing));
}

#[test]
fn short_packets_are_ignored() {
    let mut e = MidiEngine::new();
    assert!(matches!(e.handle_packet(&[0x09, 0x90, 60]), MidiAction::Nothing));
    assert_eq!(e.active_note(), None);
}

#[test]
fn dump_request_is_recognised() {
    let mut e = MidiEngine::new();
    assert!(matches!(send_sysex(&mut e, &[0xF0, 0x7D, 0x01, 0x01, 0xF7]), MidiAction::DumpRequest));
}

#[test]
fn foreign_sysex_is_ignored() {
    let mut e = MidiEngine::new();
    assert!(matches!(send_sysex(&mut e, &[0xF0, 0x7E, 0x01, 0x01, 0xF7]), MidiAction::Nothing));
    assert!(matches!(send_sysex(&mut e, &[0xF0, 0x7D, 0x01, 0x09, 0xF7]), MidiAction::Nothing));
}

#[test]
fn sysex_end_without_start_is_ignored() {
    let mut e = MidiEngine::new();
    assert!(matches!(e.handle_packet(&[0x07, 0xF0, 0x7D, 0xF7]), MidiAction::Nothing));
}

#[test]
fn write_request_with_wrong_length_is_rejected() {
    let mut e = MidiEngine::new();
    let image = format_image(&get_default_presets());
    let mut msg = write_request(&image[..BLOCK_SIZE - 1]);
    let action = send_sysex(&mut e, &msg);
    assert!(matches!(action, MidiAction::WriteRejected(WriteError::BadLength)));
    msg = vec![0xF0, 0x7D, 0x01, 0x02, 0xF7];
    assert!(matches!(send_sysex(&mut e, &msg), MidiAction::WriteRejected(WriteError::BadLength)));
}

#[test]
fn write_request_with_wrong_magic_is_rejected() {
    let mut e = MidiEngine::new();
    let mut image = format_image(&get_default_presets());
    image[0] ^= 0x01;
    let action = send_sysex(&mut e, &write_request(&image));
    assert!(matches!(action, MidiAction::WriteRejected(WriteError::BadMagic)));
    let mut image = format_image(&get_default_presets());
    image[4] = 8;
    let action = send_sysex(&mut e, &write_request(&image));
    assert!(matches!(action, MidiAction::WriteRejected(WriteError::BadMagic)));
}

#[test]
fn valid_write_request_yields_block() {
    let mut e = MidiEngine::new();
    let image = format_image(&get_default_presets());
    assert_eq!(u32::from_le_bytes([image[0], image[1], image[2], image[3]]), MAGIC);
    assert_eq!(u32::from_le_bytes([image[4], image[5], image[6], image[7]]), VERSION);
    match send_sysex(&mut e, &write_request(&image)) {
        MidiAction::WriteBlock(b) => assert_eq!(b, image),
        other => panic!("unexpected {:?}", other),
    }
}

#[test]
fn channel_messages_work_between_sysex_messages() {
    let mut e = MidiEngine::new();
    send_sysex(&mut e, &[0xF0, 0x7D, 0x01, 0x01, 0xF7]);
    assert!(matches!(note_on(&mut e, 72), MidiAction::NoteSounding(72)));
    assert!(matches!(send_sysex(&mut e, &[0xF0, 0x7D, 0x01, 0x01, 0xF7]), MidiAction::DumpRequest));
}
