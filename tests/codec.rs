use pico_synth::bank::{
    block_header_valid, decode_preset, encode_preset, format_image, load_preset, StorageHeader,
    BLOCK_SIZE, HEADER_SIZE, MAGIC, PRESET_SIZE, VERSION,
};
use pico_synth::nibble::{decode_block, decode_nibbles, encode_block, encode_nibbles, frame_sysex};
use pico_synth::presets::{get_default_presets, Preset};
use pico_synth::sysex::{
    check_write_request, classify, dump_response, write_response, SysexAssembler, SysexRequest, WriteError,
    SYSEX_CAPACITY,
};

#[test]
fn nibble_round_trip_for_every_byte() {
    for b in 0..=255u8 {
        let (h, l) = encode_nibbles(b);
        assert!(h < 0x80 && l < 0x80);
        assert_eq!(decode_nibbles(h, l), b);
    }
}

#[test]
fn nibbles_are_high_then_low() {
    assert_eq!(encode_nibbles(0xA7), (0x0A, 0x07));
    assert_eq!(encode_nibbles(0x00), (0x00, 0x00));
    assert_eq!(decode_nibbles(0x1A, 0x37), 0xA7);
}

#[test]
fn block_round_trip() {
    let data: Vec<u8> = (0..=255u8).collect();
    let enc = encode_block(&data);
    assert_eq!(enc.len(), 512);
    assert_eq!(&enc[..4], &[0, 0, 0, 1]);
    assert!(enc.iter().all(|&b| b < 0x80));
    assert_eq!(decode_block(&enc), data);
    assert_eq!(decode_block(&[]), Vec::<u8>::new());
}

#[test]
fn framing_uses_terminal_code_for_last_group() {
    assert_eq!(frame_sysex(&[0xF0, 0x7D, 0x01, 0x03, 0xF7]), vec![0x04, 0xF0, 0x7D, 0x01, 0x06, 0x03, 0xF7, 0x00]);
    assert_eq!(frame_sysex(&[0xF0, 0x01, 0xF7]), vec![0x07, 0xF0, 0x01, 0xF7]);
    assert_eq!(frame_sysex(&[0xF0, 0x01, 0x02, 0xF7]), vec![0x04, 0xF0, 0x01, 0x02, 0x05, 0xF7, 0x00, 0x00]);
}

#[test]
fn write_replies() {
    assert_eq!(write_response(Ok(())), vec![0x04, 0xF0, 0x7D, 0x01, 0x06, 0x03, 0xF7, 0x00]);
    assert_eq!(write_response(Err(WriteError::BadLength)), vec![0x04, 0xF0, 0x7D, 0x01, 0x07, 0x04, 0x01, 0xF7]);
    assert_eq!(write_response(Err(WriteError::BadMagic)), vec![0x04, 0xF0, 0x7D, 0x01, 0x07, 0x04, 0x02, 0xF7]);
}

#[test]
fn dump_reply_carries_encoded_bank() {
    let image = format_image(&get_default_presets());
    let packets = dump_response(&image);
    // 4 framing bytes, 8192 nibbles and the end byte, three to a packet.
    assert_eq!(packets.len(), 4 * 2733);
    assert_eq!(&packets[..8], &[0x04, 0xF0, 0x7D, 0x01, 0x04, 0x02, 0x05, 0x00]);
    assert_eq!(&packets[packets.len() - 4..], &[0x05, 0xF7, 0x00, 0x00]);
    let mut msg = Vec::new();
    for p in packets.chunks(4) {
        let n = match p[0] {
            0x04 | 0x07 => 3,
            0x06 => 2,
            _ => 1,
        };
        msg.extend_from_slice(&p[1..1 + n]);
    }
    assert_eq!(classify(&msg), SysexRequest::Write);
    assert_eq!(check_write_request(&msg), Ok(image));
}

#[test]
fn classify_requests() {
    assert_eq!(classify(&[0xF0, 0x7D, 0x01, 0x01, 0xF7]), SysexRequest::Dump);
    assert_eq!(classify(&[0xF0, 0x7D, 0x01, 0x02, 0xF7]), SysexRequest::Write);
    assert_eq!(classify(&[0xF0, 0x7D, 0x01, 0x02]), SysexRequest::Other);
    assert_eq!(classify(&[0xF0, 0x7D, 0x02, 0x01, 0xF7]), SysexRequest::Other);
}

#[test]
fn check_write_errors() {
    assert_eq!(check_write_request(&[0xF0, 0x7D, 0x01, 0x02, 0x00, 0xF7]), Err(WriteError::BadLength));
    let mut msg = vec![0xF0, 0x7D, 0x01, 0x02];
    msg.extend_from_slice(&vec![0u8; 8192]);
    msg.push(0xF7);
    assert_eq!(check_write_request(&msg), Err(WriteError::BadMagic));
    assert_eq!(WriteError::BadLength.code(), 0x01);
    assert_eq!(WriteError::BadMagic.code(), 0x02);
}

#[test]
fn format_writes_header_and_factory_presets() {
    let presets = get_default_presets();
    let image = format_image(&presets);
    assert_eq!(image.len(), BLOCK_SIZE);
    let h = StorageHeader::read(&image);
    assert_eq!(h.magic, MAGIC);
    assert_eq!(h.version, VERSION);
    assert_eq!(h.num_presets, 5);
    assert_eq!(h.padding, 0);
    assert!(h.is_valid());
    assert!(block_header_valid(&image));
    assert_eq!(&image[..4], b"PSDP");
    for (i, p) in presets.iter().enumerate() {
        let loaded = load_preset(&image, i).expect("factory preset");
        assert_eq!(loaded, *p);
        let off = HEADER_SIZE + PRESET_SIZE * i;
        assert_eq!(encode_preset(p), image[off..off + PRESET_SIZE].to_vec());
    }
    assert!(image[HEADER_SIZE + 5 * PRESET_SIZE..].iter().all(|&b| b == 0));
}

#[test]
fn preset_index_past_count_is_not_found() {
    let image = format_image(&get_default_presets());
    assert_eq!(load_preset(&image, 5), None);
    assert_eq!(load_preset(&image, 127), None);
    assert_eq!(load_preset(&image[..10], 0), None);
}

#[test]
fn record_past_end_is_not_found() {
    let mut image = format_image(&get_default_presets());
    image[8] = 100;
    assert!(load_preset(&image, 19).is_some());
    assert_eq!(load_preset(&image, 20), None);
    assert_eq!(load_preset(&image[..HEADER_SIZE + PRESET_SIZE], 1), None);
}

#[test]
fn preset_record_round_trip() {
    let p = Preset::default();
    let bytes = encode_preset(&p);
    assert_eq!(bytes.len(), 200);
    assert_eq!(&bytes[..10], b"Init Patch");
    // First parameter word: oscillator one's shape code, a saw.
    assert_eq!(&bytes[32..36], &[2, 0, 0, 0]);
    // Its level: one, as a single-precision bit pattern.
    assert_eq!(&bytes[36..40], &1.0f32.to_le_bytes());
    assert_eq!(decode_preset(&bytes, 0), p);
}

#[test]
fn invalid_header_is_detected() {
    let blank = vec![0xFFu8; BLOCK_SIZE];
    assert!(!StorageHeader::read(&blank).is_valid());
    assert!(!block_header_valid(&blank));
    assert!(!block_header_valid(&[0x50, 0x53]));
}

#[test]
fn assembler_collects_and_ends_messages() {
    let mut a = SysexAssembler::new();
    assert!(!a.end_message(1, 0xF7, 0, 0));
    a.continue_message(0xF0, 0x7D, 0x01);
    assert!(a.end_message(2, 0x01, 0xF7, 0x55));
    assert_eq!(a.message(), &[0xF0, 0x7D, 0x01, 0x01, 0xF7]);
    a.continue_message(0xF0, 0x01, 0x02);
    assert_eq!(a.message(), &[0xF0, 0x01, 0x02]);
}

#[test]
fn assembler_stops_collecting_when_full() {
    let mut a = SysexAssembler::new();
    for _ in 0..3000 {
        a.continue_message(1, 2, 3);
    }
    assert_eq!(a.message().len(), 8223);
    assert!(a.overflowed());
    assert!(a.end_message(1, 0xF7, 0, 0));
    assert_eq!(a.message().len(), SYSEX_CAPACITY);
    a.continue_message(0xF0, 0, 0);
    assert!(!a.overflowed());
    for _ in 0..2740 {
        a.continue_message(1, 2, 3);
    }
    assert_eq!(a.message().len(), 8223);
    assert!(!a.overflowed());
    assert!(a.end_message(3, 1, 2, 0xF7));
    assert_eq!(a.message().len(), 8223);
    assert!(a.overflowed());
    assert!(!a.end_message(1, 0xF7, 0, 0));
}
