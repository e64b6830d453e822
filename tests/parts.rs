use pico_synth::audio::{frames_to_copy, pack_samples, AudioPipeline, BlockStep, Bypass};
use pico_synth::control::{gate_levels, MidiControl, MidiGate, SystemCommand, DEFAULT_FREQ_BITS, UNITY_BITS};
use pico_synth::dsp::{allpass_lengths, comb_lengths, gate_sample_open, next_random, DelayLine, NOISE_SEED};
use pico_synth::notes::NoteEvent::{Clear, Off, On, Sustain};
use pico_synth::notes::NoteStack;
use pico_synth::presets::{get_default_presets, make_name, LfoWaveform, Preset, Waveform};
use pico_synth::usb::{class_request_reply, parse_int, Control, State};

#[test]
fn make_name_pads_and_truncates() {
    let n = make_name("Bass");
    assert_eq!(&n[..4], b"Bass");
    assert!(n[4..].iter().all(|&b| b == 0));
    let long = make_name("0123456789012345678901234567890123456789");
    assert_eq!(&long[..], b"01234567890123456789012345678901");
}

#[test]
fn preset_name_stops_at_zero() {
    let presets = get_default_presets();
    assert_eq!(presets[0].get_name(), b"Lucky Man".to_vec());
    assert_eq!(presets[4].get_name(), b"Octavarium Lead".to_vec());
    assert_eq!(Preset::default().get_name(), b"Init Patch".to_vec());
}

#[test]
fn factory_presets_decode_as_documented() {
    let p = get_default_presets();
    assert_eq!(p[0].osc1.get_waveform(), Waveform::Square);
    assert!(p[0].osc1.is_vibrato_enabled());
    assert_eq!(f32::from_bits(p[0].portamento), 0.92);
    assert_eq!(f32::from_bits(p[0].filter.cutoff), 200.0);
    assert_eq!(p[1].osc3.get_waveform(), Waveform::Sine);
    assert!(!p[1].osc1.is_vibrato_enabled());
    assert_eq!(f32::from_bits(p[2].noise_level), 0.15);
    assert_eq!(f32::from_bits(p[3].osc3.octave), -4.0);
    assert_eq!(p[4].lfo.get_waveform(), LfoWaveform::Sine);
    assert_eq!(f32::from_bits(p[4].lfo.frequency), 5.5);
    assert_eq!(p[4].reverb.enabled, 1);
    let d = Preset::default();
    assert_eq!(f32::from_bits(d.filter.cutoff), 20000.0);
    assert_eq!(f32::from_bits(d.amp.attack), 0.01);
}

#[test]
fn unknown_waveform_codes_fall_back() {
    let mut o = get_default_presets()[0].osc1;
    o.waveform = 4;
    assert_eq!(o.get_waveform(), Waveform::WhiteNoise);
    o.waveform = 9;
    assert_eq!(o.get_waveform(), Waveform::Saw);
    let mut l = get_default_presets()[0].lfo;
    l.waveform = 3;
    assert_eq!(l.get_waveform(), LfoWaveform::Square);
    l.waveform = 7;
    assert_eq!(l.get_waveform(), LfoWaveform::Sine);
}

#[test]
fn note_stack_priority() {
    let mut s = NoteStack::new();
    assert_eq!(s.active_note(), None);
    s.note_on(60);
    s.note_on(64);
    s.note_on(60);
    assert_eq!(s.active_note(), Some(64));
    s.note_off(64);
    assert_eq!(s.active_note(), Some(60));
    s.set_sustain(true);
    s.note_off(60);
    assert_eq!(s.active_note(), Some(60));
    s.set_sustain(false);
    assert_eq!(s.active_note(), None);
    s.note_on(1);
    s.clear();
    assert_eq!(s.active_note(), None);
}

#[test]
fn pipeline_swaps_preset_at_block_boundary() {
    let control = MidiControl::new();
    let mut pipe = AudioPipeline::new(None);
    assert_eq!(pipe.begin_block(&control, None), BlockStep::Silence);
    let p = get_default_presets()[2];
    assert_eq!(pipe.begin_block(&control, Some(p)), BlockStep::Rebuild(p));
    assert_eq!(f32::from_bits(control.get_portamento_amount()), 0.85);
    assert_eq!(pipe.begin_block(&control, None), BlockStep::Run);
    assert_eq!(pipe.voice, Some(p));
}

#[test]
fn load_is_reported_once_a_second() {
    let mut pipe = AudioPipeline::new(Some(Preset::default()));
    let mut reports = 0;
    for _ in 0..750 {
        if pipe.end_block() {
            reports += 1;
        }
    }
    // 750 blocks of 128 frames: two seconds at 48 kHz.
    assert_eq!(reports, 2);
    assert_eq!(pipe.frame_index, 96000);
    pipe.frame_index = u64::MAX - 10;
    pipe.end_block();
    assert_eq!(pipe.frame_index, 117);
}

#[test]
fn frames_to_copy_takes_what_both_have() {
    assert_eq!(frames_to_copy(0, 0), 48);
    assert_eq!(frames_to_copy(200, 0), 28);
    assert_eq!(frames_to_copy(200, 30), 18);
    assert_eq!(frames_to_copy(256, 0), 0);
}

#[test]
fn samples_pack_little_endian() {
    assert_eq!(pack_samples(&[1, -1, 0x1234, i16::MIN]), vec![1, 0, 0xFF, 0xFF, 0x34, 0x12, 0x00, 0x80]);
    assert_eq!(pack_samples(&[]), Vec::<u8>::new());
}

#[test]
fn bypass_switches_latency() {
    let mut b = Bypass::new(7u32, true);
    assert_eq!(b.latency_samples(12), 12);
    b.set_enabled(false);
    assert_eq!(b.latency_samples(12), 0);
    assert_eq!(b.processor, 7);
}

#[test]
fn delay_line_delays_by_its_length() {
    let mut d = DelayLine::new(3, 0i32);
    assert_eq!(d.len(), 3);
    let out: Vec<i32> = (1..=6).map(|x| d.process(x)).collect();
    assert_eq!(out, vec![0, 0, 0, 1, 2, 3]);
    d.reset(0);
    assert_eq!(d.process(9), 0);
    assert_eq!(d.process(9), 0);
    assert_eq!(d.process(9), 0);
    assert_eq!(d.process(0), 9);
}

#[test]
fn reverb_tuning() {
    let (l, r) = comb_lengths(0);
    assert_eq!(l, vec![1116, 1277, 1422, 1557]);
    assert_eq!(r, vec![1616, 1777, 1922, 2057]);
    let (l, r) = allpass_lengths(3);
    assert_eq!(l, vec![559, 344]);
    assert_eq!(r, vec![1059, 844]);
}

#[test]
fn noise_generator_steps() {
    let mut s = NOISE_SEED;
    assert_eq!(next_random(&mut s), 21468);
    assert_eq!(s, 3554416254);
}

#[test]
fn gate_holds_shut_after_reset() {
    assert!(!gate_sample_open(0, true, true));
    assert!(!gate_sample_open(3, true, true));
    assert!(gate_sample_open(4, true, true));
    assert!(gate_sample_open(0, true, false));
    assert!(!gate_sample_open(9, false, false));
}

#[test]
fn gate_levels_shut_first_samples_after_reset() {
    assert_eq!(gate_levels(true, true, 6), vec![false, false, false, false, true, true]);
    assert_eq!(gate_levels(true, false, 3), vec![true, true, true]);
    assert_eq!(gate_levels(false, true, 5), vec![false; 5]);
    assert_eq!(gate_levels(true, true, 2), vec![false, false]);
    let c = std::sync::Arc::new(MidiControl::new());
    c.set_gate(false);
    c.set_gate(true);
    let g = MidiGate(c.clone());
    assert_eq!(g.levels(5), vec![false, false, false, false, true]);
    assert_eq!(g.levels(2), vec![true, true]);
}

#[test]
fn factory_presets_are_well_formed() {
    for p in get_default_presets().iter().chain(std::iter::once(&Preset::default())) {
        assert_eq!(p.padding, [0; 4]);
        let cutoff = f32::from_bits(p.filter.cutoff);
        assert!((20.0..=20000.0).contains(&cutoff));
        for w in [p.noise_level, p.portamento, p.filter.resonance, p.amp.attack, p.lfo.frequency, p.reverb.mix] {
            assert!(f32::from_bits(w).is_finite());
        }
    }
}

#[test]
fn gate_reset_is_taken_once() {
    let c = MidiControl::new();
    assert!(!c.get_gate());
    assert_eq!(c.get_target_freq(), DEFAULT_FREQ_BITS);
    c.set_gate(true);
    assert!(c.get_gate());
    assert!(!c.take_gate_reset());
    c.set_gate(false);
    assert!(c.take_gate_reset());
    assert!(!c.take_gate_reset());
}

#[test]
fn control_reset_restores_performance_defaults() {
    let c = MidiControl::new();
    c.set_pitch_bend(2.0f32.to_bits());
    c.set_mod_wheel(0.5f32.to_bits());
    c.set_parameter_1(0.25f32.to_bits());
    c.set_gate(false);
    c.set_freq(220.0f32.to_bits());
    c.set_portamento(0.9f32.to_bits());
    c.set_parameter_2(0.7f32.to_bits());
    c.reset();
    assert_eq!(c.get_pitch_bend(), UNITY_BITS);
    assert_eq!(c.get_mod_wheel(), 0);
    assert!(!c.take_gate_reset());
    assert!(!c.get_gate());
    assert_eq!(c.get_target_freq(), DEFAULT_FREQ_BITS);
    assert_eq!(f32::from_bits(c.get_parameter_1()), 0.5);
    assert_eq!(c.get_parameter_2(), 0);
    assert_eq!(c.get_portamento_amount(), 0);
    assert_eq!(SystemCommand::ResetStorage, SystemCommand::ResetStorage);
}

#[test]
fn audio_class_replies() {
    assert_eq!(class_request_reply(0x0100, 0x81), Some(vec![0]));
    assert_eq!(class_request_reply(0x0100, 0x82), None);
    assert_eq!(class_request_reply(0x0200, 0x81), Some(vec![0x00, 0x00]));
    assert_eq!(class_request_reply(0x0200, 0x82), Some(vec![0x00, 0xC0]));
    assert_eq!(class_request_reply(0x0200, 0x83), Some(vec![0x00, 0x00]));
    assert_eq!(class_request_reply(0x0201, 0x84), Some(vec![0x00, 0x01]));
    assert_eq!(class_request_reply(0x0300, 0x81), None);
    assert!(State::new().control.is_none());
    assert_eq!(Control {}.reply(0x0200, 0x82), Some(vec![0x00, 0xC0]));
    assert_eq!(Control {}.reply(0x0100, 0x83), None);
}

#[test]
fn parse_int_reads_digits() {
    assert_eq!(parse_int("2048"), 2048);
    assert_eq!(parse_int("264K"), 264);
    assert_eq!(parse_int(""), 0);
    assert_eq!(parse_int("1 0"), 10);
}

#[test]
fn delay_line_peek_shows_next_output() {
    let mut d = DelayLine::new(2, 0u8);
    d.process(5);
    assert_eq!(d.peek(), 0);
    d.process(6);
    assert_eq!(d.peek(), 5);
    assert_eq!(d.process(7), 5);
}

#[test]
fn run_over_events_gives_latest_held_note() {
    let s = NoteStack::run(&[On(60), On(64), Off(60)]);
    assert_eq!(s.active_note(), Some(64));
    let s = NoteStack::run(&[On(60), Sustain(true), Off(60)]);
    assert_eq!(s.active_note(), Some(60));
    let s = NoteStack::run(&[On(60), Sustain(true), Off(60), Sustain(false)]);
    assert_eq!(s.active_note(), None);
    let s = NoteStack::run(&[On(60), On(62), Clear, On(65), Off(65)]);
    assert_eq!(s.active_note(), None);
    let s = NoteStack::run(&[On(60), Sustain(true), Off(60), On(60), Sustain(false)]);
    assert_eq!(s.active_note(), Some(60));
    let mut t = NoteStack::run(&[]);
    t.apply(On(1));
    t.apply(On(2));
    t.apply(Clear);
    assert_eq!(t.active_note(), None);
}
