use hpsdr::alex::{alex0_word, alex1_word, antenna_connector, rx_filter, AntennaState, RxFilter};
use hpsdr::alex::{ALEX_PS_BIT, ALEX_TR_RELAY, ANTENNA_EXT1, ANTENNA_EXT2, ANTENNA_XVTR};
use hpsdr::boards::{is_hermes_lite, ps_feedback_config, Boards};
use hpsdr::bytes::{be32_bytes, i16_bits, i16_of, pack_24, sign_extend_24};
use hpsdr::cw_keyer::{CwKeyerAtomics, CwKeyerValues, CW_KEYER_MODE_IAMBIC_A};
use hpsdr::p1_sender::{restart_burst, wants_audio, wire_receiver_count, P1Link, P1Live, P1Sender};
use hpsdr::p1_start::{metis_command, p1_preconfig_packets, P1Preconfig, METIS_START};
use hpsdr::pacing::SendSchedule;
use hpsdr::protocol1::{
    advance_rotation, build_usb_frame, fill_tx_payload, general_control_bytes,
    hl2_drive_level_and_scale, p1_build_packet, register_bytes, sample_rate_code, tx_samples_due,
    P1Control, P1Rotation, TxIqPacer, PACKET_SLOTS,
};
use std::sync::atomic::Ordering;

fn keyer() -> CwKeyerValues {
    CwKeyerValues {
        mode: 2,
        speed_wpm: 25,
        weight: 60,
        sidetone_volume: 200,
        sidetone_freq_hz: 700,
        hang_time_ms: 515,
    }
}

fn control() -> P1Control {
    P1Control {
        receivers: 2,
        frequency_hz: 7_100_000,
        tx_frequency_hz: 7_200_000,
        rx_antenna: 1,
        tx_antenna: 0,
        is_orion2: false,
        new_pa_board: false,
        drive_level: 200,
        sample_rate_hz: 192_000,
        mox: false,
        is_hermes_lite: false,
        hl2_ak4951_codec: false,
        disable_pa: false,
        tune_active: false,
        cw_keyer: keyer(),
        cw_mode_active: true,
        oc_rx: 0x05,
        oc_tx: 0x7F,
        rx_attenuation: 12,
        ps_tx_attenuation: 20,
        num_adcs: 2,
        adc: 0,
        extra_frequencies_hz: vec![14_200_000],
        extra_adcs: vec![1],
        diversity_enabled: false,
        puresignal_enabled: false,
        send_rx_audio: false,
        mic_ptt_enabled: true,
        mic_bias_enabled: true,
        mic_ptt_on_tip: false,
    }
}

fn at(command: u8, rx: u8) -> P1Rotation {
    P1Rotation { ozy_command: command, current_receiver: rx }
}

#[test]
fn rates_have_two_bit_codes() {
    assert_eq!(sample_rate_code(48_000), 0);
    assert_eq!(sample_rate_code(96_000), 1);
    assert_eq!(sample_rate_code(192_000), 2);
    assert_eq!(sample_rate_code(384_000), 3);
    assert_eq!(sample_rate_code(44_100), 0);
}

#[test]
fn general_control_carries_rate_outputs_antenna_and_receivers() {
    let mut s = control();
    assert_eq!(general_control_bytes(&s), [0, 2, 0x0A, 0, 0x04 | 1 | 8]);
    s.mox = true;
    s.diversity_enabled = true;
    assert_eq!(general_control_bytes(&s), [1, 2, 0xFE, 0, 0x04 | 8 | 0x80]);
    s.mox = false;
    s.rx_antenna = ANTENNA_EXT2;
    assert_eq!(general_control_bytes(&s)[3], 0x20 | 0x80);
    s.rx_antenna = ANTENNA_XVTR;
    s.new_pa_board = true;
    assert_eq!(general_control_bytes(&s)[3], 0x60);
    assert_eq!(general_control_bytes(&s)[4], 0x04 | 3 | 8 | 0x80);
}

#[test]
fn registers_have_their_wire_form() {
    let mut s = control();
    assert_eq!(register_bytes(at(1, 0), &s), [0x02, 0x00, 0x6D, 0xDD, 0x00]);
    assert_eq!(register_bytes(at(2, 0), &s), [0x04, 0x00, 0x6C, 0x56, 0x60]);
    assert_eq!(register_bytes(at(2, 1), &s), [0x06, 0x00, 0xD8, 0xAC, 0xC0]);
    assert_eq!(register_bytes(at(3, 0), &s), [0x12, 0, 0, 0, 0]);
    assert_eq!(register_bytes(at(4, 0), &s), [0x14, 0x20, 0, 0, 0x2C]);
    assert_eq!(register_bytes(at(5, 0), &s), [0x16, 0x20, 0, 25 + 128, 60]);
    assert_eq!(register_bytes(at(6, 0), &s), [0x1C, 4, 0, 20, 0]);
    assert_eq!(register_bytes(at(7, 0), &s), [0x1E, 1, 127, 30, 0]);
    assert_eq!(register_bytes(at(8, 0), &s), [0x20, 128, 3, 43, 12]);
    assert_eq!(register_bytes(at(9, 0), &s), [0x22, 0x19, 0, 0xC8, 0]);
    assert_eq!(register_bytes(at(10, 0), &s), [0x24, 0x01, 0, 0, 0]);
    assert_eq!(register_bytes(at(11, 0), &s), [0x2E, 0, 0, 0x04, 0x15]);
    s.mox = true;
    assert_eq!(register_bytes(at(3, 0), &s)[1], 200);
    assert_eq!(register_bytes(at(5, 0), &s)[1], 0x3F);
    s.is_hermes_lite = true;
    s.tune_active = true;
    assert_eq!(register_bytes(at(3, 0), &s), [0x12, 176, 0x18, 0, 0]);
    assert_eq!(register_bytes(at(4, 0), &s)[4], 0x4C);
    assert_eq!(register_bytes(at(7, 0), &s)[1], 0);
}

#[test]
fn drive_levels_split_into_steps() {
    assert_eq!(hl2_drive_level_and_scale(255), (240, 39_215));
    assert_eq!(hl2_drive_level_and_scale(241), (240, 39_215));
    assert_eq!(hl2_drive_level_and_scale(240), (224, 41_539));
    assert_eq!(hl2_drive_level_and_scale(128), (64, 73_868));
    assert_eq!(hl2_drive_level_and_scale(127), (48, 78_245));
    assert_eq!(hl2_drive_level_and_scale(107), (0, 92_995));
    assert_eq!(hl2_drive_level_and_scale(0), (0, 92_995));
}

#[test]
fn the_rotation_repeats_the_frequency_register() {
    let mut rot = at(1, 0);
    let mut seen = Vec::new();
    for _ in 0..13 {
        rot = advance_rotation(rot, 3);
        seen.push((rot.ozy_command, rot.current_receiver));
    }
    assert_eq!(&seen[..4], &[(2, 0), (2, 1), (2, 2), (3, 0)]);
    assert_eq!(seen[11], (11, 0));
    assert_eq!(seen[12], (1, 0));
}

#[test]
fn frames_begin_with_the_sync_pattern() {
    let f = build_usb_frame(1, 2, 3, 4, 5);
    assert_eq!(&f[..8], &[0x7F, 0x7F, 0x7F, 1, 2, 3, 4, 5]);
    assert!(f[8..].iter().all(|&b| b == 0));
}

#[test]
fn a_keyed_packet_carries_samples_and_an_unkeyed_one_does_not() {
    let mut s = control();
    let samples: Vec<i16> = (1..=252).collect();
    let audio = [0x0102i16; PACKET_SLOTS];
    let mut rot = at(11, 0);
    let mut pacer = TxIqPacer::new();
    let quiet = p1_build_packet(0x0A0B_0C0D, &mut rot, &s, &samples, &mut pacer, 1, &audio);
    assert_eq!(&quiet[..8], &[0xEF, 0xFE, 1, 2, 0x0A, 0x0B, 0x0C, 0x0D]);
    assert!(quiet[16..520].iter().all(|&b| b == 0));
    assert_eq!((rot.ozy_command, quiet[11] & 1, quiet[523] & 1), (1, 0, 0));
    s.send_rx_audio = true;
    let heard = p1_build_packet(1, &mut rot, &s, &samples, &mut pacer, 1, &audio);
    assert_eq!(&heard[16..24], &[1, 2, 1, 2, 0, 0, 0, 0]);
    assert_eq!(&heard[1024..], &[1, 2, 1, 2, 0, 0, 0, 0]);
    s.mox = true;
    assert_eq!(tx_samples_due(&pacer, 1), 252);
    let keyed = p1_build_packet(2, &mut rot, &s, &samples, &mut pacer, 1, &audio);
    assert_eq!((keyed[11] & 1, keyed[523] & 1), (1, 1));
    assert_eq!(&keyed[16..24], &[0, 0, 0, 0, 0, 1, 0, 2]);
    assert_eq!(&keyed[528..536], &[0, 0, 0, 0, 0, 127, 0, 128]);
    assert_eq!(&keyed[1024..], &[0, 0, 0, 0, 0, 251, 0, 252]);
    let starved = p1_build_packet(3, &mut rot, &s, &[-2, -1], &mut pacer, 1, &audio);
    assert_eq!(&starved[16..24], &[0, 0, 0, 0, 0xFF, 0xFE, 0xFF, 0xFF]);
    assert!(starved[24..520].iter().all(|&b| b == 0));
}

#[test]
fn samples_can_be_held_for_several_slots() {
    let mut f = build_usb_frame(0, 0, 0, 0, 0);
    let mut pacer = TxIqPacer::new();
    let next = fill_tx_payload(&mut f, &[1, 2, 3, 4], 0, &mut pacer, 2);
    assert_eq!(next, 62);
    assert_eq!(&f[12..16], &[0, 0, 0, 0]);
    assert_eq!(&f[20..24], &[0, 1, 0, 2]);
    assert_eq!(&f[28..32], &[0, 1, 0, 2]);
    assert_eq!(&f[36..40], &[0, 3, 0, 4]);
    assert_eq!(pacer.accum, 1);
}

#[test]
fn the_start_burst_is_two_rotations() {
    let c = P1Preconfig {
        ps_wire_total: Some(4),
        receivers_fallback: 1,
        frequency_hz: 7_100_000,
        sample_rate: 48_000,
        is_hermes_lite: true,
        rx_attenuation: 12,
        ps_tx_attenuation: 20,
        num_adcs: 1,
        diversity_enabled: false,
        puresignal_enabled: true,
        mic_ptt_enabled: false,
        mic_bias_enabled: false,
        mic_ptt_on_tip: false,
    };
    let packets = p1_preconfig_packets(&c);
    assert_eq!(packets.len(), 28);
    assert_eq!(&packets[0][523..528], &[0x02, 0, 0x6C, 0x56, 0x60]);
    assert_eq!(packets[4][523], 0x0A);
    assert_eq!(packets[14][523], 0x02);
    assert_eq!(packets[27][7], 27);
    assert_eq!(packets[0][15], 0x04 | (3 << 3));
    let start = metis_command(METIS_START);
    assert_eq!(&start[..5], &[0xEF, 0xFE, 0x04, 0x03, 0]);
}

fn live() -> P1Live {
    P1Live {
        frequency_hz: 7_100_000,
        tx_frequency_hz: 7_100_000,
        sample_rate: 48_000,
        mox: false,
        active_receiver_count: 1,
        extra_frequencies_hz: vec![],
        rx_antenna: 0,
        tx_antenna: 0,
        new_pa_board: false,
        drive_level: 0,
        cw_keyer: keyer(),
        cw_mode_active: false,
        rx_attenuation: 268,
        ps_tx_attenuation: 0,
        disable_pa: false,
        tune_active: false,
        oc_rx: 0,
        oc_tx: 0,
        adc: 0,
        extra_adcs: vec![],
        send_rx_audio_to_radio: true,
        hl2_ak4951_codec: false,
        mic_ptt_enabled: false,
        mic_bias_enabled: false,
        mic_ptt_on_tip: false,
    }
}

#[test]
fn the_sender_counts_and_follows_the_settings() {
    let link = P1Link {
        is_hermes_lite: true,
        is_orion2: false,
        num_adcs: 1,
        ps_wire_total: None,
        is_ozy: false,
    };
    let audio = [0x0102i16; PACKET_SLOTS];
    let mut s = P1Sender::new(false, false);
    let first = s.next_packet(&link, live(), &[], &audio);
    // A HermesLite without its codec board gets no audio.
    assert_eq!(first[16], 0);
    assert_eq!((s.seq, s.rotation.ozy_command), (1, 2));
    let heard = s.next_packet(&link, P1Live { hl2_ak4951_codec: true, ..live() }, &[], &audio);
    assert_eq!(&heard[16..20], &[1, 2, 1, 2]);
    assert!(s.observe_diversity(true));
    assert!(!s.observe_diversity(true));
    assert!(s.observe_puresignal(true));
    assert!(s.diversity && s.puresignal);
    let b = restart_burst(&link, &live(), true, true);
    assert_eq!((b.stop[3], b.start[3], b.packets.len()), (0, 3, 22));
    assert_eq!(b.packets[0][15] & 0x80, 0x80);
    s.seq = u32::MAX;
    s.next_packet(&link, live(), &[], &audio);
    assert_eq!(s.seq, 0);
}

#[test]
fn audio_goes_out_only_where_it_can_be_heard() {
    let plain = P1Link {
        is_hermes_lite: false,
        is_orion2: false,
        num_adcs: 1,
        ps_wire_total: None,
        is_ozy: false,
    };
    let lite = P1Link { is_hermes_lite: true, ..plain };
    assert!(wants_audio(&plain, &live()));
    assert!(!wants_audio(&plain, &P1Live { mox: true, ..live() }));
    assert!(!wants_audio(&plain, &P1Live { send_rx_audio_to_radio: false, ..live() }));
    assert!(!wants_audio(&lite, &live()));
    assert!(wants_audio(&lite, &P1Live { hl2_ak4951_codec: true, ..live() }));
}

#[test]
fn reserved_receivers_fix_the_number_on_the_wire() {
    assert_eq!(wire_receiver_count(Some(4), 1), 4);
    assert_eq!(wire_receiver_count(None, 3), 3);
    assert_eq!(wire_receiver_count(None, 0), 1);
    assert_eq!(wire_receiver_count(None, 256), 1);
}

#[test]
fn a_late_stream_goes_on_from_now() {
    let mut s = SendSchedule::starting_at(1_000);
    assert_eq!(s.advance(500, 1_100), 400);
    assert_eq!(s.next_send_ns, 1_500);
    assert_eq!(s.advance(500, 9_000), 0);
    assert_eq!(s.next_send_ns, 9_000);
    s.resync(10_000);
    assert_eq!(s.advance(500, 10_000), 500);
}

#[test]
fn feedback_slots_follow_the_board() {
    let f = ps_feedback_config(1, Boards::Hermes).unwrap();
    assert_eq!((f.rx_feedback_idx, f.tx_feedback_idx, f.max_real_receivers), (2, 3, Some(2)));
    let f = ps_feedback_config(1, Boards::Orion2).unwrap();
    assert_eq!((f.rx_feedback_idx, f.tx_feedback_idx, f.max_real_receivers), (3, 4, Some(3)));
    let f = ps_feedback_config(1, Boards::Metis).unwrap();
    assert_eq!((f.rx_feedback_idx, f.tx_feedback_idx, f.max_real_receivers), (0, 1, Some(0)));
    let f = ps_feedback_config(2, Boards::Saturn).unwrap();
    assert_eq!((f.rx_feedback_idx, f.tx_feedback_idx, f.max_real_receivers), (0, 1, None));
    assert!(ps_feedback_config(1, Boards::Ozy).is_none());
    assert!(ps_feedback_config(3, Boards::Hermes).is_none());
    assert!(is_hermes_lite(Boards::HermesLite2) && !is_hermes_lite(Boards::Hermes));
}

#[test]
fn keyer_settings_start_at_their_defaults() {
    let v = CwKeyerValues::load(&CwKeyerAtomics::default());
    assert_eq!(v, CwKeyerValues::default());
    assert_eq!((v.mode, v.speed_wpm, v.weight), (CW_KEYER_MODE_IAMBIC_A, 16, 50));
    assert_eq!((v.sidetone_volume, v.sidetone_freq_hz, v.hang_time_ms), (50, 800, 500));
    let a = CwKeyerAtomics::default();
    a.speed_wpm.store(44, Ordering::Relaxed);
    assert_eq!(CwKeyerValues::load(&a).speed_wpm, 44);
}

#[test]
fn the_lead_time_is_clamped_at_high_speeds() {
    let at_speed = |speed_wpm: u32| CwKeyerValues { speed_wpm, ..keyer() }.ptt_delay_byte();
    assert_eq!(at_speed(0), 30);
    assert_eq!(at_speed(30), 30);
    assert_eq!(at_speed(31), 29);
    assert_eq!(at_speed(45), 20);
    assert_eq!(at_speed(1000), 0);
}

fn antenna() -> AntennaState {
    AntennaState {
        rx_antenna: 0,
        tx_antenna: 1,
        mox: false,
        is_orion2: false,
        new_pa_board: false,
    }
}

#[test]
fn filters_follow_the_frequency() {
    assert_eq!(rx_filter(1_499_999), RxFilter::Bypass);
    assert_eq!(rx_filter(1_500_000), RxFilter::M160);
    assert_eq!(rx_filter(5_499_999), RxFilter::M80M60);
    assert_eq!(rx_filter(5_500_000), RxFilter::M40M30);
    assert_eq!(rx_filter(11_000_000), RxFilter::M20M15);
    assert_eq!(rx_filter(22_000_000), RxFilter::M12M10);
    assert_eq!(rx_filter(35_000_000), RxFilter::M6);
    assert_eq!(alex1_word(14_200_000, false), 0x02);
    assert_eq!(alex1_word(7_100_000, true), 0x0110);
}

#[test]
fn the_first_front_end_word_has_separate_fields() {
    let a = antenna();
    assert_eq!(alex0_word(7_100_000, a, false, false), 0x0120_0010);
    let keyed = AntennaState { mox: true, ..a };
    assert_eq!(alex0_word(7_100_000, keyed, false, false), 0x0A20_0010);
    assert_eq!(alex0_word(7_100_000, keyed, true, true), 0x0224_0010);
    assert_eq!(alex0_word(7_100_000, keyed, false, false) & ALEX_TR_RELAY, ALEX_TR_RELAY);
    assert_eq!(alex0_word(7_100_000, a, false, true) & ALEX_PS_BIT, 0);
    let ext = AntennaState { rx_antenna: ANTENNA_EXT1, ..a };
    assert_eq!(alex0_word(14_200_000, ext, false, false), 0x0210_0A02);
    let orion = AntennaState { rx_antenna: ANTENNA_EXT2, is_orion2: true, new_pa_board: true, ..a };
    assert_eq!(alex0_word(14_200_000, orion, false, false), 0x0210_4202);
    assert_eq!(alex0_word(1_000_000, a, false, false), 0x2100_1000);
    assert_eq!(alex0_word(50_000_000, a, false, false), 0x2100_0008);
}

#[test]
fn the_amplifier_board_means_nothing_on_an_orion2() {
    let orion = AntennaState {
        rx_antenna: ANTENNA_EXT1,
        tx_antenna: 0,
        mox: false,
        is_orion2: true,
        new_pa_board: true,
    };
    assert_eq!(alex0_word(14_074_000, orion, false, false), 0x0110_4202);
    let other = AntennaState { new_pa_board: false, ..orion };
    assert_eq!(alex0_word(14_074_000, other, false, false), 0x0110_4202);
    assert_eq!(antenna_connector(orion), Some(0));
    let s = P1Control {
        receivers: 1,
        rx_antenna: 3,
        is_orion2: true,
        new_pa_board: true,
        ..control()
    };
    let mut rotation = at(1, 0);
    let mut pacer = TxIqPacer::new();
    let p = p1_build_packet(0, &mut rotation, &s, &[], &mut pacer, 1, &[0; PACKET_SLOTS]);
    assert_eq!((p[14], p[15]), (0x40, 0x04));
}

#[test]
fn auxiliary_inputs_leave_the_main_relay_where_transmitting_needs_it() {
    let a = antenna();
    assert_eq!(antenna_connector(a), Some(0));
    assert_eq!(antenna_connector(AntennaState { mox: true, ..a }), Some(1));
    let aux = AntennaState { rx_antenna: ANTENNA_XVTR, ..a };
    assert_eq!(antenna_connector(aux), Some(1));
    assert_eq!(antenna_connector(AntennaState { new_pa_board: true, ..aux }), None);
    assert_eq!(antenna_connector(AntennaState { tx_antenna: 4, ..aux }), Some(2));
}

#[test]
fn samples_survive_their_wire_form() {
    for v in [-8_388_608, -1, 0, 1, 8_388_607, 74_565] {
        let b = pack_24(v);
        assert_eq!(sign_extend_24(b[0], b[1], b[2]), v);
    }
    assert_eq!(pack_24(0x12_3456), [0x12, 0x34, 0x56]);
    assert_eq!(pack_24(-2), [0xFF, 0xFF, 0xFE]);
    for v in [i16::MIN, -1, 0, 1, i16::MAX] {
        assert_eq!(i16_of(i16_bits(v)), v);
        assert_eq!(i16_bits(v), v as u16);
    }
    assert_eq!(be32_bytes(0x0102_0304), [1, 2, 3, 4]);
}
