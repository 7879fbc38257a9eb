use hpsdr::alex::{alex0_word, AntennaState};
use hpsdr::cw_keyer::CwKeyerValues;
use hpsdr::p2_sender::{adc_list, frequency_list, rate_list, P2Due, P2Link, P2Live, P2Sender};
use hpsdr::p2_streams::{p2_audio_packet, p2_duc_packet, P2Stream, StreamStep};
use hpsdr::protocol2::{
    p2_ddc_specific_packet, p2_general_packet, p2_high_priority_packet, p2_tx_specific_packet,
    phase_word, P2HpControl, P2TxControl,
};

fn keyer() -> CwKeyerValues {
    CwKeyerValues {
        mode: 2,
        speed_wpm: 45,
        weight: 60,
        sidetone_volume: 50,
        sidetone_freq_hz: 700,
        hang_time_ms: 500,
    }
}

#[test]
fn frequencies_become_phase_words() {
    assert_eq!(phase_word(0), 0);
    assert_eq!(phase_word(61_440_000), 0x8000_0000);
    assert_eq!(phase_word(7_100_000), 248_162_986);
    assert_eq!(phase_word(122_880_000), 0xFFFF_FFFF);
    assert_eq!(phase_word(u32::MAX), 0xFFFF_FFFF);
}

#[test]
fn the_general_packet_enables_the_board() {
    let p = p2_general_packet(0x0102_0304, 2, false);
    assert_eq!(&p[..4], &[1, 2, 3, 4]);
    assert_eq!((p[37], p[38], p[58], p[59]), (8, 1, 1, 3));
    let p = p2_general_packet(0, 1, true);
    assert_eq!((p[58], p[59]), (0, 1));
}

#[test]
fn the_receiver_packet_lists_every_receiver() {
    let p = p2_ddc_specific_packet(7, &[192_000, 192_000, 96_000], &[0, 1, 0], 1, Some(true));
    assert_eq!((p[3], p[4], p[7], p[1363]), (7, 1, 0b101, 2));
    assert_eq!(&p[17..23], &[0, 0, 192, 0, 0, 24]);
    assert_eq!(&p[23..29], &[1, 0, 192, 24, 0, 0]);
    assert_eq!(&p[29..35], &[0, 0, 96, 0, 0, 24]);
    let p = p2_ddc_specific_packet(7, &[192_000, 192_000, 96_000], &[0, 1, 0], 0, Some(false));
    assert_eq!((p[4], p[7]), (1, 0b100));
    let p = p2_ddc_specific_packet(7, &[1_536_000; 10], &[], 1, None);
    assert_eq!((p[7], p[1363]), (0xFF, 0));
    assert_eq!(&p[17..23], &[0, 6, 0, 0, 0, 24]);
    let p = p2_ddc_specific_packet(7, &[48_000; 10], &[], 1, Some(true));
    assert_eq!(p[7], 0xFD);
}

#[test]
fn the_transmitter_packet_carries_the_keyer() {
    let mut c = P2TxControl {
        mic_ptt_enabled: false,
        mic_bias_enabled: true,
        mic_ptt_on_tip: true,
        mox: false,
        ps_tx_attenuation: 9,
        cw_keyer: keyer(),
        cw_mode_active: true,
    };
    let p = p2_tx_specific_packet(1, &c);
    assert_eq!(&p[4..14], &[1, 0x82 + 0x10 + 0x28, 50, 2, 188, 45, 60, 1, 244, 20]);
    assert_eq!((p[50], p[58], p[59]), (4 + 8 + 16, 0, 0));
    c.mox = true;
    c.cw_mode_active = false;
    let p = p2_tx_specific_packet(1, &c);
    assert_eq!((p[5], p[58], p[59]), (0, 31, 9));
}

fn hp() -> P2HpControl {
    P2HpControl {
        antenna: AntennaState {
            rx_antenna: 0,
            tx_antenna: 0,
            mox: false,
            is_orion2: true,
            new_pa_board: false,
        },
        disable_pa: false,
        oc_rx: 1,
        oc_tx: 2,
        filter_freq_hz: 7_100_000,
        tx_freq_hz: 61_440_000,
        tx_drive: 99,
        ps_tx_attenuation: 20,
        rx_attenuation: 12,
        alex1_rx2_freq_hz: Some(14_200_000),
        puresignal_enabled: true,
    }
}

#[test]
fn the_high_priority_packet_keys_only_when_asked() {
    let mut c = hp();
    let p = p2_high_priority_packet(5, &[7_100_000, 61_440_000], &c);
    assert_eq!((p[3], p[4], p[345]), (5, 1, 0));
    assert_eq!(&p[9..17], &[0x0E, 0xCA, 0xAA, 0xAA, 0x80, 0, 0, 0]);
    assert_eq!(&p[329..333], &[0x80, 0, 0, 0]);
    assert_eq!((p[1401], p[1442], p[1443]), (2, 12, 12));
    assert_eq!(&p[1428..1436], &[0x08, 0x04, 0, 0x02, 0x01, 0x20, 0, 0x10]);
    c.antenna.mox = true;
    let p = p2_high_priority_packet(5, &[7_100_000], &c);
    assert_eq!((p[4], p[345], p[1401], p[1442], p[1443]), (3, 99, 4, 31, 20));
    assert_eq!(&p[1430..1436], &[0x01, 0x02, 0x09, 0x24, 0, 0x10]);
    c.antenna.rx_antenna = 5;
    c.disable_pa = true;
    c.alex1_rx2_freq_hz = None;
    let p = p2_high_priority_packet(5, &[], &c);
    assert_eq!((p[1400], p[1428], p[1429], p[1430], p[1431]), (1, 0, 4, 0, 0));
}

fn live() -> P2Live {
    P2Live {
        frequency_hz: 7_100_000,
        tx_frequency_hz: 7_200_000,
        sample_rate: 96_000,
        adc: 0,
        rx_antenna: 0,
        tx_antenna: 0,
        new_pa_board: false,
        disable_pa: false,
        oc_rx: 0,
        oc_tx: 0,
        extra_frequencies_hz: vec![14_200_000, 21_200_000],
        extra_sample_rates_hz: vec![48_000, 192_000],
        extra_adcs: vec![1, 0],
        active_receiver_count: 2,
        mox: false,
        drive_level: 10,
        cw_keyer: keyer(),
        cw_mode_active: false,
        puresignal_enabled: false,
        ps_tx_attenuation: 0,
        rx_attenuation: 33,
        mic_ptt_enabled: false,
        mic_bias_enabled: false,
        mic_ptt_on_tip: false,
        diversity_enabled: false,
    }
}

#[test]
fn receiver_lists_start_with_the_feedback_receivers() {
    let link = P2Link { num_adcs: 2, is_orion2: false };
    assert_eq!(frequency_list(&live()), vec![7_200_000, 7_200_000, 7_100_000, 14_200_000]);
    assert_eq!(rate_list(&live()), vec![192_000, 192_000, 96_000, 48_000]);
    assert_eq!(adc_list(&link, &live()), vec![0, 2, 0, 1]);
    let one = P2Live { active_receiver_count: 0, ..live() };
    assert_eq!(frequency_list(&one).len(), 3);
}

#[test]
fn diversity_pairs_the_first_two_receivers() {
    let link = P2Link { num_adcs: 2, is_orion2: false };
    let d = P2Live { diversity_enabled: true, ..live() };
    assert_eq!(frequency_list(&d)[3], 7_100_000);
    assert_eq!(rate_list(&d)[3], 96_000);
    assert_eq!(adc_list(&link, &d)[3], 1);
    let bare = P2Live { extra_frequencies_hz: vec![], ..d };
    assert_eq!(frequency_list(&bare), vec![7_200_000, 7_200_000, 7_100_000, 7_100_000]);
}

#[test]
fn a_full_set_goes_out_on_time_and_an_answer_in_between() {
    let link = P2Link { num_adcs: 1, is_orion2: false };
    let mut s = P2Sender::new(1_000);
    assert_eq!(s.due(1_000, false), P2Due::All);
    let all = s.cycle(P2Due::All, &link, &live());
    let ports: Vec<u16> = all.iter().map(|d| d.port).collect();
    assert_eq!(ports, vec![1024, 1025, 1025, 1026, 1027]);
    assert_eq!(all[1].bytes, all[2].bytes);
    s.keepalive_sent(1_000);
    assert_eq!(s.due(250_000_999, false), P2Due::Nothing);
    assert_eq!(s.due(250_000_999, true), P2Due::HighPriority);
    assert_eq!(s.due(250_001_000, true), P2Due::All);
    let answer = s.cycle(P2Due::HighPriority, &link, &live());
    assert_eq!((answer.len(), answer[0].port, answer[0].bytes[3]), (1, 1027, 1));
    assert_eq!((s.general_seq, s.ddc_seq, s.tx_seq, s.hp_seq), (1, 1, 1, 2));
    assert!(s.cycle(P2Due::Nothing, &link, &live()).is_empty());
    assert_eq!(answer[0].bytes[1443], 1);
}

#[test]
fn filters_follow_the_first_receiver_and_phases_the_transmitter() {
    let link = P2Link { num_adcs: 1, is_orion2: false };
    let split = P2Live {
        frequency_hz: 14_074_000,
        tx_frequency_hz: 7_074_000,
        active_receiver_count: 1,
        ..live()
    };
    let mut s = P2Sender::new(0);
    let sent = s.cycle(P2Due::HighPriority, &link, &split);
    let hp = &sent[0].bytes;
    let antenna = AntennaState {
        rx_antenna: 0,
        tx_antenna: 0,
        mox: false,
        is_orion2: false,
        new_pa_board: false,
    };
    let word = alex0_word(14_074_000, antenna, false, false);
    assert_eq!(word, 0x0110_0002);
    assert_eq!(&hp[1432..1436], &word.to_be_bytes());
    let tx = 247_254_220u32.to_be_bytes();
    assert_eq!((&hp[9..13], &hp[13..17], &hp[329..333]), (&tx[..], &tx[..], &tx[..]));
    assert_eq!(&hp[17..21], &491_921_954u32.to_be_bytes());
}

#[test]
fn audio_packets_carry_each_sample_twice() {
    let p = p2_audio_packet(1, &[0x0102, -1]);
    assert_eq!(&p[..16], &[0, 0, 0, 1, 1, 2, 1, 2, 0xFF, 0xFF, 0xFF, 0xFF, 0, 0, 0, 0]);
    assert!(p2_audio_packet(9, &[])[4..].iter().all(|&b| b == 0));
}

#[test]
fn transmit_packets_carry_24_bit_samples() {
    let (p, starved) = p2_duc_packet(2, &[0x01_0203, -1]);
    assert!(starved);
    assert_eq!(&p[..13], &[0, 0, 0, 2, 1, 2, 3, 0xFF, 0xFF, 0xFF, 0, 0, 0]);
    let full: Vec<i32> = (0..480).collect();
    let (p, starved) = p2_duc_packet(2, &full);
    assert!(!starved);
    assert_eq!(&p[1441..], &[0, 1, 0xDF]);
}

#[test]
fn streams_fill_a_cushion_first() {
    let mut audio = P2Stream::new();
    assert_eq!(audio.next_audio_step(false, false, false, 9_999), StreamStep::Idle);
    assert_eq!(audio.next_audio_step(false, false, true, 2_399), StreamStep::Silence);
    assert_eq!(audio.next_audio_step(false, false, true, 2_400), StreamStep::Samples);
    assert_eq!(audio.next_audio_step(false, false, true, 0), StreamStep::Samples);
    assert_eq!(audio.next_audio_step(true, true, true, 9_999), StreamStep::Silence);
    assert_eq!(audio.next_audio_step(false, false, true, 100), StreamStep::Silence);
    assert_eq!(audio.next_audio_step(true, false, true, 9_999), StreamStep::Idle);
    let mut tx = P2Stream::new();
    assert_eq!(tx.next_tx_step(false, 99_999), StreamStep::Idle);
    assert_eq!(tx.next_tx_step(true, 8_191), StreamStep::Silence);
    assert_eq!(tx.next_tx_step(true, 8_192), StreamStep::Samples);
    assert_eq!(tx.next_tx_step(true, 0), StreamStep::Samples);
    assert_eq!((tx.take_seq(), tx.take_seq()), (0, 1));
}
