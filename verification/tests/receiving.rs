use hpsdr::iq_stream::{has_queues, iq_payload, parse_iq_stream, P1Demux, P1Stream, PsSlots};
use hpsdr::p2_receiver::{
    classify, p2_handle_packet, p2_parse_ddc_iq_packet, p2_parse_ps_feedback_packet,
    p2_parse_status_packet, P2Source, PowerAverages,
};
use hpsdr::queue::{drain_iq_pairs, iq_buffer_capacity_for_rate, push_sample, IqSample};
use hpsdr::rx_state::{RadioStatus, Route, RxState};
use std::collections::VecDeque;

/// A frame of `receivers` interleaved receivers; sample `g` of slot `rx` is
/// `1000 * rx + g`, and the microphone counts down.
fn frame(status: [u8; 5], receivers: usize) -> Vec<u8> {
    let mut f = vec![0x7F, 0x7F, 0x7F];
    f.extend_from_slice(&status);
    let groups = 504 / (6 * receivers + 2);
    for g in 0..groups {
        for rx in 0..receivers {
            let v = (1000 * rx + g) as i32;
            f.extend_from_slice(&v.to_be_bytes()[1..]);
            f.extend_from_slice(&(-v).to_be_bytes()[1..]);
        }
        f.extend_from_slice(&(-(g as i16)).to_be_bytes());
    }
    f.resize(512, 0);
    f
}

fn demux(receivers: u8) -> P1Demux {
    P1Demux { receivers, capacity: 4_000, ps_feedback: None, diversity: false }
}

#[test]
fn frames_are_taken_apart() {
    let mut stream = P1Stream::new();
    let mut out = RxState::new(2);
    let n = parse_iq_stream(&mut stream, &frame([0, 1, 0, 0, 0], 2), &demux(2), &mut out);
    assert_eq!(n, (0, 0));
    assert_eq!(out.iq_buffers[0].len(), 36);
    assert_eq!(out.iq_buffers[1][35], IqSample { i: 1035, q: -1035 });
    assert_eq!(out.radio_mic_audio.len(), 36);
    assert_eq!(out.radio_mic_audio[35], -35);
    assert!(out.status.adc0_overload);
    assert!(stream.synced && stream.carry.is_empty());
}

#[test]
fn how_the_stream_is_cut_does_not_matter() {
    let mut bytes = vec![1, 2, 0x7F, 0x7F, 3];
    for _ in 0..4 {
        bytes.extend(frame([0x0D, 1, 2, 3, 4], 1));
    }
    bytes.extend([0x7F, 0x7F]);
    let mut whole = RxState::new(1);
    let mut stream = P1Stream::new();
    parse_iq_stream(&mut stream, &bytes, &demux(1), &mut whole);
    for size in [1, 7, 504, 513, 1024] {
        let mut out = RxState::new(1);
        let mut s = P1Stream::new();
        for piece in bytes.chunks(size) {
            parse_iq_stream(&mut s, piece, &demux(1), &mut out);
        }
        assert_eq!(out.iq_buffers, whole.iq_buffers);
        assert_eq!(out.radio_mic_audio, whole.radio_mic_audio);
        assert_eq!(out.status, whole.status);
        assert_eq!((s.carry, s.synced), (stream.carry.clone(), true));
    }
    assert_eq!(whole.iq_buffers[0].len(), 4 * 63);
    assert!(whole.status.cw_ptt_active);
    assert_eq!(whole.status.cw_paddle_contacts, 1);
    assert_eq!(whole.status.tx_forward_power, 0x0304);
}

#[test]
fn lost_sync_drops_what_is_left() {
    let mut bytes = frame([0; 5], 1);
    let mut bad = frame([0; 5], 1);
    bad[1] = 0;
    bytes.extend(bad);
    bytes.extend(frame([0; 5], 1));
    let mut s = P1Stream::new();
    let mut out = RxState::new(1);
    parse_iq_stream(&mut s, &bytes, &demux(1), &mut out);
    assert_eq!(out.iq_buffers[0].len(), 63);
    assert!(!s.synced && s.carry.is_empty());
    parse_iq_stream(&mut s, &frame([0; 5], 1), &demux(1), &mut out);
    assert_eq!(out.iq_buffers[0].len(), 126);
}

#[test]
fn the_search_for_sync_is_bounded() {
    let mut s = P1Stream::new();
    let mut out = RxState::new(1);
    parse_iq_stream(&mut s, &vec![0; 8192], &demux(1), &mut out);
    assert_eq!(s.carry.len(), 8192);
    parse_iq_stream(&mut s, &[0], &demux(1), &mut out);
    assert!(s.carry.is_empty() && !s.synced);
}

#[test]
fn feedback_and_diversity_have_queues_of_their_own() {
    let c = P1Demux {
        receivers: 4,
        capacity: 4_000,
        ps_feedback: Some(PsSlots { rx: 2, tx: 3 }),
        diversity: true,
    };
    let mut s = P1Stream::new();
    let mut out = RxState::new(2);
    let n = parse_iq_stream(&mut s, &frame([0; 5], 4), &c, &mut out);
    assert_eq!(n, (19, 19));
    assert_eq!((out.ps_rx_feedback_iq.len(), out.ps_tx_feedback_iq.len()), (19, 19));
    assert_eq!(out.ps_tx_feedback_iq[18].i, 3018);
    assert_eq!(out.diversity_main_raw_iq[0].i, 0);
    assert_eq!((out.iq_buffers[0].len(), out.iq_buffers[1].len()), (0, 19));
}

#[test]
fn the_pieces_of_a_stream_bring_as_many_samples_as_the_whole() {
    let c = P1Demux {
        receivers: 4,
        capacity: 4_000,
        ps_feedback: Some(PsSlots { rx: 2, tx: 3 }),
        diversity: false,
    };
    let bytes: Vec<u8> = (0..5).flat_map(|_| frame([0; 5], 4)).collect();
    for size in [1, 100, 511, 512, 1_300] {
        let mut s = P1Stream::new();
        let mut out = RxState::new(2);
        let mut sum = (0, 0);
        for piece in bytes.chunks(size) {
            let n = parse_iq_stream(&mut s, piece, &c, &mut out);
            sum = (sum.0 + n.0, sum.1 + n.1);
        }
        assert_eq!(sum, (5 * 19, 5 * 19));
    }
}

#[test]
fn power_peaks_are_held() {
    let mut s = P1Stream::new();
    let mut out = RxState::new(1);
    let mut show = |status: [u8; 5]| {
        parse_iq_stream(&mut s, &frame(status, 1), &demux(1), &mut out);
        (out.status.tx_forward_power, out.status.tx_reverse_power)
    };
    assert_eq!(show([0x08, 0, 0, 0x10, 0x00]), (0x1000, 0));
    assert_eq!(show([0x08, 0, 0, 0, 0]), (0x0FF0, 0));
    assert_eq!(show([0x10, 0x02, 0x00, 0, 0]), (0x0FF0, 0x200));
    assert_eq!(show([0x20, 1, 1, 0, 0]), (0x0FF0, 0x200));
    assert!(out.status.adc0_overload && out.status.adc1_overload);
}

#[test]
fn only_data_packets_have_samples() {
    let mut p = vec![0u8; 1032];
    p[..4].copy_from_slice(&[0xEF, 0xFE, 1, 6]);
    assert_eq!(iq_payload(&p).unwrap().len(), 1024);
    p[3] = 4;
    assert!(iq_payload(&p).is_none());
    assert!(iq_payload(&[0xEF, 0xFE, 1, 6]).is_none());
}

fn ddc_packet(declared: u16, samples: usize) -> Vec<u8> {
    let mut p = vec![0u8; 14];
    p.extend_from_slice(&declared.to_be_bytes());
    for k in 0..samples {
        p.extend_from_slice(&[0, 0, k as u8, 0xFF, 0xFF, !(k as u8)]);
    }
    p
}

#[test]
fn receiver_packets_give_no_more_than_they_hold() {
    let mut q = VecDeque::new();
    p2_parse_ddc_iq_packet(&ddc_packet(5, 3), &mut q, 100);
    assert_eq!(q.len(), 3);
    assert_eq!(q[2], IqSample { i: 2, q: -3 });
    p2_parse_ddc_iq_packet(&ddc_packet(1, 3), &mut q, 100);
    assert_eq!(q.len(), 4);
    p2_parse_ddc_iq_packet(&[0; 15], &mut q, 100);
    assert_eq!(q.len(), 4);
    p2_parse_ddc_iq_packet(&ddc_packet(3, 3), &mut q, 2);
    assert_eq!(q.len(), 4);
    assert_eq!((q[0].i, q[3].i), (0, 2));
}

#[test]
fn feedback_packets_take_turns() {
    let (mut rx, mut tx) = (VecDeque::new(), VecDeque::new());
    p2_parse_ps_feedback_packet(&ddc_packet(6, 6), &mut rx, &mut tx, 100);
    assert_eq!(rx.iter().map(|s| s.i).collect::<Vec<_>>(), vec![0, 2, 4]);
    assert_eq!(tx.iter().map(|s| s.i).collect::<Vec<_>>(), vec![1, 3, 5]);
}

#[test]
fn status_packets_are_averaged() {
    let mut a = PowerAverages::new();
    let mut s = RadioStatus::new();
    let mut p = vec![0u8; 24];
    p[4] = 0x01 | 0x04 | 0x20;
    p[5] = 0x02;
    p[14] = 0x10;
    p[22] = 0x01;
    p2_parse_status_packet(&p, &mut a, &mut s);
    assert_eq!((s.tx_forward_power, s.tx_reverse_power), (0x100, 0x10));
    assert!(s.cw_ptt_active && s.tx_fifo_underrun && !s.tx_fifo_overrun);
    assert_eq!(s.cw_paddle_contacts, 2);
    assert!(!s.adc0_overload && s.adc1_overload);
    p2_parse_status_packet(&p[..5], &mut a, &mut s);
    assert!(s.adc1_overload);
    assert_eq!(s.tx_forward_power, 0x100);
    p2_parse_status_packet(&p, &mut a, &mut s);
    assert_eq!(s.tx_forward_power, 0x1F0);
}

#[test]
fn the_source_port_tells_packets_apart() {
    assert_eq!(classify(1035, 1444, 2, true, false), P2Source::Feedback);
    assert_eq!(classify(1035, 1444, 2, false, false), P2Source::Ignored);
    assert_eq!(classify(1036, 1444, 2, true, false), P2Source::Ignored);
    assert_eq!(classify(1037, 1444, 2, true, false), P2Source::Receiver(0));
    assert_eq!(classify(1037, 1444, 2, true, true), P2Source::DiversityMain);
    assert_eq!(classify(1038, 1444, 2, true, true), P2Source::Receiver(1));
    assert_eq!(classify(1039, 1444, 2, true, true), P2Source::Ignored);
    assert_eq!(classify(1037, 1443, 2, true, false), P2Source::Ignored);
    assert_eq!(classify(1025, 60, 2, true, false), P2Source::Status);
    assert_eq!(classify(1026, 132, 2, true, false), P2Source::Mic);
    assert_eq!(classify(1024, 60, 2, true, false), P2Source::Ignored);
}

#[test]
fn packets_reach_their_queues() {
    let mut a = PowerAverages::new();
    let mut out = RxState::new(1);
    let mut p = ddc_packet(238, 238);
    assert_eq!(p.len(), 1444);
    p.resize(1444, 0);
    assert!(!p2_handle_packet(1037, &p, 4_000, false, false, &mut a, &mut out));
    assert_eq!(out.iq_buffers[0].len(), 238);
    assert!(p2_handle_packet(1025, &[0, 0, 0, 0, 1], 4_000, false, false, &mut a, &mut out));
    assert!(out.status.cw_ptt_active);
    let mut mic = vec![0u8; 132];
    mic[4] = 0xFF;
    mic[5] = 0xFE;
    assert!(!p2_handle_packet(1026, &mic, 4_000, false, false, &mut a, &mut out));
    assert_eq!((out.radio_mic_audio.len(), out.radio_mic_audio[0]), (64, -2));
    assert!(!p2_handle_packet(1026, &mic[..131], 4_000, false, false, &mut a, &mut out));
    assert_eq!(out.radio_mic_audio.len(), 64);
    assert!(!p2_handle_packet(1035, &p, 4_000, true, false, &mut a, &mut out));
    assert_eq!((out.ps_rx_feedback_iq.len(), out.ps_tx_feedback_iq.len()), (119, 119));
}

#[test]
fn full_queues_drop_their_oldest_sample() {
    let mut q = VecDeque::new();
    for i in 0..10 {
        push_sample(&mut q, IqSample { i, q: 0 }, 4);
    }
    assert_eq!(q.iter().map(|s| s.i).collect::<Vec<_>>(), vec![6, 7, 8, 9]);
    assert_eq!(iq_buffer_capacity_for_rate(384_000), 96_000);
    assert_eq!(iq_buffer_capacity_for_rate(8_000), 4_000);
    let mut out = RxState::new(1);
    out.route(Route::PsTx, IqSample { i: 1, q: 2 }, 1);
    assert_eq!(out.ps_tx_feedback_iq[0], IqSample { i: 1, q: 2 });
}

#[test]
fn pairs_are_drawn_as_far_as_both_queues_go() {
    let at = |i: i32| IqSample { i, q: 0 };
    let mut main: VecDeque<IqSample> = (0..5).map(at).collect();
    let mut aux: VecDeque<IqSample> = (10..13).map(at).collect();
    let pairs = drain_iq_pairs(&mut main, &mut aux);
    assert_eq!(pairs, vec![(at(0), at(10)), (at(1), at(11)), (at(2), at(12))]);
    assert_eq!((main.len(), aux.len()), (2, 0));
}

#[test]
fn every_slot_in_use_needs_a_queue() {
    assert!(has_queues(&demux(2), 2));
    assert!(!has_queues(&demux(2), 1));
    // Feedback slots and the first receiver of a pair have queues of their own.
    let c = P1Demux { ps_feedback: Some(PsSlots { rx: 2, tx: 3 }), diversity: true, ..demux(4) };
    assert!(has_queues(&c, 2));
    assert!(!has_queues(&c, 1));
}
