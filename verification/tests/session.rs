use hpsdr::boards::Boards;
use hpsdr::cw_keyer::CwKeyerValues;
use hpsdr::session::{
    ozy_file, plan_receivers, CombinerChange, Device, RadioSession, RadioSettings, StartError,
    StopStep, Transport, DEFAULT_PA_GAIN_DB_BITS,
};

fn device(board: Boards, protocol: u8) -> Device {
    Device { board, protocol, adcs: 2 }
}

fn settings(receivers: u8, diversity_enabled: bool) -> RadioSettings {
    RadioSettings { receivers, diversity_enabled, ..RadioSettings::default() }
}

#[test]
fn settings_have_their_defaults() {
    let s = RadioSettings::default();
    assert_eq!((s.frequency_hz, s.sample_rate, s.receivers), (7_100_000, 48_000, 1));
    assert_eq!((s.rx_attenuation, s.ps_tx_attenuation), (12, 20));
    assert!(!s.puresignal_enabled && !s.diversity_enabled && !s.rit_enabled && !s.xit_enabled);
    assert_eq!(f32::from_bits(DEFAULT_PA_GAIN_DB_BITS), 38.8);
}

#[test]
fn feedback_slots_are_taken_off_the_users_receivers() {
    assert_eq!(plan_receivers(Transport::Protocol1, Boards::Hermes, 4, false), 2);
    assert_eq!(plan_receivers(Transport::Protocol1, Boards::Angelia, 7, false), 3);
    assert_eq!(plan_receivers(Transport::Protocol1, Boards::Metis, 1, false), 0);
    assert_eq!(plan_receivers(Transport::Protocol1, Boards::Metis, 1, true), 2);
    assert_eq!(plan_receivers(Transport::Protocol1, Boards::Saturn, 7, false), 7);
    assert_eq!(plan_receivers(Transport::Protocol2, Boards::Orion2, 7, false), 5);
    assert_eq!(plan_receivers(Transport::Protocol2, Boards::Orion2, 2, false), 1);
    assert_eq!(plan_receivers(Transport::Protocol2, Boards::Orion2, 2, true), 2);
    assert_eq!(plan_receivers(Transport::OzyUsb, Boards::Ozy, 7, false), 2);
    assert_eq!(plan_receivers(Transport::OzyUsb, Boards::Ozy, 0, false), 1);
}

#[test]
fn a_session_starts_from_its_settings() {
    let s = RadioSession::start(device(Boards::Hermes, 1), &settings(4, false)).unwrap();
    assert_eq!((s.transport, s.receivers, s.active_receiver_count), (Transport::Protocol1, 2, 1));
    assert_eq!(s.extra_frequencies_hz, vec![7_100_000]);
    assert_eq!(s.controls.tx_power_watts, 2);
    assert!(!s.mox_active() && !s.combiner_running && !s.stopping);
    let link = s.p1_link();
    assert_eq!((link.ps_wire_total, link.num_adcs, link.is_ozy), (Some(4), 2, false));
    let demux = s.p1_demux();
    assert_eq!((demux.receivers, demux.capacity), (4, 12_000));
    let slots = demux.ps_feedback.unwrap();
    assert_eq!((slots.rx, slots.tx), (2, 3));
}

#[test]
fn an_ozy_is_reached_over_usb() {
    let s = RadioSession::start(device(Boards::Ozy, 0), &settings(2, false)).unwrap();
    assert_eq!(s.transport, Transport::OzyUsb);
    assert!(s.stop_command().is_none());
    assert!(s.p1_link().is_ozy);
    assert!(s.p1_demux().ps_feedback.is_none());
}

#[test]
fn unknown_protocols_are_refused() {
    let r = RadioSession::start(device(Boards::Hermes, 3), &settings(1, false));
    assert_eq!(r.unwrap_err(), StartError::UnknownProtocol(3));
}

#[test]
fn a_chosen_file_comes_before_the_bundled_one() {
    let some = |s: &str| Some(s.to_string());
    assert_eq!(ozy_file(some("a"), some("b"), StartError::OzyFpgaMissing).unwrap(), "a");
    assert_eq!(ozy_file(None, some("b"), StartError::OzyFpgaMissing).unwrap(), "b");
    assert_eq!(
        ozy_file(None, None, StartError::OzyFirmwareMissing),
        Err(StartError::OzyFirmwareMissing)
    );
    assert_eq!(ozy_file(None, None, StartError::OzyFpgaMissing), Err(StartError::OzyFpgaMissing));
}

#[test]
fn receivers_are_added_while_there_are_any() {
    let mut s = RadioSession::start(device(Boards::Orion2, 2), &settings(5, false)).unwrap();
    assert_eq!(s.receivers, 3);
    assert_eq!(s.add_receiver(), Some(1));
    assert_eq!(s.add_receiver(), Some(2));
    assert_eq!(s.add_receiver(), None);
    assert_eq!(s.active_receiver_count, 3);
}

#[test]
fn diversity_wakes_the_second_receiver() {
    let mut s = RadioSession::start(device(Boards::Orion2, 2), &settings(5, false)).unwrap();
    assert_eq!(s.set_diversity_enabled(true), CombinerChange::Spawn);
    assert_eq!(s.active_receiver_count, 2);
    assert_eq!(s.set_diversity_enabled(true), CombinerChange::Nothing);
    assert_eq!(s.set_diversity_enabled(false), CombinerChange::Stop);
    assert_eq!(s.active_receiver_count, 2);
    let d = RadioSession::start(device(Boards::Orion2, 2), &settings(5, true)).unwrap();
    assert!(d.combiner_running && d.diversity_enabled);
    assert_eq!(d.active_receiver_count, 2);
}

#[test]
fn live_settings_reach_the_packets() {
    let mut s = RadioSession::start(device(Boards::Orion2, 2), &settings(5, false)).unwrap();
    s.set_frequency(14_200_000);
    s.set_sample_rate(192_000);
    s.set_mox(true);
    s.set_puresignal_enabled(true);
    let l = s.p2_live(7, CwKeyerValues::default());
    assert_eq!((l.frequency_hz, l.tx_frequency_hz, l.sample_rate), (14_200_000, 7_100_000, 192_000));
    assert!(l.mox && l.puresignal_enabled);
    assert_eq!(l.drive_level, 7);
    assert_eq!(l.extra_adcs, vec![0, 0]);
    assert!(s.p2_link().is_orion2);
    let l = s.p1_live(9, CwKeyerValues::default());
    assert_eq!((l.drive_level, l.rx_attenuation), (9, 12));
}

#[test]
fn stopping_unkeys_and_silences_the_senders_first() {
    let mut s = RadioSession::start(device(Boards::Hermes, 1), &settings(1, false)).unwrap();
    s.set_mox(true);
    let steps = s.stop();
    assert!(!s.mox_active() && s.stopping);
    let at = |x: StopStep| steps.iter().position(|&y| y == x).unwrap();
    assert!(at(StopStep::JoinSender) < at(StopStep::SendStop));
    assert!(at(StopStep::JoinTxIq) < at(StopStep::SendStop));
    assert!(at(StopStep::SendStop) < at(StopStep::JoinReceiver));
    assert_eq!(steps.len(), 7);
    let c = s.stop_command().unwrap();
    assert_eq!((c.port, c.bytes.len()), (1024, 64));
    assert_eq!(&c.bytes[..4], &[0xEF, 0xFE, 4, 0]);
    let p2 = RadioSession::start(device(Boards::Orion2, 2), &settings(1, false)).unwrap();
    let c = p2.stop_command().unwrap();
    assert_eq!((c.port, c.bytes), (1027, vec![0; 1444]));
}
