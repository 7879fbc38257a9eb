//! Protocol 1: the state of the thread that keeps a radio supplied with
//! packets. The caller reads the live settings, performs the sends and the
//! sleeps, and hands the readings to this state.
use crate::cw_keyer::CwKeyerValues;
use crate::p1_start::{self, metis_command, p1_preconfig_packets, P1Preconfig, METIS_START, METIS_STOP};
use crate::protocol1::{self, p1_build_packet, P1Control, P1Rotation, TxIqPacer};
use crate::protocol1::{PACKET_SIZE, PACKET_SLOTS};
use vstd::prelude::*;

verus! {

/// Pause between the configuration burst and the start request.
pub const START_DELAY_MS: u64 = 250;

/// Slots per transmit sample: packets go out at the sample rate.
pub const TX_SLOTS_PER_SAMPLE: u32 = 1;

/// What stays fixed while a radio is connected.
#[derive(Clone, Copy, Debug, PartialEq, Eq, Structural)]
pub struct P1Link {
    pub is_hermes_lite: bool,
    pub is_orion2: bool,
    pub num_adcs: u8,
    /// Receivers on the wire where PureSignal slots are reserved.
    pub ps_wire_total: Option<u8>,
    /// A classic Ozy on USB, which has none of the newer features.
    pub is_ozy: bool,
}

/// One reading of the live settings.
#[derive(Debug)]
pub struct P1Live {
    pub frequency_hz: u32,
    pub tx_frequency_hz: u32,
    pub sample_rate: u32,
    pub mox: bool,
    pub active_receiver_count: u32,
    pub extra_frequencies_hz: Vec<u32>,
    pub rx_antenna: u32,
    pub tx_antenna: u32,
    pub new_pa_board: bool,
    pub drive_level: u8,
    pub cw_keyer: CwKeyerValues,
    pub cw_mode_active: bool,
    pub rx_attenuation: u32,
    pub ps_tx_attenuation: u32,
    pub disable_pa: bool,
    pub tune_active: bool,
    pub oc_rx: u8,
    pub oc_tx: u8,
    pub adc: u32,
    pub extra_adcs: Vec<u32>,
    pub send_rx_audio_to_radio: bool,
    pub hl2_ak4951_codec: bool,
    pub mic_ptt_enabled: bool,
    pub mic_bias_enabled: bool,
    pub mic_ptt_on_tip: bool,
}

pub open spec fn low8(n: u32) -> u8 {
    (n % 256) as u8
}

/// Receivers interleaved on the wire: the reserved total where there is
/// one, else as many as are active, at least one.
pub open spec fn wire_receivers(ps_wire_total: Option<u8>, active: u32) -> u8 {
    match ps_wire_total {
        Some(n) => n,
        None => protocol1::at_least_one(low8(active)),
    }
}

/// Receivers interleaved on the wire.
pub fn wire_receiver_count(ps_wire_total: Option<u8>, active: u32) -> (n: u8)
    ensures
        n == wire_receivers(ps_wire_total, active),
{
    match ps_wire_total {
        Some(n) => n,
        None => {
            let n: u8 = (active % 256) as u8;
            if n == 0 {
                1
            } else {
                n
            }
        },
    }
}

/// Receive audio goes out only while not keyed, and to a HermesLite only
/// where its codec board is fitted.
pub open spec fn audio_wanted(link: P1Link, live: P1Live) -> bool {
    !live.mox && live.send_rx_audio_to_radio && (!link.is_hermes_lite || live.hl2_ak4951_codec)
}

/// Whether a packet for these readings carries receive audio.
pub fn wants_audio(link: &P1Link, live: &P1Live) -> (b: bool)
    ensures
        b == audio_wanted(*link, *live),
{
    !live.mox && live.send_rx_audio_to_radio && (!link.is_hermes_lite || live.hl2_ak4951_codec)
}

/// `s` is what a packet is built from for these readings.
pub open spec fn is_control(
    s: P1Control,
    link: P1Link,
    live: P1Live,
    diversity: bool,
    puresignal: bool,
) -> bool {
    &&& s.receivers == wire_receivers(link.ps_wire_total, live.active_receiver_count)
    &&& s.frequency_hz == live.frequency_hz
    &&& s.tx_frequency_hz == live.tx_frequency_hz
    &&& s.rx_antenna == live.rx_antenna
    &&& s.tx_antenna == live.tx_antenna
    &&& s.is_orion2 == link.is_orion2
    &&& s.new_pa_board == (live.new_pa_board && !link.is_ozy)
    &&& s.drive_level == live.drive_level
    &&& s.sample_rate_hz == live.sample_rate
    &&& s.mox == live.mox
    &&& s.is_hermes_lite == link.is_hermes_lite
    &&& s.hl2_ak4951_codec == (live.hl2_ak4951_codec && !link.is_ozy)
    &&& s.disable_pa == live.disable_pa
    &&& s.tune_active == (live.tune_active && !link.is_ozy)
    &&& s.cw_keyer == live.cw_keyer
    &&& s.cw_mode_active == (live.cw_mode_active && !link.is_ozy)
    &&& s.oc_rx == live.oc_rx
    &&& s.oc_tx == live.oc_tx
    &&& s.rx_attenuation == low8(live.rx_attenuation)
    &&& s.ps_tx_attenuation == low8(live.ps_tx_attenuation)
    &&& s.num_adcs == link.num_adcs
    &&& s.adc == live.adc
    &&& s.extra_frequencies_hz@ == live.extra_frequencies_hz@
    &&& s.extra_adcs@ == live.extra_adcs@
    &&& s.diversity_enabled == diversity
    &&& s.puresignal_enabled == puresignal
    &&& s.send_rx_audio == audio_wanted(link, live)
    &&& s.mic_ptt_enabled == live.mic_ptt_enabled
    &&& s.mic_bias_enabled == live.mic_bias_enabled
    &&& s.mic_ptt_on_tip == live.mic_ptt_on_tip
}

/// Resolves a reading of the settings into what a packet is built from.
pub fn resolve_control(
    link: &P1Link,
    live: P1Live,
    diversity: bool,
    puresignal: bool,
) -> (s: P1Control)
    ensures
        is_control(s, *link, live, diversity, puresignal),
{
    let send_rx_audio: bool = wants_audio(link, &live);
    P1Control {
        receivers: wire_receiver_count(link.ps_wire_total, live.active_receiver_count),
        frequency_hz: live.frequency_hz,
        tx_frequency_hz: live.tx_frequency_hz,
        rx_antenna: live.rx_antenna,
        tx_antenna: live.tx_antenna,
        is_orion2: link.is_orion2,
        new_pa_board: live.new_pa_board && !link.is_ozy,
        drive_level: live.drive_level,
        sample_rate_hz: live.sample_rate,
        mox: live.mox,
        is_hermes_lite: link.is_hermes_lite,
        hl2_ak4951_codec: live.hl2_ak4951_codec && !link.is_ozy,
        disable_pa: live.disable_pa,
        tune_active: live.tune_active && !link.is_ozy,
        cw_keyer: live.cw_keyer,
        cw_mode_active: live.cw_mode_active && !link.is_ozy,
        oc_rx: live.oc_rx,
        oc_tx: live.oc_tx,
        rx_attenuation: (live.rx_attenuation % 256) as u8,
        ps_tx_attenuation: (live.ps_tx_attenuation % 256) as u8,
        num_adcs: link.num_adcs,
        adc: live.adc,
        extra_frequencies_hz: live.extra_frequencies_hz,
        extra_adcs: live.extra_adcs,
        diversity_enabled: diversity,
        puresignal_enabled: puresignal,
        send_rx_audio,
        mic_ptt_enabled: live.mic_ptt_enabled,
        mic_bias_enabled: live.mic_bias_enabled,
        mic_ptt_on_tip: live.mic_ptt_on_tip,
    }
}

/// A restart of the stream: stop it, send the configuration again, wait
/// [`START_DELAY_MS`] and start it.
pub struct P1Burst {
    pub stop: [u8; 64],
    pub packets: Vec<[u8; PACKET_SIZE]>,
    pub start: [u8; 64],
}

/// The configuration that a restart announces.
pub open spec fn burst_config(
    link: P1Link,
    live: P1Live,
    diversity: bool,
    puresignal: bool,
) -> P1Preconfig {
    P1Preconfig {
        ps_wire_total: link.ps_wire_total,
        receivers_fallback: protocol1::at_least_one(low8(live.active_receiver_count)),
        frequency_hz: live.frequency_hz,
        sample_rate: live.sample_rate,
        is_hermes_lite: link.is_hermes_lite,
        rx_attenuation: low8(live.rx_attenuation),
        ps_tx_attenuation: low8(live.ps_tx_attenuation),
        num_adcs: link.num_adcs,
        diversity_enabled: diversity,
        puresignal_enabled: puresignal,
        mic_ptt_enabled: live.mic_ptt_enabled,
        mic_bias_enabled: live.mic_bias_enabled,
        mic_ptt_on_tip: live.mic_ptt_on_tip,
    }
}

/// The packets of a restart.
pub fn restart_burst(link: &P1Link, live: &P1Live, diversity: bool, puresignal: bool) -> (b:
    P1Burst)
    ensures
        b.stop@ == p1_start::metis_request(METIS_STOP),
        b.start@ == p1_start::metis_request(METIS_START),
        p1_start::is_preconfig_burst(b.packets@, burst_config(*link, *live, diversity, puresignal)),
{
    let c: P1Preconfig = P1Preconfig {
        ps_wire_total: link.ps_wire_total,
        receivers_fallback: wire_receiver_count(None, live.active_receiver_count),
        frequency_hz: live.frequency_hz,
        sample_rate: live.sample_rate,
        is_hermes_lite: link.is_hermes_lite,
        rx_attenuation: (live.rx_attenuation % 256) as u8,
        ps_tx_attenuation: (live.ps_tx_attenuation % 256) as u8,
        num_adcs: link.num_adcs,
        diversity_enabled: diversity,
        puresignal_enabled: puresignal,
        mic_ptt_enabled: live.mic_ptt_enabled,
        mic_bias_enabled: live.mic_bias_enabled,
        mic_ptt_on_tip: live.mic_ptt_on_tip,
    };
    P1Burst {
        stop: metis_command(METIS_STOP),
        packets: p1_preconfig_packets(&c),
        start: metis_command(METIS_START),
    }
}

/// State of the sending thread.
#[derive(Clone, Copy, Debug, PartialEq, Eq, Structural)]
pub struct P1Sender {
    pub seq: u32,
    pub rotation: P1Rotation,
    pub pacer: TxIqPacer,
    /// What the radio was last configured for.
    pub diversity: bool,
    pub puresignal: bool,
}

impl P1Sender {
    pub open spec fn wf(self) -> bool {
        self.pacer.accum == 0
    }

    /// The state right after the radio was configured and started.
    pub fn new(diversity: bool, puresignal: bool) -> (s: Self)
        ensures
            s.wf(),
            s.seq == 0,
            s.rotation == (P1Rotation { ozy_command: 1, current_receiver: 0 }),
            s.pacer == (TxIqPacer { accum: 0, held_i: 0, held_q: 0 }),
            s.diversity == diversity,
            s.puresignal == puresignal,
    {
        P1Sender {
            seq: 0,
            rotation: P1Rotation { ozy_command: 1, current_receiver: 0 },
            pacer: TxIqPacer::new(),
            diversity,
            puresignal,
        }
    }

    /// Notes whether diversity is on now. A change has to be announced with
    /// a [`restart_burst`] before the next packet.
    pub fn observe_diversity(&mut self, now: bool) -> (restart: bool)
        ensures
            restart == (old(self).diversity != now),
            *final(self) == (P1Sender { diversity: now, ..*old(self) }),
    {
        let restart: bool = self.diversity != now;
        self.diversity = now;
        restart
    }

    /// Notes whether PureSignal is on now; see
    /// [`observe_diversity`](Self::observe_diversity).
    pub fn observe_puresignal(&mut self, now: bool) -> (restart: bool)
        ensures
            restart == (old(self).puresignal != now),
            *final(self) == (P1Sender { puresignal: now, ..*old(self) }),
    {
        let restart: bool = self.puresignal != now;
        self.puresignal = now;
        restart
    }

    /// Builds the next packet: while keyed it carries `samples`, else
    /// `audio` where that is wanted.
    pub fn next_packet(
        &mut self,
        link: &P1Link,
        live: P1Live,
        samples: &[i16],
        audio: &[i16; PACKET_SLOTS],
    ) -> (packet: [u8; PACKET_SIZE])
        requires
            old(self).wf(),
        ensures
            final(self).wf(),
            exists|s: P1Control|
                #[trigger] is_control(s, *link, live, old(self).diversity, old(self).puresignal)
                    && packet@ == protocol1::packet_of(
                    old(self).seq,
                    old(self).rotation,
                    s,
                    protocol1::slot_body(
                        s,
                        samples@,
                        old(self).pacer,
                        TX_SLOTS_PER_SAMPLE,
                        audio@,
                        0,
                    ),
                    protocol1::slot_body(
                        s,
                        samples@,
                        old(self).pacer,
                        TX_SLOTS_PER_SAMPLE,
                        audio@,
                        63,
                    ),
                ),
            final(self).seq == (old(self).seq + 1) % 0x1_0000_0000,
            final(self).rotation == protocol1::next_rotation(
                old(self).rotation,
                wire_receivers(link.ps_wire_total, live.active_receiver_count),
            ),
            final(self).pacer == (if live.mox {
                protocol1::pacer_after(
                    samples@,
                    0,
                    old(self).pacer,
                    TX_SLOTS_PER_SAMPLE,
                    PACKET_SLOTS as int,
                )
            } else {
                old(self).pacer
            }),
            final(self).diversity == old(self).diversity,
            final(self).puresignal == old(self).puresignal,
    {
        let ghost readings = live;
        let s: P1Control = resolve_control(link, live, self.diversity, self.puresignal);
        let packet: [u8; PACKET_SIZE] = p1_build_packet(
            self.seq,
            &mut self.rotation,
            &s,
            samples,
            &mut self.pacer,
            TX_SLOTS_PER_SAMPLE,
            audio,
        );
        self.seq = self.seq.wrapping_add(1);
        assert(is_control(s, *link, readings, old(self).diversity, old(self).puresignal));
        packet
    }
}

/// How many receivers a packet announces: the reserved total where there is
/// one, else the active ones, at least one.
pub proof fn law_wire_receivers(total: u8, active: u32)
    ensures
        wire_receivers(Some(total), active) == total,
        1 <= active <= 255 ==> wire_receivers(None, active) == active,
        active == 0 ==> wire_receivers(None, active) == 1,
{
}

/// A packet follows the readings. Its first frame has the key, the rate and
/// the outputs of the direction in use; the registers tune the transmitter
/// and the receivers, ask for the drive while keyed, and set attenuation,
/// keyer and outputs. What an Ozy has not, it is not sent.
pub proof fn law_packets_follow_the_readings(
    s: P1Control,
    link: P1Link,
    live: P1Live,
    diversity: bool,
    puresignal: bool,
    rot: P1Rotation,
)
    requires
        is_control(s, link, live, diversity, puresignal),
    ensures
        ({
            let g = protocol1::general_control(s);
            let r = protocol1::register(rot, s);
            let f = r[1] * 0x100_0000 + r[2] * 0x1_0000 + r[3] * 0x100 + r[4];
            let outputs = if live.mox {
                live.oc_tx
            } else {
                live.oc_rx
            };
            let cw = live.cw_mode_active && !link.is_ozy && !(live.tune_active && !link.is_ozy);
            &&& g[0] == (if live.mox {
                1int
            } else {
                0
            })
            &&& g[1] == 1 <==> live.sample_rate == 96_000
            &&& g[1] == 2 <==> live.sample_rate == 192_000
            &&& g[1] == 3 <==> live.sample_rate == 384_000
            &&& g[2] == 2 * (outputs % 128)
            &&& rot.ozy_command == 1 ==> f == live.tx_frequency_hz
            &&& rot.ozy_command == 2 && rot.current_receiver == 0 ==> f == live.frequency_hz
            &&& rot.ozy_command == 2 && rot.current_receiver == 1 && diversity ==> f
                == live.frequency_hz
            &&& rot.ozy_command == 2 && rot.current_receiver > 0 && !diversity
                && rot.current_receiver <= live.extra_frequencies_hz@.len() ==> f
                == live.extra_frequencies_hz@[rot.current_receiver - 1]
            &&& rot.ozy_command == 3 && !live.mox ==> r[1] == 0
            &&& rot.ozy_command == 3 && live.mox && !link.is_hermes_lite ==> r[1]
                == live.drive_level
            &&& rot.ozy_command == 3 && link.is_hermes_lite ==> r[2] == (if live.disable_pa {
                0int
            } else {
                8
            }) + (if live.tune_active && !link.is_ozy {
                16int
            } else {
                0
            })
            &&& rot.ozy_command == 3 && !link.is_hermes_lite ==> r[2] == 0
            &&& rot.ozy_command == 4 ==> r[1] == (if live.mic_ptt_enabled {
                0int
            } else {
                0x40
            }) + (if live.mic_bias_enabled {
                0x20int
            } else {
                0
            }) + (if live.mic_ptt_on_tip {
                0x10int
            } else {
                0
            })
            &&& rot.ozy_command == 4 && link.is_hermes_lite && live.rx_attenuation < 64 ==> r[4]
                == 0x40 + live.rx_attenuation
            &&& rot.ozy_command == 4 && !link.is_hermes_lite && live.rx_attenuation < 32 ==> r[4]
                == 0x20 + live.rx_attenuation
            &&& rot.ozy_command == 5 ==> r[3] % 64 == live.cw_keyer.speed_wpm % 64 && r[4]
                == live.cw_keyer.weight % 128
            &&& rot.ozy_command == 5 && link.num_adcs == 2 ==> r[1] == (if live.mox {
                0x3Fint
            } else {
                0x20
            })
            &&& rot.ozy_command == 6 ==> r[3] == live.ps_tx_attenuation % 32
            &&& rot.ozy_command == 6 && link.num_adcs == 2 ==> r[1] % 4 == live.adc % 4
            &&& rot.ozy_command == 7 ==> r[1] == (if cw {
                1int
            } else {
                0
            })
            &&& rot.ozy_command == 10 ==> r[2] == (if live.rx_antenna == 5 {
                2int
            } else {
                0
            }) + (if puresignal {
                0x40int
            } else {
                0
            })
        }),
{
    protocol1::law_general_control(s);
    protocol1::law_frequency_registers(rot, s);
    protocol1::law_drive_and_microphone_registers(rot, s);
    protocol1::law_keyer_and_converter_registers(rot, s);
    if rot.ozy_command == 10 {
        protocol1::law_second_front_end_register(rot, s);
    }
}

/// The antennas, the board and the receivers that a packet is built for are
/// those of the readings, and audio goes along only while not keyed, where
/// it is wanted and, on a HermesLite, where the codec board is fitted.
pub proof fn law_routing_follows_the_readings(
    s: P1Control,
    link: P1Link,
    live: P1Live,
    diversity: bool,
    puresignal: bool,
)
    requires
        is_control(s, link, live, diversity, puresignal),
    ensures
        protocol1::antenna_state(s).rx_antenna == live.rx_antenna,
        protocol1::antenna_state(s).tx_antenna == live.tx_antenna,
        protocol1::antenna_state(s).mox == live.mox,
        protocol1::antenna_state(s).is_orion2 == link.is_orion2,
        protocol1::antenna_state(s).new_pa_board <==> live.new_pa_board && !link.is_ozy,
        s.diversity_enabled == diversity,
        link.ps_wire_total is None && 1 <= live.active_receiver_count <= 255 ==> s.receivers
            == live.active_receiver_count,
        link.ps_wire_total is Some ==> s.receivers == link.ps_wire_total->0,
        s.extra_adcs@ == live.extra_adcs@,
        s.num_adcs == link.num_adcs,
        s.send_rx_audio <==> !live.mox && live.send_rx_audio_to_radio && (!link.is_hermes_lite
            || live.hl2_ak4951_codec),
        live.mox ==> !audio_wanted(link, live),
{
}

/// A restart announces what the packets behind it will say: the same
/// receivers, frequency, rate, attenuation and microphone.
pub proof fn law_restart_announces_the_stream(
    s: P1Control,
    link: P1Link,
    live: P1Live,
    diversity: bool,
    puresignal: bool,
)
    requires
        is_control(s, link, live, diversity, puresignal),
    ensures
        ({
            let c = burst_config(link, live, diversity, puresignal);
            &&& p1_start::preconfig_receivers(c) == s.receivers
            &&& c.frequency_hz == s.frequency_hz
            &&& c.sample_rate == s.sample_rate_hz
            &&& c.is_hermes_lite == s.is_hermes_lite
            &&& c.rx_attenuation == s.rx_attenuation
            &&& c.ps_tx_attenuation == s.ps_tx_attenuation
            &&& c.num_adcs == s.num_adcs
            &&& c.diversity_enabled == s.diversity_enabled
            &&& c.puresignal_enabled == s.puresignal_enabled
            &&& c.mic_ptt_enabled == s.mic_ptt_enabled
            &&& c.mic_bias_enabled == s.mic_bias_enabled
            &&& c.mic_ptt_on_tip == s.mic_ptt_on_tip
        }),
{
}

} // verus!
