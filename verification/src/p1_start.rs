//! Protocol 1: the burst that configures a radio and starts it.
use crate::bytes;
use crate::cw_keyer::CwKeyerValues;
use crate::protocol1::{self, p1_build_packet, P1Control, P1Rotation, TxIqPacer};
use crate::protocol1::{PACKET_SIZE, PACKET_SLOTS, PRE_CONFIG_ROTATIONS};
use vstd::prelude::*;

verus! {

pub const METIS_STOP: u8 = 0x00;

pub const METIS_START: u8 = 0x03;

/// A start or stop request.
pub open spec fn metis_request(command: u8) -> Seq<u8> {
    seq![0xEFu8, 0xFEu8, 0x04u8, command] + bytes::zeros(60)
}

pub fn metis_command(command: u8) -> (p: [u8; 64])
    ensures
        p@ == metis_request(command),
{
    let mut p: [u8; 64] = [0u8; 64];
    p[0] = 0xEF;
    p[1] = 0xFE;
    p[2] = 0x04;
    p[3] = command;
    assert(p@ =~= metis_request(command));
    p
}

/// What the radio is told before it is started.
#[derive(Clone, Copy, Debug, PartialEq, Eq, Structural)]
pub struct P1Preconfig {
    /// Fixed receiver total where PureSignal slots are reserved.
    pub ps_wire_total: Option<u8>,
    /// Receivers to be streamed where no total is fixed.
    pub receivers_fallback: u8,
    pub frequency_hz: u32,
    pub sample_rate: u32,
    pub is_hermes_lite: bool,
    pub rx_attenuation: u8,
    pub ps_tx_attenuation: u8,
    pub num_adcs: u8,
    pub diversity_enabled: bool,
    pub puresignal_enabled: bool,
    pub mic_ptt_enabled: bool,
    pub mic_bias_enabled: bool,
    pub mic_ptt_on_tip: bool,
}

/// Receivers that a preconfigured radio will interleave.
pub open spec fn preconfig_receivers(c: P1Preconfig) -> u8 {
    match c.ps_wire_total {
        Some(n) => n,
        None => c.receivers_fallback,
    }
}

/// `s` holds the preconfiguration `c` and nothing else: not keyed, first
/// antenna, no extra receivers, keyer and outputs off.
pub open spec fn is_preconfig(s: P1Control, c: P1Preconfig) -> bool {
    &&& s.receivers == preconfig_receivers(c)
    &&& s.frequency_hz == c.frequency_hz
    &&& s.tx_frequency_hz == c.frequency_hz
    &&& s.rx_antenna == 0
    &&& s.tx_antenna == 0
    &&& !s.is_orion2
    &&& !s.new_pa_board
    &&& s.drive_level == 0
    &&& s.sample_rate_hz == c.sample_rate
    &&& !s.mox
    &&& s.is_hermes_lite == c.is_hermes_lite
    &&& !s.hl2_ak4951_codec
    &&& !s.disable_pa
    &&& !s.tune_active
    &&& s.cw_keyer == CwKeyerValues {
        mode: 0,
        speed_wpm: 0,
        weight: 0,
        sidetone_volume: 0,
        sidetone_freq_hz: 0,
        hang_time_ms: 0,
    }
    &&& !s.cw_mode_active
    &&& s.oc_rx == 0
    &&& s.oc_tx == 0
    &&& s.rx_attenuation == c.rx_attenuation
    &&& s.ps_tx_attenuation == c.ps_tx_attenuation
    &&& s.num_adcs == c.num_adcs
    &&& s.adc == 0
    &&& s.extra_frequencies_hz@.len() == 0
    &&& s.extra_adcs@.len() == 0
    &&& s.diversity_enabled == c.diversity_enabled
    &&& s.puresignal_enabled == c.puresignal_enabled
    &&& !s.send_rx_audio
    &&& s.mic_ptt_enabled == c.mic_ptt_enabled
    &&& s.mic_bias_enabled == c.mic_bias_enabled
    &&& s.mic_ptt_on_tip == c.mic_ptt_on_tip
}

pub fn preconfig_control(c: &P1Preconfig) -> (s: P1Control)
    ensures
        is_preconfig(s, *c),
{
    P1Control {
        receivers: match c.ps_wire_total {
            Some(n) => n,
            None => c.receivers_fallback,
        },
        frequency_hz: c.frequency_hz,
        tx_frequency_hz: c.frequency_hz,
        rx_antenna: 0,
        tx_antenna: 0,
        is_orion2: false,
        new_pa_board: false,
        drive_level: 0,
        sample_rate_hz: c.sample_rate,
        mox: false,
        is_hermes_lite: c.is_hermes_lite,
        hl2_ak4951_codec: false,
        disable_pa: false,
        tune_active: false,
        cw_keyer: CwKeyerValues {
            mode: 0,
            speed_wpm: 0,
            weight: 0,
            sidetone_volume: 0,
            sidetone_freq_hz: 0,
            hang_time_ms: 0,
        },
        cw_mode_active: false,
        oc_rx: 0,
        oc_tx: 0,
        rx_attenuation: c.rx_attenuation,
        ps_tx_attenuation: c.ps_tx_attenuation,
        num_adcs: c.num_adcs,
        adc: 0,
        extra_frequencies_hz: Vec::new(),
        extra_adcs: Vec::new(),
        diversity_enabled: c.diversity_enabled,
        puresignal_enabled: c.puresignal_enabled,
        send_rx_audio: false,
        mic_ptt_enabled: c.mic_ptt_enabled,
        mic_bias_enabled: c.mic_bias_enabled,
        mic_ptt_on_tip: c.mic_ptt_on_tip,
    }
}

/// Packets in one rotation: ten registers sent once, and the frequency
/// register once for every receiver.
pub open spec fn rotation_length(receivers: u8) -> int {
    10 + protocol1::at_least_one(receivers)
}

/// Position in the rotation after `phase` packets.
pub open spec fn rotation_at(phase: int, receivers: u8) -> P1Rotation {
    let n = protocol1::at_least_one(receivers);
    if phase == 0 {
        P1Rotation { ozy_command: 1, current_receiver: 0 }
    } else if phase <= n {
        P1Rotation { ozy_command: 2, current_receiver: (phase - 1) as u8 }
    } else {
        P1Rotation { ozy_command: (phase - n + 2) as u8, current_receiver: 0 }
    }
}

/// The rotation sends the transmit frequency, then the frequency of each
/// receiver in turn, then each of the other nine registers, and then starts
/// over.
pub proof fn law_rotation_is_complete(phase: int, receivers: u8)
    requires
        0 <= phase < rotation_length(receivers),
    ensures
        protocol1::next_rotation(rotation_at(phase, receivers), receivers) == rotation_at(
            if phase + 1 == rotation_length(receivers) {
                0
            } else {
                phase + 1
            },
            receivers,
        ),
{
}

/// Only the start of a rotation is at its first register.
proof fn lemma_rotation_start(phase: int, receivers: u8)
    requires
        0 <= phase < rotation_length(receivers),
    ensures
        phase == 0 <==> rotation_at(phase, receivers) == (P1Rotation {
            ozy_command: 1,
            current_receiver: 0,
        }),
{
}

/// Packet `i` of the preconfiguration burst.
pub open spec fn preconfig_packet(s: P1Control, i: int) -> Seq<u8> {
    let len = rotation_length(s.receivers);
    protocol1::packet_of(
        i as u32,
        rotation_at(
            if i < len {
                i
            } else {
                i - len
            },
            s.receivers,
        ),
        s,
        bytes::zeros(504),
        bytes::zeros(504),
    )
}

/// `packets` is the configuration burst for `c`.
pub open spec fn is_preconfig_burst(packets: Seq<[u8; PACKET_SIZE]>, c: P1Preconfig) -> bool {
    &&& packets.len() == 2 * rotation_length(preconfig_receivers(c))
    &&& exists|s: P1Control| #[trigger]
        is_preconfig(s, c) && forall|i: int|
            #![trigger packets[i]]
            0 <= i < packets.len() ==> packets[i]@ == preconfig_packet(s, i)
}

/// The burst that precedes a start request: two whole rotations.
pub fn p1_preconfig_packets(c: &P1Preconfig) -> (packets: Vec<[u8; PACKET_SIZE]>)
    ensures
        is_preconfig_burst(packets@, *c),
{
    let s: P1Control = preconfig_control(c);
    let ghost len = rotation_length(s.receivers);
    let no_samples: [i16; 1] = [0];
    let silence: [i16; PACKET_SLOTS] = [0; PACKET_SLOTS];
    let mut packets: Vec<[u8; PACKET_SIZE]> = Vec::new();
    let mut pacer: TxIqPacer = TxIqPacer::new();
    let mut rot: P1Rotation = P1Rotation { ozy_command: 1, current_receiver: 0 };
    let mut seq: u32 = 0;
    let mut rotations: u32 = 0;
    let ghost mut phase: int = 0;
    while rotations < PRE_CONFIG_ROTATIONS
        invariant
            len == rotation_length(s.receivers),
            !s.mox,
            !s.send_rx_audio,
            rotations <= 2,
            pacer.accum == 0,
            0 <= phase < len,
            rotations == 2 ==> phase == 0,
            packets@.len() == (if rotations == 0 {
                phase
            } else if rotations == 1 {
                len + phase
            } else {
                2 * len
            }),
            seq == packets@.len(),
            rot == rotation_at(phase, s.receivers),
            forall|i: int|
                0 <= i < packets@.len() ==> (#[trigger] packets@[i])@ == preconfig_packet(s, i),
        decreases 2 * len - packets@.len(),
    {
        let p: [u8; PACKET_SIZE] = p1_build_packet(
            seq,
            &mut rot,
            &s,
            no_samples.as_slice(),
            &mut pacer,
            1,
            &silence,
        );
        assert(p@ == preconfig_packet(s, packets@.len() as int));
        packets.push(p);
        seq = seq.wrapping_add(1);
        proof {
            law_rotation_is_complete(phase, s.receivers);
            phase = if phase + 1 == len {
                0
            } else {
                phase + 1
            };
            lemma_rotation_start(phase, s.receivers);
        }
        if rot.ozy_command == 1 && rot.current_receiver == 0 {
            rotations = rotations + 1;
        }
    }
    assert(is_preconfig(s, *c));
    packets
}

/// A start or stop request is 64 bytes: the marker, the command, and
/// nothing more. Starting asks for samples and wideband data, stopping for
/// neither.
pub proof fn law_requests(command: u8, i: int)
    ensures
        ({
            let p = metis_request(command);
            &&& p.len() == 64
            &&& p[0] == 0xEF && p[1] == 0xFE && p[2] == 0x04 && p[3] == command
            &&& 4 <= i < 64 ==> p[i] == 0
        }),
        METIS_START == 3 && METIS_STOP == 0,
{
}

/// The configuration goes to the radio before it is started: both
/// transmitter and receivers at the wanted frequency, the rate, the number
/// of receivers, diversity, and the attenuation; nothing keyed, no drive,
/// the first antenna.
pub proof fn law_configuration_reaches_the_radio(
    s: P1Control,
    c: P1Preconfig,
    rot: P1Rotation,
)
    requires
        is_preconfig(s, c),
    ensures
        ({
            let g = protocol1::general_control(s);
            let r = protocol1::register(rot, s);
            let f = r[1] * 0x100_0000 + r[2] * 0x1_0000 + r[3] * 0x100 + r[4];
            let n = match c.ps_wire_total {
                Some(n) => n,
                None => c.receivers_fallback,
            };
            &&& g[0] == 0 && g[2] == 0 && g[3] == 0
            &&& g[1] == 1 <==> c.sample_rate == 96_000
            &&& g[1] == 2 <==> c.sample_rate == 192_000
            &&& g[1] == 3 <==> c.sample_rate == 384_000
            &&& 1 <= n <= 16 ==> g[4] == 4 + 8 * (n - 1) + (if c.diversity_enabled {
                128int
            } else {
                0
            })
            &&& rot.ozy_command == 1 || rot.ozy_command == 2 ==> f == c.frequency_hz
            &&& rot.ozy_command == 3 ==> r[1] == 0
            &&& rot.ozy_command == 4 && c.is_hermes_lite && c.rx_attenuation < 64 ==> r[4] == 0x40
                + c.rx_attenuation
            &&& rot.ozy_command == 4 && !c.is_hermes_lite && c.rx_attenuation < 32 ==> r[4] == 0x20
                + c.rx_attenuation
            &&& rot.ozy_command == 4 ==> r[1] == (if c.mic_ptt_enabled {
                0int
            } else {
                0x40
            }) + (if c.mic_bias_enabled {
                0x20int
            } else {
                0
            }) + (if c.mic_ptt_on_tip {
                0x10int
            } else {
                0
            })
            &&& rot.ozy_command == 5 ==> r[1] == (if c.num_adcs == 2 {
                0x20int
            } else {
                0
            }) && r[3] == 0 && r[4] == 0
            &&& rot.ozy_command == 6 ==> r[3] == c.ps_tx_attenuation % 32
            &&& rot.ozy_command == 6 && c.num_adcs == 2 ==> r[1] == (if c.diversity_enabled {
                4int
            } else {
                0
            })
            &&& rot.ozy_command == 7 ==> r[1] == 0 && r[2] == 0
            &&& rot.ozy_command == 10 ==> r[2] == (if c.puresignal_enabled {
                0x40int
            } else {
                0
            })
        }),
{
    protocol1::law_general_control(s);
    protocol1::law_frequency_registers(rot, s);
    protocol1::law_drive_and_microphone_registers(rot, s);
    protocol1::law_keyer_and_converter_registers(rot, s);
    if rot.ozy_command == 10 {
        protocol1::law_second_front_end_register(rot, s);
    }
}

/// The burst is two rotations, numbered from 0 on, each beginning with the
/// transmitter's register and going through the receivers' frequencies to
/// the others, with empty slots.
pub proof fn law_burst(s: P1Control, i: int)
    requires
        s.receivers >= 1,
        0 <= i < 2 * (10 + s.receivers),
    ensures
        ({
            let len = 10 + s.receivers;
            let k = i % len;
            let rot = if k == 0 {
                P1Rotation { ozy_command: 1, current_receiver: 0 }
            } else if k <= s.receivers {
                P1Rotation { ozy_command: 2, current_receiver: (k - 1) as u8 }
            } else {
                P1Rotation { ozy_command: (k - s.receivers + 2) as u8, current_receiver: 0 }
            };
            preconfig_packet(s, i) == protocol1::packet_of(
                i as u32,
                rot,
                s,
                Seq::new(504, |j: int| 0u8),
                Seq::new(504, |j: int| 0u8),
            )
        }),
        rotation_length(s.receivers) == 10 + s.receivers,
{
    let len = 10 + s.receivers;
    if i < len {
        vstd::arithmetic::div_mod::lemma_small_mod(i as nat, len as nat);
    } else {
        assert(i % len == i - len) by {
            vstd::arithmetic::div_mod::lemma_mod_add_multiples_vanish(i - len, len);
            vstd::arithmetic::div_mod::lemma_small_mod((i - len) as nat, len as nat);
        }
    }
    assert(bytes::zeros(504) =~= Seq::new(504, |j: int| 0u8));
}

/// Every packet of a burst has its number, the packet's marker and both
/// sync patterns, and the first of each rotation tunes the transmitter; the
/// burst is two rotations of the receivers that were announced.
pub proof fn law_burst_packets(packets: Seq<[u8; PACKET_SIZE]>, c: P1Preconfig, i: int)
    requires
        is_preconfig_burst(packets, c),
        0 <= i < packets.len(),
    ensures
        ({
            let n = match c.ps_wire_total {
                Some(n) => n,
                None => c.receivers_fallback,
            };
            let len = if n == 0 {
                11
            } else {
                10 + n
            };
            let p = packets[i]@;
            let f = p[524] * 0x100_0000 + p[525] * 0x1_0000 + p[526] * 0x100 + p[527];
            &&& packets.len() == 2 * len
            &&& p[0] == 0xEF && p[1] == 0xFE && p[2] == 0x01 && p[3] == 0x02
            &&& p[4] * 0x100_0000 + p[5] * 0x1_0000 + p[6] * 0x100 + p[7] == i
            &&& p[8] == 0x7F && p[520] == 0x7F
            &&& p[11] == 0
            &&& i == 0 || i == len ==> p[523] == 0x02 && f == c.frequency_hz
            &&& i == 1 || i == len + 1 ==> p[523] == 0x04 && f == c.frequency_hz
        }),
{
    let s = choose|s: P1Control| #[trigger]
        is_preconfig(s, c) && forall|i: int|
            #![trigger packets[i]]
            0 <= i < packets.len() ==> packets[i]@ == preconfig_packet(s, i);
    let len = rotation_length(s.receivers);
    let rot = rotation_at(
        if i < len {
            i
        } else {
            i - len
        },
        s.receivers,
    );
    assert(packets[i]@ == preconfig_packet(s, i));
    protocol1::law_packet_layout(i as u32, rot, s, bytes::zeros(504), bytes::zeros(504));
    protocol1::law_frequency_registers(rot, s);
    law_configuration_reaches_the_radio(s, c, rot);
}

} // verus!
