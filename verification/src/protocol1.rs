//! Protocol 1: the packets that a host sends to a Metis or Hermes class
//! radio. Every packet holds two USB frames. The first always carries the
//! general control register, the second one register of a rotation.
use crate::alex::{
    self, antenna_connector, rx_filter, AntennaState, RxFilter, ANTENNA_EXT1, ANTENNA_EXT2,
    ANTENNA_XVTR,
};
use crate::bytes::{self, be32_bytes, high_byte, i16_bits, low_byte, put_be32, put_bytes};
use crate::cw_keyer::{self, CwKeyerValues};
use vstd::prelude::*;

verus! {

pub const DATA_PORT: u16 = 1024;

pub const USB_FRAME_SIZE: usize = 512;

pub const HEADER_SIZE: usize = 8;

pub const PACKET_SIZE: usize = 1032;

/// Eight-byte sample slots in one frame and in one packet.
pub const FRAME_SLOTS: usize = 63;

pub const PACKET_SLOTS: usize = 126;

/// Packets go out at the rate at which their slots fill at 48 kHz.
pub const PACKET_INTERVAL_NS: u64 = 2_625_000;

pub const EP_COMMAND_AUDIO: u8 = 0x02;

pub const EP_IQ_DATA: u8 = 0x06;

/// Register rotations sent before the radio is started.
pub const PRE_CONFIG_ROTATIONS: u32 = 2;

/// Everything that the bytes of one packet are built from.
#[derive(Debug)]
pub struct P1Control {
    /// Receivers that the radio interleaves into its stream.
    pub receivers: u8,
    pub frequency_hz: u32,
    pub tx_frequency_hz: u32,
    pub rx_antenna: u32,
    pub tx_antenna: u32,
    pub is_orion2: bool,
    pub new_pa_board: bool,
    /// Drive wanted while keyed, before any board-specific quantising.
    pub drive_level: u8,
    pub sample_rate_hz: u32,
    pub mox: bool,
    pub is_hermes_lite: bool,
    pub hl2_ak4951_codec: bool,
    pub disable_pa: bool,
    pub tune_active: bool,
    pub cw_keyer: CwKeyerValues,
    pub cw_mode_active: bool,
    /// Open-collector masks while receiving and while keyed.
    pub oc_rx: u8,
    pub oc_tx: u8,
    pub rx_attenuation: u8,
    pub ps_tx_attenuation: u8,
    pub num_adcs: u8,
    /// Converter that the first receiver uses.
    pub adc: u32,
    /// Frequencies and converters of the receivers after the first.
    pub extra_frequencies_hz: Vec<u32>,
    pub extra_adcs: Vec<u32>,
    pub diversity_enabled: bool,
    pub puresignal_enabled: bool,
    pub send_rx_audio: bool,
    pub mic_ptt_enabled: bool,
    pub mic_bias_enabled: bool,
    pub mic_ptt_on_tip: bool,
}

/// Position in the register rotation.
#[derive(Clone, Copy, Debug, PartialEq, Eq, Structural)]
pub struct P1Rotation {
    pub ozy_command: u8,
    pub current_receiver: u8,
}

/// Pacing of the transmit samples: how many slots have passed since the
/// last sample pair was taken, and the pair that is being repeated.
#[derive(Clone, Copy, Debug, PartialEq, Eq, Structural)]
pub struct TxIqPacer {
    pub accum: u32,
    pub held_i: i16,
    pub held_q: i16,
}

impl TxIqPacer {
    pub fn new() -> (p: Self)
        ensures
            p == (TxIqPacer { accum: 0, held_i: 0, held_q: 0 }),
    {
        TxIqPacer { accum: 0, held_i: 0, held_q: 0 }
    }
}

pub open spec fn at_least_one(n: u8) -> u8 {
    if n == 0 {
        1
    } else {
        n
    }
}

// ---------------------------------------------------------------------
// Registers
// ---------------------------------------------------------------------

pub open spec fn rate_code(rate: u32) -> u8 {
    if rate == 96_000 {
        1
    } else if rate == 192_000 {
        2
    } else if rate == 384_000 {
        3
    } else {
        0
    }
}

/// The two-bit code of a sample rate; rates the protocol has no code for
/// fall back to that of 48 kHz.
pub fn sample_rate_code(rate: u32) -> (c: u8)
    ensures
        c == rate_code(rate),
{
    match rate {
        48_000 => 0x00,
        96_000 => 0x01,
        192_000 => 0x02,
        384_000 => 0x03,
        _ => 0x00,
    }
}

pub open spec fn antenna_state(s: P1Control) -> AntennaState {
    AntennaState {
        rx_antenna: s.rx_antenna,
        tx_antenna: s.tx_antenna,
        mox: s.mox,
        is_orion2: s.is_orion2,
        new_pa_board: s.new_pa_board,
    }
}

/// Routing of an auxiliary input in the general control register.
pub open spec fn aux_byte(a: AntennaState) -> u8 {
    let bypass = if a.is_orion2 || a.new_pa_board {
        0u8
    } else {
        0x80u8
    };
    if alex::port_in_use(a) == ANTENNA_EXT1 || (alex::port_in_use(a) == ANTENNA_EXT2 && a.is_orion2) {
        0x40u8 | bypass
    } else if alex::port_in_use(a) == ANTENNA_EXT2 {
        0x20u8 | bypass
    } else if alex::port_in_use(a) == ANTENNA_XVTR {
        0x60u8 | bypass
    } else {
        0u8
    }
}

/// Relay position in the general control register; 3 disconnects all three.
pub open spec fn connector_code(c: Option<u32>) -> u8 {
    match c {
        None => 3u8,
        Some(n) => n as u8,
    }
}

pub open spec fn mox_bit(mox: bool) -> u8 {
    if mox {
        1
    } else {
        0
    }
}

/// The general control register: sample rate, open-collector outputs,
/// antenna routing, receiver count, duplex and the diversity lock.
pub open spec fn general_control(s: P1Control) -> Seq<u8> {
    let a = antenna_state(s);
    let oc = if s.mox {
        s.oc_tx
    } else {
        s.oc_rx
    };
    seq![
        mox_bit(s.mox),
        rate_code(s.sample_rate_hz),
        ((oc % 128) * 2) as u8,
        aux_byte(a),
        0x04u8 | connector_code(alex::main_connector(a)) | ((((at_least_one(s.receivers) - 1) % 32)
            * 8) as u8) | (if s.diversity_enabled {
            0x80u8
        } else {
            0u8
        }),
    ]
}

/// Frequency that receiver `rx` is tuned to. The second receiver follows
/// the first while diversity is on.
pub open spec fn rx_frequency(rx: u8, s: P1Control) -> u32 {
    if rx == 0 || (s.diversity_enabled && rx == 1) || rx - 1 >= s.extra_frequencies_hz@.len() {
        s.frequency_hz
    } else {
        s.extra_frequencies_hz@[rx - 1]
    }
}

/// Hardware attenuator step of a HermesLite for a drive level, and the
/// amplitude factor per level count that goes with it, in ten-millionths.
pub open spec fn hl2_drive(level: u8) -> (u8, u32) {
    if level > 240 {
        (240, 39_215)
    } else if level > 227 {
        (224, 41_539)
    } else if level > 214 {
        (208, 44_000)
    } else if level > 202 {
        (192, 46_607)
    } else if level > 191 {
        (176, 49_369)
    } else if level > 180 {
        (160, 52_295)
    } else if level > 170 {
        (144, 55_393)
    } else if level > 160 {
        (128, 58_675)
    } else if level > 151 {
        (112, 62_152)
    } else if level > 143 {
        (96, 65_835)
    } else if level > 135 {
        (80, 69_736)
    } else if level > 127 {
        (64, 73_868)
    } else if level > 120 {
        (48, 78_245)
    } else if level > 113 {
        (32, 82_881)
    } else if level > 107 {
        (16, 87_793)
    } else {
        (0, 92_995)
    }
}

/// Drive byte on the wire: nothing unless keyed.
pub open spec fn drive_byte(s: P1Control) -> u8 {
    if !s.mox {
        0
    } else if s.is_hermes_lite {
        hl2_drive(s.drive_level).0
    } else {
        s.drive_level
    }
}

pub open spec fn flag(on: bool, bit: u8) -> u8 {
    if on {
        bit
    } else {
        0
    }
}

/// Converter that receiver `rx` is fed from, modulo four.
pub open spec fn adc_of(rx: int, s: P1Control) -> int {
    if rx == 0 {
        (s.adc % 4) as int
    } else if s.diversity_enabled && rx == 1 {
        1
    } else if rx - 1 < s.extra_adcs@.len() {
        (s.extra_adcs@[rx - 1] % 4) as int
    } else {
        0
    }
}

/// Two bits of converter number for each of the first four receivers.
pub open spec fn adc_byte(s: P1Control) -> u8 {
    if s.num_adcs == 2 {
        (adc_of(0, s) + 4 * adc_of(1, s) + 16 * adc_of(2, s) + 64 * adc_of(3, s)) as u8
    } else {
        0
    }
}

/// Frequency that decides the second front end's filter.
pub open spec fn rx2_filter_frequency(s: P1Control) -> u32 {
    if s.diversity_enabled || s.adc == 1 || s.extra_frequencies_hz@.len() == 0 {
        s.frequency_hz
    } else {
        s.extra_frequencies_hz@[0]
    }
}

pub open spec fn bpf2_bit(f: RxFilter) -> u8 {
    match f {
        RxFilter::Bypass => 0x20,
        RxFilter::M160 => 0x10,
        RxFilter::M80M60 => 0x08,
        RxFilter::M40M30 => 0x04,
        RxFilter::M20M15 => 0x01,
        RxFilter::M12M10 => 0x02,
        RxFilter::M6 => 0x40,
    }
}

pub open spec fn capped(n: u32, max: u32) -> u32 {
    if n < max {
        n
    } else {
        max
    }
}

/// The five bytes of the register that position `rot` of the rotation
/// sends, without the key bit.
pub open spec fn register(rot: P1Rotation, s: P1Control) -> Seq<u8> {
    let cw = s.cw_keyer;
    if rot.ozy_command == 1 {
        seq![0x02u8] + bytes::be32(s.tx_frequency_hz)
    } else if rot.ozy_command == 2 {
        seq![((4 + 2 * rot.current_receiver) % 256) as u8] + bytes::be32(
            rx_frequency(rot.current_receiver, s),
        )
    } else if rot.ozy_command == 3 {
        seq![
            0x12u8,
            drive_byte(s),
            flag(s.is_hermes_lite && !s.disable_pa, 0x08) | flag(
                s.is_hermes_lite && s.tune_active,
                0x10,
            ),
            0u8,
            0u8,
        ]
    } else if rot.ozy_command == 4 {
        seq![
            0x14u8,
            flag(!s.mic_ptt_enabled, 0x40) | flag(s.mic_bias_enabled, 0x20) | flag(
                s.mic_ptt_on_tip,
                0x10,
            ),
            0u8,
            flag(s.is_hermes_lite && s.hl2_ak4951_codec, 0x08),
            if s.is_hermes_lite {
                (0x40 + s.rx_attenuation % 64) as u8
            } else {
                (0x20 + s.rx_attenuation % 32) as u8
            },
        ]
    } else if rot.ozy_command == 5 {
        seq![
            0x16u8,
            if s.num_adcs != 2 {
                0u8
            } else if s.mox {
                0x3Fu8
            } else {
                0x20u8
            },
            0u8,
            (cw.speed_wpm % 64 + 64 * (cw.mode % 4)) as u8,
            (cw.weight % 128) as u8,
        ]
    } else if rot.ozy_command == 6 {
        seq![0x1Cu8, adc_byte(s), 0u8, (s.ps_tx_attenuation % 32) as u8, 0u8]
    } else if rot.ozy_command == 7 {
        seq![
            0x1Eu8,
            flag(s.cw_mode_active && !s.tune_active, 0x01),
            capped(cw.sidetone_volume, 127) as u8,
            cw_keyer::ptt_delay(cw.speed_wpm) as u8,
            0u8,
        ]
    } else if rot.ozy_command == 8 {
        let hang = capped(cw.hang_time_ms, 1023);
        let tone = capped(cw.sidetone_freq_hz, 4095);
        seq![
            0x20u8,
            (hang / 4) as u8,
            (hang % 4) as u8,
            (tone / 16) as u8,
            (tone % 16) as u8,
        ]
    } else if rot.ozy_command == 9 {
        seq![0x22u8, 0x19u8, 0u8, 0xC8u8, 0u8]
    } else if rot.ozy_command == 10 {
        seq![
            0x24u8,
            (if s.num_adcs == 2 {
                bpf2_bit(alex::rx_filter_for(rx2_filter_frequency(s)))
            } else {
                0u8
            }) | flag(s.mox, 0x80),
            flag(s.rx_antenna == ANTENNA_XVTR, 0x02) | flag(s.puresignal_enabled, 0x40),
            0u8,
            0u8,
        ]
    } else {
        seq![0x2Eu8, 0u8, 0u8, 0x04u8, 0x15u8]
    }
}

/// The position that follows `rot`: the frequency register is repeated for
/// every receiver, every other register is sent once.
pub open spec fn next_rotation(rot: P1Rotation, receivers: u8) -> P1Rotation {
    let rx = if rot.ozy_command != 2 {
        rot.current_receiver
    } else if rot.current_receiver + 1 >= at_least_one(receivers) || rot.current_receiver == 255 {
        0u8
    } else {
        (rot.current_receiver + 1) as u8
    };
    P1Rotation {
        ozy_command: if rx != 0 {
            rot.ozy_command
        } else if rot.ozy_command >= 11 {
            1u8
        } else {
            (rot.ozy_command + 1) as u8
        },
        current_receiver: rx,
    }
}

// ---------------------------------------------------------------------
// Frames
// ---------------------------------------------------------------------

/// A frame: three sync bytes, five control bytes and the sample slots.
pub open spec fn frame(control: Seq<u8>, body: Seq<u8>) -> Seq<u8> {
    seq![0x7Fu8, 0x7Fu8, 0x7Fu8] + control + body
}

/// A slot while keyed: four idle bytes, then one sample pair.
pub open spec fn tx_slot(pair: (i16, i16)) -> Seq<u8> {
    bytes::zeros(4) + bytes::be16_signed(pair.0) + bytes::be16_signed(pair.1)
}

/// A slot while receiving: one audio sample for both ears, then no
/// transmit samples.
pub open spec fn audio_slot(sample: i16) -> Seq<u8> {
    bytes::be16_signed(sample) + bytes::be16_signed(sample) + bytes::zeros(4)
}

pub open spec fn sample_or_silence(samples: Seq<i16>, at: int) -> i16 {
    if 0 <= at < samples.len() {
        samples[at]
    } else {
        0
    }
}

/// The sample pair in slot `k`, counted from where `pacer` stands, with
/// sample `from` the next to be taken. A new pair is taken every
/// `slots_per_sample` slots, and silence where the samples run out.
pub open spec fn tx_pair(
    samples: Seq<i16>,
    from: int,
    pacer: TxIqPacer,
    slots_per_sample: u32,
    k: int,
) -> (i16, i16) {
    let taken = (pacer.accum + k + 1) / slots_per_sample as int;
    if taken == 0 {
        (pacer.held_i, pacer.held_q)
    } else {
        (
            sample_or_silence(samples, from + 2 * (taken - 1)),
            sample_or_silence(samples, from + 2 * (taken - 1) + 1),
        )
    }
}

/// Slots `first` up to `first + 63` of the transmit samples.
pub open spec fn tx_body(
    samples: Seq<i16>,
    from: int,
    pacer: TxIqPacer,
    slots_per_sample: u32,
    first: int,
) -> Seq<u8> {
    Seq::new(
        504,
        |j: int| tx_slot(tx_pair(samples, from, pacer, slots_per_sample, first + j / 8))[j % 8],
    )
}

/// Slots `first` up to `first + 63` of the receive audio.
pub open spec fn audio_body(audio: Seq<i16>, first: int) -> Seq<u8> {
    Seq::new(504, |j: int| audio_slot(audio[first + j / 8])[j % 8])
}

/// Builds one frame with empty slots.
pub fn build_usb_frame(c0: u8, c1: u8, c2: u8, c3: u8, c4: u8) -> (f: [u8; USB_FRAME_SIZE])
    ensures
        f@ == frame(seq![c0, c1, c2, c3, c4], bytes::zeros(504)),
{
    let mut f: [u8; USB_FRAME_SIZE] = [0u8; USB_FRAME_SIZE];
    f[0] = 0x7F;
    f[1] = 0x7F;
    f[2] = 0x7F;
    f[3] = c0;
    f[4] = c1;
    f[5] = c2;
    f[6] = c3;
    f[7] = c4;
    assert(f@ =~= frame(seq![c0, c1, c2, c3, c4], bytes::zeros(504)));
    f
}

/// The pacer after a run of slots.
pub open spec fn pacer_after(
    samples: Seq<i16>,
    from: int,
    pacer: TxIqPacer,
    slots_per_sample: u32,
    slots: int,
) -> TxIqPacer {
    TxIqPacer {
        accum: ((pacer.accum + slots) % slots_per_sample as int) as u32,
        held_i: if slots == 0 {
            pacer.held_i
        } else {
            tx_pair(samples, from, pacer, slots_per_sample, slots - 1).0
        },
        held_q: if slots == 0 {
            pacer.held_q
        } else {
            tx_pair(samples, from, pacer, slots_per_sample, slots - 1).1
        },
    }
}

/// How many samples a run of slots takes.
pub open spec fn tx_samples_taken(pacer: TxIqPacer, slots_per_sample: u32, slots: int) -> int {
    2 * ((pacer.accum + slots) / slots_per_sample as int)
}

/// How many samples a packet will take, so that a caller knows how many to
/// draw from its queue beforehand.
pub fn tx_samples_due(pacer: &TxIqPacer, slots_per_sample: u32) -> (n: usize)
    requires
        pacer.accum < slots_per_sample,
    ensures
        n == tx_samples_taken(*pacer, slots_per_sample, PACKET_SLOTS as int),
{
    let passed: u64 = pacer.accum as u64 + PACKET_SLOTS as u64;
    proof {
        vstd::arithmetic::div_mod::lemma_fundamental_div_mod(
            passed as int,
            slots_per_sample as int,
        );
        assert(passed as int / slots_per_sample as int <= 126) by (nonlinear_arith)
            requires
                passed < slots_per_sample + 126,
                slots_per_sample >= 1,
                passed == slots_per_sample * (passed as int / slots_per_sample as int) + passed as int
                    % slots_per_sample as int,
                passed as int % slots_per_sample as int >= 0,
        ;
    }
    2 * ((passed / slots_per_sample as u64) as usize)
}

/// A run of slots that is continued after `slots` slots goes on as the
/// uninterrupted run would.
proof fn lemma_tx_pair_continues(
    samples: Seq<i16>,
    pacer: TxIqPacer,
    slots_per_sample: u32,
    slots: int,
    k: int,
)
    requires
        pacer.accum < slots_per_sample,
        slots >= 1,
        k >= 0,
    ensures
        tx_pair(
            samples,
            tx_samples_taken(pacer, slots_per_sample, slots),
            pacer_after(samples, 0, pacer, slots_per_sample, slots),
            slots_per_sample,
            k,
        ) == tx_pair(samples, 0, pacer, slots_per_sample, slots + k),
{
    let d = slots_per_sample as int;
    let a = pacer.accum + slots;
    vstd::arithmetic::div_mod::lemma_fundamental_div_mod(a, d);
    let r = a % d;
    vstd::arithmetic::div_mod::lemma_mod_bound(a, d);
    vstd::arithmetic::div_mod::lemma_hoist_over_denominator(r + k + 1, a / d, d as nat);
    assert(d * (a / d) == (a / d) * d) by (nonlinear_arith);
    assert((a + k + 1) / d == a / d + (r + k + 1) / d);
    vstd::arithmetic::div_mod::lemma_div_pos_is_pos(r + k + 1, d);
    vstd::arithmetic::div_mod::lemma_div_pos_is_pos(a, d);
}

/// Writes one transmit slot of a frame: no audio and a sample pair.
fn put_tx_slot(f: &mut [u8; USB_FRAME_SIZE], k: usize, held_i: i16, held_q: i16)
    requires
        k < FRAME_SLOTS,
    ensures
        forall|j: int|
            0 <= j < 512 ==> #[trigger] final(f)@[j] == (if 8 + 8 * k <= j < 16 + 8 * k {
                tx_slot((held_i, held_q))[j - 8 - 8 * k]
            } else {
                old(f)@[j]
            }),
{
    let i: u16 = i16_bits(held_i);
    let q: u16 = i16_bits(held_q);
    let b: usize = 8 + 8 * k;
    f[b] = 0;
    f[b + 1] = 0;
    f[b + 2] = 0;
    f[b + 3] = 0;
    f[b + 4] = high_byte(i);
    f[b + 5] = low_byte(i);
    f[b + 6] = high_byte(q);
    f[b + 7] = low_byte(q);
}

/// Fills the slots of a frame with transmit samples, starting with sample
/// `from`, and returns the sample that the next frame starts with.
pub fn fill_tx_payload(
    f: &mut [u8; USB_FRAME_SIZE],
    samples: &[i16],
    from: usize,
    pacer: &mut TxIqPacer,
    slots_per_sample: u32,
) -> (next: usize)
    requires
        old(pacer).accum < slots_per_sample,
        from + 2 * FRAME_SLOTS <= usize::MAX,
    ensures
        final(f)@ == old(f)@.take(8) + tx_body(
            samples@,
            from as int,
            *old(pacer),
            slots_per_sample,
            0,
        ),
        *final(pacer) == pacer_after(
            samples@,
            from as int,
            *old(pacer),
            slots_per_sample,
            FRAME_SLOTS as int,
        ),
        final(pacer).accum < slots_per_sample,
        next == from + tx_samples_taken(*old(pacer), slots_per_sample, FRAME_SLOTS as int),
        next <= from + 2 * FRAME_SLOTS,
{
    let ghost start = *pacer;
    let ghost f0 = f@;
    let d: Ghost<int> = Ghost(slots_per_sample as int);
    let mut next: usize = from;
    let mut taken: Ghost<int> = Ghost(0);
    for k in 0..FRAME_SLOTS
        invariant
            d@ == slots_per_sample,
            start == *old(pacer),
            start.accum < slots_per_sample,
            pacer.accum < slots_per_sample,
            from + 2 * FRAME_SLOTS <= usize::MAX,
            f0.len() == 512,
            f@.len() == 512,
            start.accum + k == taken@ * d@ + pacer.accum,
            taken@ >= 0,
            taken@ <= k,
            next == from + 2 * taken@,
            taken@ == 0 ==> pacer.held_i == start.held_i && pacer.held_q == start.held_q,
            k > 0 ==> (pacer.held_i, pacer.held_q) == tx_pair(
                samples@,
                from as int,
                start,
                slots_per_sample,
                k - 1,
            ),
            taken@ > 0 ==> pacer.held_i == sample_or_silence(samples@, next - 2),
            taken@ > 0 ==> pacer.held_q == sample_or_silence(samples@, next - 1),
            forall|j: int| 0 <= j < 8 ==> f@[j] == f0[j],
            forall|j: int|
                8 <= j < 8 + 8 * k ==> f@[j] == tx_slot(
                    tx_pair(samples@, from as int, start, slots_per_sample, (j - 8) / 8),
                )[(j - 8) % 8],
    {
        let ghost before = taken@;
        pacer.accum = pacer.accum + 1;
        if pacer.accum >= slots_per_sample {
            pacer.accum = 0;
            pacer.held_i = if next < samples.len() {
                samples[next]
            } else {
                0
            };
            pacer.held_q = if next + 1 < samples.len() {
                samples[next + 1]
            } else {
                0
            };
            next = next + 2;
            proof {
                taken@ = taken@ + 1;
                assert((before + 1) * d@ == before * d@ + d@) by (nonlinear_arith);
            }
        }
        proof {
            vstd::arithmetic::div_mod::lemma_fundamental_div_mod_converse(
                start.accum + k + 1,
                d@,
                taken@,
                pacer.accum as int,
            );
            assert((pacer.held_i, pacer.held_q) == tx_pair(
                samples@,
                from as int,
                start,
                slots_per_sample,
                k as int,
            ));
        }
        let ghost filled = f@;
        put_tx_slot(f, k, pacer.held_i, pacer.held_q);
        assert forall|j: int| 8 <= j < 8 + 8 * (k + 1) implies f@[j] == tx_slot(
            tx_pair(samples@, from as int, start, slots_per_sample, (j - 8) / 8),
        )[(j - 8) % 8] by {
            if j >= 8 + 8 * k {
                assert((j - 8) / 8 == k);
                assert((j - 8) % 8 == j - 8 - 8 * k);
            } else {
                assert(f@[j] == filled[j]);
            }
        }
    }
    proof {
        vstd::arithmetic::div_mod::lemma_fundamental_div_mod_converse(
            start.accum + 63,
            d@,
            taken@,
            pacer.accum as int,
        );
        assert(f@ =~= f0.take(8) + tx_body(samples@, from as int, start, slots_per_sample, 0));
    }
    next
}

/// Fills the slots of a frame with receive audio.
pub fn fill_rx_audio_payload(f: &mut [u8; USB_FRAME_SIZE], audio: &[i16; PACKET_SLOTS], first: usize)
    requires
        first + FRAME_SLOTS <= PACKET_SLOTS,
    ensures
        final(f)@ == old(f)@.take(8) + audio_body(audio@, first as int),
{
    let ghost f0 = f@;
    for k in 0..FRAME_SLOTS
        invariant
            first + FRAME_SLOTS <= PACKET_SLOTS,
            f0.len() == 512,
            f@.len() == 512,
            audio@.len() == PACKET_SLOTS,
            forall|j: int| 0 <= j < 8 ==> f@[j] == f0[j],
            forall|j: int|
                8 <= j < 8 + 8 * k ==> f@[j] == audio_slot(audio@[first + (j - 8) / 8])[(j - 8)
                    % 8],
    {
        let s: u16 = i16_bits(audio[first + k]);
        let b: usize = 8 + 8 * k;
        f[b] = high_byte(s);
        f[b + 1] = low_byte(s);
        f[b + 2] = high_byte(s);
        f[b + 3] = low_byte(s);
        f[b + 4] = 0;
        f[b + 5] = 0;
        f[b + 6] = 0;
        f[b + 7] = 0;
        assert forall|j: int| 8 <= j < 8 + 8 * (k + 1) implies f@[j] == audio_slot(
            audio@[first + (j - 8) / 8],
        )[(j - 8) % 8] by {
            if j >= 8 + 8 * k {
                assert((j - 8) / 8 == k);
                let t = audio_slot(audio@[first + k]);
                assert(f@[j] == t[j - 8 - 8 * k]);
            }
        }
    }
    assert(f@ =~= f0.take(8) + audio_body(audio@, first as int));
}

// ---------------------------------------------------------------------
// Packets
// ---------------------------------------------------------------------

/// The control bytes of a register with the key bit added.
pub open spec fn keyed(r: Seq<u8>, mox: bool) -> Seq<u8> {
    r.update(0, r[0] | mox_bit(mox))
}

/// A packet: header with sequence number, then the general control frame
/// and the frame of the register at position `rot`.
pub open spec fn packet_of(
    seq: u32,
    rot: P1Rotation,
    s: P1Control,
    body0: Seq<u8>,
    body1: Seq<u8>,
) -> Seq<u8> {
    seq![0xEFu8, 0xFEu8, 0x01u8, EP_COMMAND_AUDIO] + bytes::be32(seq) + frame(
        general_control(s),
        body0,
    ) + frame(keyed(register(rot, s), s.mox), body1)
}

/// What the slots from `first` on carry: transmit samples while keyed, else
/// receive audio where that is wanted, else nothing.
pub open spec fn slot_body(
    s: P1Control,
    samples: Seq<i16>,
    pacer: TxIqPacer,
    slots_per_sample: u32,
    audio: Seq<i16>,
    first: int,
) -> Seq<u8> {
    if s.mox {
        tx_body(samples, 0, pacer, slots_per_sample, first)
    } else if s.send_rx_audio {
        audio_body(audio, first)
    } else {
        bytes::zeros(504)
    }
}

/// Splits a HermesLite drive level into its attenuator step and the
/// amplitude factor per count, in ten-millionths.
pub fn hl2_drive_level_and_scale(level: u8) -> (r: (u8, u32))
    ensures
        r == hl2_drive(level),
{
    if level > 240 {
        (240, 39_215)
    } else if level > 227 {
        (224, 41_539)
    } else if level > 214 {
        (208, 44_000)
    } else if level > 202 {
        (192, 46_607)
    } else if level > 191 {
        (176, 49_369)
    } else if level > 180 {
        (160, 52_295)
    } else if level > 170 {
        (144, 55_393)
    } else if level > 160 {
        (128, 58_675)
    } else if level > 151 {
        (112, 62_152)
    } else if level > 143 {
        (96, 65_835)
    } else if level > 135 {
        (80, 69_736)
    } else if level > 127 {
        (64, 73_868)
    } else if level > 120 {
        (48, 78_245)
    } else if level > 113 {
        (32, 82_881)
    } else if level > 107 {
        (16, 87_793)
    } else {
        (0, 92_995)
    }
}

fn flag_bit(on: bool, bit: u8) -> (b: u8)
    ensures
        b == flag(on, bit),
{
    if on {
        bit
    } else {
        0
    }
}

fn min_u32(n: u32, max: u32) -> (m: u32)
    ensures
        m == capped(n, max),
{
    if n < max {
        n
    } else {
        max
    }
}

fn antenna_state_of(s: &P1Control) -> (a: AntennaState)
    ensures
        a == antenna_state(*s),
{
    AntennaState {
        rx_antenna: s.rx_antenna,
        tx_antenna: s.tx_antenna,
        mox: s.mox,
        is_orion2: s.is_orion2,
        new_pa_board: s.new_pa_board,
    }
}

/// The general control register.
pub fn general_control_bytes(s: &P1Control) -> (r: [u8; 5])
    ensures
        r@ == general_control(*s),
{
    let a: AntennaState = antenna_state_of(s);
    let oc: u8 = if s.mox {
        s.oc_tx
    } else {
        s.oc_rx
    };
    let port: u32 = if s.mox {
        s.tx_antenna
    } else {
        s.rx_antenna
    };
    let bypass: u8 = if s.is_orion2 || s.new_pa_board {
        0
    } else {
        0x80
    };
    let c3: u8 = if port == ANTENNA_EXT1 || (port == ANTENNA_EXT2 && s.is_orion2) {
        0x40 | bypass
    } else if port == ANTENNA_EXT2 {
        0x20 | bypass
    } else if port == ANTENNA_XVTR {
        0x60 | bypass
    } else {
        0
    };
    let connector: u8 = match antenna_connector(a) {
        None => 3,
        Some(n) => n as u8,
    };
    let others: u8 = if s.receivers == 0 {
        0
    } else {
        s.receivers - 1
    };
    let c4: u8 = 0x04 | connector | ((others % 32) * 8) | flag_bit(s.diversity_enabled, 0x80);
    let r: [u8; 5] = [
        flag_bit(s.mox, 1),
        sample_rate_code(s.sample_rate_hz),
        (oc % 128) * 2,
        c3,
        c4,
    ];
    assert(r@ =~= general_control(*s));
    r
}

/// Two bits of converter number for each of the first four receivers.
fn adc_assignment(s: &P1Control) -> (b: u8)
    requires
        s.num_adcs == 2,
    ensures
        b == adc_byte(*s),
{
    let a0: u8 = (s.adc % 4) as u8;
    let a1: u8 = if s.diversity_enabled {
        1
    } else if s.extra_adcs.len() > 0 {
        (s.extra_adcs[0] % 4) as u8
    } else {
        0
    };
    let a2: u8 = if s.extra_adcs.len() > 1 {
        (s.extra_adcs[1] % 4) as u8
    } else {
        0
    };
    let a3: u8 = if s.extra_adcs.len() > 2 {
        (s.extra_adcs[2] % 4) as u8
    } else {
        0
    };
    a0 + 4 * a1 + 16 * a2 + 64 * a3
}

/// The second front end's filter bit.
fn second_filter(s: &P1Control) -> (b: u8)
    requires
        s.num_adcs == 2,
    ensures
        b == bpf2_bit(alex::rx_filter_for(rx2_filter_frequency(*s))),
{
    let freq: u32 = if s.diversity_enabled || s.adc == 1 || s.extra_frequencies_hz.len() == 0 {
        s.frequency_hz
    } else {
        s.extra_frequencies_hz[0]
    };
    match rx_filter(freq) {
        RxFilter::Bypass => 0x20,
        RxFilter::M160 => 0x10,
        RxFilter::M80M60 => 0x08,
        RxFilter::M40M30 => 0x04,
        RxFilter::M20M15 => 0x01,
        RxFilter::M12M10 => 0x02,
        RxFilter::M6 => 0x40,
    }
}

/// The five bytes of the register at position `rot`.
pub fn register_bytes(rot: P1Rotation, s: &P1Control) -> (r: [u8; 5])
    ensures
        r@ == register(rot, *s),
{
    let cw: CwKeyerValues = s.cw_keyer;
    let r: [u8; 5] = match rot.ozy_command {
        1 => {
            let f: [u8; 4] = be32_bytes(s.tx_frequency_hz);
            [0x02, f[0], f[1], f[2], f[3]]
        },
        2 => {
            let rx: u8 = rot.current_receiver;
            let freq: u32 = if rx == 0 || (s.diversity_enabled && rx == 1) || rx as usize - 1
                >= s.extra_frequencies_hz.len() {
                s.frequency_hz
            } else {
                s.extra_frequencies_hz[rx as usize - 1]
            };
            let f: [u8; 4] = be32_bytes(freq);
            [((4 + 2 * rx as u16) % 256) as u8, f[0], f[1], f[2], f[3]]
        },
        3 => {
            let drive: u8 = if !s.mox {
                0
            } else if s.is_hermes_lite {
                hl2_drive_level_and_scale(s.drive_level).0
            } else {
                s.drive_level
            };
            let pa: u8 = flag_bit(s.is_hermes_lite && !s.disable_pa, 0x08);
            let tune: u8 = flag_bit(s.is_hermes_lite && s.tune_active, 0x10);
            [0x12, drive, pa | tune, 0, 0]
        },
        4 => {
            let c1: u8 = flag_bit(!s.mic_ptt_enabled, 0x40) | flag_bit(s.mic_bias_enabled, 0x20)
                | flag_bit(s.mic_ptt_on_tip, 0x10);
            let c4: u8 = if s.is_hermes_lite {
                0x40 + s.rx_attenuation % 64
            } else {
                0x20 + s.rx_attenuation % 32
            };
            [0x14, c1, 0, flag_bit(s.is_hermes_lite && s.hl2_ak4951_codec, 0x08), c4]
        },
        5 => {
            let c1: u8 = if s.num_adcs != 2 {
                0
            } else if s.mox {
                0x3F
            } else {
                0x20
            };
            [
                0x16,
                c1,
                0,
                (cw.speed_wpm % 64 + 64 * (cw.mode % 4)) as u8,
                (cw.weight % 128) as u8,
            ]
        },
        6 => {
            let c1: u8 = if s.num_adcs == 2 {
                adc_assignment(s)
            } else {
                0
            };
            [0x1C, c1, 0, s.ps_tx_attenuation % 32, 0]
        },
        7 => {
            [
                0x1E,
                flag_bit(s.cw_mode_active && !s.tune_active, 0x01),
                min_u32(cw.sidetone_volume, 127) as u8,
                cw.ptt_delay_byte(),
                0,
            ]
        },
        8 => {
            let hang: u32 = min_u32(cw.hang_time_ms, 1023);
            let tone: u32 = min_u32(cw.sidetone_freq_hz, 4095);
            [
                0x20,
                (hang / 4) as u8,
                (hang % 4) as u8,
                (tone / 16) as u8,
                (tone % 16) as u8,
            ]
        },
        9 => [0x22, 0x19, 0, 0xC8, 0],
        10 => {
            let bpf2: u8 = if s.num_adcs == 2 {
                second_filter(s)
            } else {
                0
            };
            let c2: u8 = flag_bit(s.rx_antenna == ANTENNA_XVTR, 0x02) | flag_bit(
                s.puresignal_enabled,
                0x40,
            );
            [0x24, bpf2 | flag_bit(s.mox, 0x80), c2, 0, 0]
        },
        _ => [0x2E, 0, 0, 0x04, 0x15],
    };
    assert(r@ =~= register(rot, *s));
    r
}

/// Moves a rotation on by one packet.
pub fn advance_rotation(rot: P1Rotation, receivers: u8) -> (next: P1Rotation)
    ensures
        next == next_rotation(rot, receivers),
{
    let count: u8 = if receivers == 0 {
        1
    } else {
        receivers
    };
    let rx: u8 = if rot.ozy_command != 2 {
        rot.current_receiver
    } else if rot.current_receiver == 255 || rot.current_receiver + 1 >= count {
        0
    } else {
        rot.current_receiver + 1
    };
    let command: u8 = if rx != 0 {
        rot.ozy_command
    } else if rot.ozy_command >= 11 {
        1
    } else {
        rot.ozy_command + 1
    };
    P1Rotation { ozy_command: command, current_receiver: rx }
}

/// Builds one packet and moves the rotation and the sample pacing on.
pub fn p1_build_packet(
    seq: u32,
    rotation: &mut P1Rotation,
    s: &P1Control,
    samples: &[i16],
    pacer: &mut TxIqPacer,
    slots_per_sample: u32,
    audio: &[i16; PACKET_SLOTS],
) -> (packet: [u8; PACKET_SIZE])
    requires
        old(pacer).accum < slots_per_sample,
    ensures
        packet@ == packet_of(
            seq,
            *old(rotation),
            *s,
            slot_body(*s, samples@, *old(pacer), slots_per_sample, audio@, 0),
            slot_body(*s, samples@, *old(pacer), slots_per_sample, audio@, FRAME_SLOTS as int),
        ),
        *final(rotation) == next_rotation(*old(rotation), s.receivers),
        *final(pacer) == (if s.mox {
            pacer_after(samples@, 0, *old(pacer), slots_per_sample, PACKET_SLOTS as int)
        } else {
            *old(pacer)
        }),
        final(pacer).accum < slots_per_sample,
{
    let ghost start = *pacer;
    let g: [u8; 5] = general_control_bytes(s);
    let r: [u8; 5] = register_bytes(*rotation, s);
    let mut frame0: [u8; USB_FRAME_SIZE] = build_usb_frame(g[0], g[1], g[2], g[3], g[4]);
    let key: u8 = flag_bit(s.mox, 1);
    let mut frame1: [u8; USB_FRAME_SIZE] = build_usb_frame(r[0] | key, r[1], r[2], r[3], r[4]);
    let ghost c0 = general_control(*s);
    let ghost c1 = keyed(register(*rotation, *s), s.mox);
    assert(seq![g[0], g[1], g[2], g[3], g[4]] =~= c0);
    assert(seq![r[0] | key, r[1], r[2], r[3], r[4]] =~= c1);
    *rotation = advance_rotation(*rotation, s.receivers);
    assert(frame0@.take(8) =~= frame(c0, Seq::empty()));
    assert(frame1@.take(8) =~= frame(c1, Seq::empty()));
    if s.mox {
        let next: usize = fill_tx_payload(&mut frame0, samples, 0, pacer, slots_per_sample);
        fill_tx_payload(&mut frame1, samples, next, pacer, slots_per_sample);
        proof {
            lemma_packet_pacing(samples@, start, slots_per_sample, next as int);
        }
    } else if s.send_rx_audio {
        fill_rx_audio_payload(&mut frame0, audio, 0);
        fill_rx_audio_payload(&mut frame1, audio, FRAME_SLOTS);
    }
    let ghost b0 = slot_body(*s, samples@, start, slots_per_sample, audio@, 0);
    let ghost b1 = slot_body(*s, samples@, start, slots_per_sample, audio@, FRAME_SLOTS as int);
    assert(frame0@ =~= frame(c0, b0));
    assert(frame1@ =~= frame(c1, b1));
    let mut packet: [u8; PACKET_SIZE] = [0u8; PACKET_SIZE];
    packet[0] = 0xEF;
    packet[1] = 0xFE;
    packet[2] = 0x01;
    packet[3] = EP_COMMAND_AUDIO;
    put_be32(&mut packet, 4, seq);
    put_bytes(&mut packet, HEADER_SIZE, frame0.as_slice());
    put_bytes(&mut packet, HEADER_SIZE + USB_FRAME_SIZE, frame1.as_slice());
    assert(packet@ =~= packet_of(seq, *old(rotation), *s, b0, b1));
    packet
}

/// Two frames filled one after the other hold the slots of one run.
proof fn lemma_packet_pacing(samples: Seq<i16>, start: TxIqPacer, slots_per_sample: u32, next: int)
    requires
        start.accum < slots_per_sample,
        next == tx_samples_taken(start, slots_per_sample, 63),
    ensures
        ({
            let mid = pacer_after(samples, 0, start, slots_per_sample, 63);
            &&& tx_body(samples, next, mid, slots_per_sample, 0) == tx_body(
                samples,
                0,
                start,
                slots_per_sample,
                63,
            )
            &&& pacer_after(samples, next, mid, slots_per_sample, 63) == pacer_after(
                samples,
                0,
                start,
                slots_per_sample,
                126,
            )
        }),
{
    let mid = pacer_after(samples, 0, start, slots_per_sample, 63);
    assert forall|k: int| 0 <= k < 63 implies #[trigger] tx_pair(
        samples,
        next,
        mid,
        slots_per_sample,
        k,
    ) == tx_pair(samples, 0, start, slots_per_sample, 63 + k) by {
        lemma_tx_pair_continues(samples, start, slots_per_sample, 63, k);
    }
    assert forall|j: int| 0 <= j < 504 implies tx_body(samples, next, mid, slots_per_sample, 0)[j]
        == tx_body(samples, 0, start, slots_per_sample, 63)[j] by {
        assert(tx_pair(samples, next, mid, slots_per_sample, 0 + j / 8) == tx_pair(
            samples,
            0,
            start,
            slots_per_sample,
            63 + j / 8,
        ));
    }
    assert(tx_body(samples, next, mid, slots_per_sample, 0) =~= tx_body(
        samples,
        0,
        start,
        slots_per_sample,
        63,
    ));
    let d = slots_per_sample as int;
    vstd::arithmetic::div_mod::lemma_mod_bound(start.accum + 63, d);
    vstd::arithmetic::div_mod::lemma_add_mod_noop_right(63, start.accum + 63, d);
    assert((mid.accum + 63) % d == (start.accum + 126) % d);
    assert(tx_pair(samples, next, mid, slots_per_sample, 62) == tx_pair(
        samples,
        0,
        start,
        slots_per_sample,
        125,
    ));
}

// ---------------------------------------------------------------------
// Laws
// ---------------------------------------------------------------------

/// The lowest bit of the first control byte of both frames is the key: it
/// is set exactly while the transmitter is keyed, whatever the register.
pub proof fn law_key_bit(
    seq: u32,
    rot: P1Rotation,
    s: P1Control,
    body0: Seq<u8>,
    body1: Seq<u8>,
)
    requires
        body0.len() == 504,
        body1.len() == 504,
    ensures
        packet_of(seq, rot, s, body0, body1).len() == PACKET_SIZE,
        packet_of(seq, rot, s, body0, body1)[11] % 2 == (if s.mox {
            1u8
        } else {
            0u8
        }),
        packet_of(seq, rot, s, body0, body1)[523] % 2 == (if s.mox {
            1u8
        } else {
            0u8
        }),
{
    let c0: u8 = register(rot, s)[0];
    let p = packet_of(seq, rot, s, body0, body1);
    assert(p[11] == general_control(s)[0]);
    assert(p[523] == keyed(register(rot, s), s.mox)[0]);
    assert((c0 | 1u8) % 2 == 1u8 && c0 | 0u8 == c0) by (bit_vector)
        requires
            c0 % 2 == 0,
    ;
}

/// While not keyed no drive is requested and no slot carries a transmit
/// sample, whatever samples are waiting.
pub proof fn law_unkeyed_is_silent(
    rot: P1Rotation,
    s: P1Control,
    samples: Seq<i16>,
    pacer: TxIqPacer,
    slots_per_sample: u32,
    audio: Seq<i16>,
    first: int,
)
    requires
        !s.mox,
    ensures
        rot.ozy_command == 3 ==> register(rot, s)[1] == 0,
        slot_body(s, samples, pacer, slots_per_sample, audio, first).len() == 504,
        forall|j: int|
            0 <= j < 504 && j % 8 >= 4 ==> #[trigger] slot_body(
                s,
                samples,
                pacer,
                slots_per_sample,
                audio,
                first,
            )[j] == 0,
{
}

/// With one slot per sample, a keyed packet carries the waiting samples
/// in order, two to a slot, and silence once they have run out.
pub proof fn law_keyed_packet_carries_samples(samples: Seq<i16>, pacer: TxIqPacer, k: int)
    requires
        pacer.accum == 0,
        0 <= k,
    ensures
        tx_pair(samples, 0, pacer, 1, k) == (
            sample_or_silence(samples, 2 * k),
            sample_or_silence(samples, 2 * k + 1),
        ),
        pacer_after(samples, 0, pacer, 1, k).accum == 0,
        tx_samples_taken(pacer, 1, k) == 2 * k,
{
}

/// The newer-amplifier setting means nothing on an Orion2 board: no packet
/// depends on it.
pub proof fn law_orion2_ignores_amplifier(s: P1Control, new_pa_board: bool, rot: P1Rotation)
    requires
        s.is_orion2,
    ensures
        general_control(P1Control { new_pa_board, ..s }) == general_control(s),
        register(rot, P1Control { new_pa_board, ..s }) == register(rot, s),
{
    alex::law_orion2_ignores_amplifier(0, antenna_state(s), new_pa_board, false, false);
}

/// The general control register tells the radio how many receivers to
/// interleave. Beyond sixteen the count would run into the diversity bit.
pub proof fn law_receiver_count_is_announced(s: P1Control)
    requires
        1 <= s.receivers <= 16,
    ensures
        (general_control(s)[4] / 8) % 16 == s.receivers - 1,
        general_control(s)[4] / 128 == (if s.diversity_enabled {
            1u8
        } else {
            0u8
        }),
        (general_control(s)[4] / 4) % 2 == 1,
{
    let a = connector_code(alex::main_connector(antenna_state(s)));
    let n = (((at_least_one(s.receivers) - 1) % 32) * 8) as u8;
    let d = if s.diversity_enabled {
        0x80u8
    } else {
        0u8
    };
    assert(a <= 3);
    let m = (s.receivers - 1) as u8;
    assert(n == m * 8);
    assert(((0x04u8 | a | n | d) / 8) % 16 == m && (0x04u8 | a | n | d) / 128 == d / 128 && ((0x04u8
        | a | n | d) / 4) % 2 == 1) by (bit_vector)
        requires
            a <= 3,
            m <= 15,
            n == m * 8,
            d == 0x80 || d == 0,
    ;
}

proof fn lemma_or_of_parts()
    by (bit_vector)
    ensures
        forall|x: u8, y: u8| x & y == 0 ==> #[trigger] (x | y) == x + y,
        forall|c: u8, n: u8, d: u8|
            c <= 3 && n <= 15 && (d == 0 || d == 1) ==> #[trigger] (0x04u8 | c | ((n * 8) as u8) | ((d
                * 128) as u8)) == 4 + c + 8 * n + 128 * d,
        0x40u8 & 0x80 == 0 && 0x20u8 & 0x80 == 0 && 0x60u8 & 0x80 == 0 && 0x40u8 & 0 == 0 && 0x20u8
            & 0 == 0 && 0x60u8 & 0 == 0 && 0x08u8 & 0x10 == 0 && 0x08u8 & 0 == 0 && 0u8 & 0x10 == 0
            && 0u8 & 0 == 0 && 0x40u8 & 0x20 == 0 && 0u8 & 0x20 == 0 && 0x60u8 & 0x10 == 0 && 0x40u8
            & 0x10 == 0 && 0x20u8 & 0x10 == 0 && 0x02u8 & 0x40 == 0 && 0x02u8 & 0 == 0 && 0u8 & 0x40
            == 0,
        forall|b: u8|
            b == 0x20 || b == 0x10 || b == 8 || b == 4 || b == 1 || b == 2 || b == 0x40 || b == 0
                ==> #[trigger] (b | 0x80u8) == b + 128 && (b | 0u8) == b,
{
}

/// Where everything stands in a packet: the marker and the endpoint, the
/// sequence number, and two frames, each with its sync pattern, its five
/// control bytes and its slots. The key bit is added to the register's
/// address.
pub proof fn law_packet_layout(
    seq: u32,
    rot: P1Rotation,
    s: P1Control,
    body0: Seq<u8>,
    body1: Seq<u8>,
)
    requires
        body0.len() == 504,
        body1.len() == 504,
    ensures
        ({
            let p = packet_of(seq, rot, s, body0, body1);
            let g = general_control(s);
            let r = register(rot, s);
            &&& p.len() == 1032 && g.len() == 5 && r.len() == 5
            &&& p[0] == 0xEF && p[1] == 0xFE && p[2] == 0x01 && p[3] == 0x02
            &&& p[4] * 0x100_0000 + p[5] * 0x1_0000 + p[6] * 0x100 + p[7] == seq
            &&& p[8] == 0x7F && p[9] == 0x7F && p[10] == 0x7F
            &&& p[520] == 0x7F && p[521] == 0x7F && p[522] == 0x7F
            &&& p[11] == g[0] && p[12] == g[1] && p[13] == g[2] && p[14] == g[3] && p[15] == g[4]
            &&& p[523] == r[0] + (if s.mox {
                1int
            } else {
                0
            })
            &&& p[524] == r[1] && p[525] == r[2] && p[526] == r[3] && p[527] == r[4]
            &&& forall|j: int| 0 <= j < 504 ==> #[trigger] body0[j] == p[16 + j]
            &&& forall|j: int| 0 <= j < 504 ==> #[trigger] body1[j] == p[528 + j]
        }),
{
    lemma_or_of_parts();
    bytes::law_bytes_hold_what_was_written(0, 0, 0, seq);
    let r = register(rot, s);
    assert(r[0] % 2 == 0);
    let c0: u8 = r[0];
    assert((c0 | 1u8) == c0 + 1 && (c0 | 0u8) == c0) by (bit_vector)
        requires
            c0 % 2 == 0,
    ;
}

/// What the general control register says: the key, the sample rate, the
/// open-collector outputs of the direction in use, the auxiliary input, the
/// antenna connector, the duplex bit, how many receivers follow the first,
/// and diversity. (Beyond sixteen receivers the count runs into the bit of
/// diversity.)
pub proof fn law_general_control(s: P1Control)
    ensures
        ({
            let g = general_control(s);
            let port = if s.mox {
                s.tx_antenna
            } else {
                s.rx_antenna
            };
            let outputs = if s.mox {
                s.oc_tx
            } else {
                s.oc_rx
            };
            let cut = port > 2 && s.new_pa_board && !s.is_orion2;
            let main = if port > 2 {
                s.tx_antenna
            } else {
                port
            };
            &&& g[0] == (if s.mox {
                1int
            } else {
                0
            })
            &&& g[1] == 1 <==> s.sample_rate_hz == 96_000
            &&& g[1] == 2 <==> s.sample_rate_hz == 192_000
            &&& g[1] == 3 <==> s.sample_rate_hz == 384_000
            &&& g[1] <= 3
            &&& g[2] == 2 * (outputs % 128)
            &&& g[3] == (if port == 3 || (port == 4 && s.is_orion2) {
                0x40int
            } else if port == 4 {
                0x20
            } else if port == 5 {
                0x60
            } else {
                0
            }) + (if 3 <= port <= 5 && !s.is_orion2 && !s.new_pa_board {
                0x80int
            } else {
                0
            })
            &&& s.receivers <= 16 ==> g[4] == 4 + (if cut {
                3
            } else if main >= 2 {
                2
            } else {
                main as int
            }) + 8 * (if s.receivers == 0 {
                0
            } else {
                s.receivers - 1
            }) + (if s.diversity_enabled {
                128int
            } else {
                0
            })
        }),
{
    lemma_or_of_parts();
    if s.receivers <= 16 {
        let c = connector_code(alex::main_connector(antenna_state(s)));
        let n = (at_least_one(s.receivers) - 1) as u8;
        let d: u8 = if s.diversity_enabled {
            1
        } else {
            0
        };
        assert(0x04u8 | c | ((n * 8) as u8) | ((d * 128) as u8) == 4 + c + 8 * n + 128 * d);
    }
}

/// The first register tunes the transmitter. The second tunes one receiver
/// after the other, each at its own address: the first to its frequency,
/// the others to theirs. One without a frequency of its own, and the second
/// while diversity is on, goes with the first.
pub proof fn law_frequency_registers(rot: P1Rotation, s: P1Control)
    ensures
        ({
            let r = register(rot, s);
            let rx = rot.current_receiver;
            let f = r[1] * 0x100_0000 + r[2] * 0x1_0000 + r[3] * 0x100 + r[4];
            let follows = (s.diversity_enabled && rx == 1) || rx > s.extra_frequencies_hz@.len();
            &&& rot.ozy_command == 1 ==> r[0] == 0x02 && f == s.tx_frequency_hz
            &&& rot.ozy_command == 2 && rx < 126 ==> r[0] == 4 + 2 * rx
            &&& rot.ozy_command == 2 && (rx == 0 || follows) ==> f == s.frequency_hz
            &&& rot.ozy_command == 2 && rx > 0 && !follows ==> f == s.extra_frequencies_hz@[rx - 1]
        }),
{
    bytes::law_bytes_hold_what_was_written(0, 0, 0, s.tx_frequency_hz);
    bytes::law_bytes_hold_what_was_written(
        0,
        0,
        0,
        rx_frequency(rot.current_receiver, s),
    );
}

/// The third register asks for drive only while keyed: the level itself,
/// or on a HermesLite its attenuator step. There it also enables the
/// amplifier and tells of tuning. The fourth holds the microphone's wiring,
/// a HermesLite's codec and the receiver's attenuation, or on a HermesLite
/// its gain.
pub proof fn law_drive_and_microphone_registers(rot: P1Rotation, s: P1Control)
    ensures
        ({
            let r = register(rot, s);
            &&& rot.ozy_command == 3 ==> {
                &&& r[0] == 0x12 && r[3] == 0 && r[4] == 0
                &&& !s.mox ==> r[1] == 0
                &&& s.mox && !s.is_hermes_lite ==> r[1] == s.drive_level
                &&& s.mox && s.is_hermes_lite ==> r[1] == hl2_drive(s.drive_level).0
                &&& r[2] == (if s.is_hermes_lite && !s.disable_pa {
                    0x08int
                } else {
                    0
                }) + (if s.is_hermes_lite && s.tune_active {
                    0x10int
                } else {
                    0
                })
            }
            &&& rot.ozy_command == 4 ==> {
                &&& r[0] == 0x14 && r[2] == 0
                &&& r[1] == (if s.mic_ptt_enabled {
                    0int
                } else {
                    0x40
                }) + (if s.mic_bias_enabled {
                    0x20int
                } else {
                    0
                }) + (if s.mic_ptt_on_tip {
                    0x10int
                } else {
                    0
                })
                &&& r[3] == (if s.is_hermes_lite && s.hl2_ak4951_codec {
                    0x08int
                } else {
                    0
                })
                &&& s.is_hermes_lite && s.rx_attenuation < 64 ==> r[4] == 0x40 + s.rx_attenuation
                &&& !s.is_hermes_lite && s.rx_attenuation < 32 ==> r[4] == 0x20 + s.rx_attenuation
                &&& s.is_hermes_lite ==> 0x40 <= r[4] < 0x80
                &&& !s.is_hermes_lite ==> 0x20 <= r[4] < 0x40
            }
        }),
{
    lemma_or_of_parts();
}

/// A HermesLite's attenuator has steps of half a decibel. For a level the
/// lowest is taken at which the samples still fit: with its factor they do
/// not pass full scale, with that of the step below they would. The factors
/// of neighbouring steps are half a decibel apart.
pub proof fn law_hermes_lite_drive(level: u8, other: u8)
    ensures
        hl2_drive(level).0 == 240 <==> 240 < level <= 255,
        hl2_drive(level).0 == 224 <==> 227 < level <= 240,
        hl2_drive(level).0 == 208 <==> 214 < level <= 227,
        hl2_drive(level).0 == 192 <==> 202 < level <= 214,
        hl2_drive(level).0 == 176 <==> 191 < level <= 202,
        hl2_drive(level).0 == 160 <==> 180 < level <= 191,
        hl2_drive(level).0 == 144 <==> 170 < level <= 180,
        hl2_drive(level).0 == 128 <==> 160 < level <= 170,
        hl2_drive(level).0 == 112 <==> 151 < level <= 160,
        hl2_drive(level).0 == 96 <==> 143 < level <= 151,
        hl2_drive(level).0 == 80 <==> 135 < level <= 143,
        hl2_drive(level).0 == 64 <==> 127 < level <= 135,
        hl2_drive(level).0 == 48 <==> 120 < level <= 127,
        hl2_drive(level).0 == 32 <==> 113 < level <= 120,
        hl2_drive(level).0 == 16 <==> 107 < level <= 113,
        hl2_drive(level).0 == 0 <==> level <= 107,
        level * hl2_drive(level).1 <= 10_000_000,
        hl2_drive(level).0 == hl2_drive(other).0 + 16 ==> level * hl2_drive(other).1 > 10_000_000,
        hl2_drive(level).0 == hl2_drive(other).0 + 16 ==> -150_000 <= 100_000 * hl2_drive(other).1
            - 105_925 * hl2_drive(level).1 <= 150_000,
        hl2_drive(level).0 == 240 ==> 255 * hl2_drive(level).1 > 9_999_000,
{
}

/// The registers of the keyer, the second attenuator and the converters.
/// A second converter's attenuator is enabled always and full while keyed.
/// Each of the first four receivers has its converter's number in two bits.
/// The lead time is the longest of up to 30 ms that, times the speed, does
/// not pass 900. Hang time and sidetone are cut into high and low bits.
pub proof fn law_keyer_and_converter_registers(rot: P1Rotation, s: P1Control)
    ensures
        ({
            let r = register(rot, s);
            let k = s.cw_keyer;
            let speed = if k.speed_wpm == 0 {
                1
            } else {
                k.speed_wpm as int
            };
            let second = if s.diversity_enabled {
                1
            } else if s.extra_adcs@.len() > 0 {
                s.extra_adcs@[0] as int
            } else {
                0
            };
            let third = if s.extra_adcs@.len() > 1 {
                s.extra_adcs@[1] as int
            } else {
                0
            };
            let fourth = if s.extra_adcs@.len() > 2 {
                s.extra_adcs@[2] as int
            } else {
                0
            };
            &&& rot.ozy_command == 5 ==> {
                &&& r[0] == 0x16 && r[2] == 0
                &&& s.num_adcs != 2 ==> r[1] == 0
                &&& s.num_adcs == 2 ==> r[1] == (if s.mox {
                    0x3Fint
                } else {
                    0x20
                })
                &&& r[3] % 64 == k.speed_wpm % 64 && r[3] / 64 == k.mode % 4
                &&& r[4] == k.weight % 128
            }
            &&& rot.ozy_command == 6 ==> {
                &&& r[0] == 0x1C && r[2] == 0 && r[4] == 0
                &&& s.num_adcs != 2 ==> r[1] == 0
                &&& s.num_adcs == 2 ==> r[1] % 4 == s.adc % 4 && (r[1] / 4) % 4 == second % 4 && (
                r[1] / 16) % 4 == third % 4 && r[1] / 64 == fourth % 4
                &&& r[3] == s.ps_tx_attenuation % 32
            }
            &&& rot.ozy_command == 7 ==> {
                &&& r[0] == 0x1E && r[4] == 0
                &&& r[1] == (if s.cw_mode_active && !s.tune_active {
                    1int
                } else {
                    0
                })
                &&& r[2] == (if k.sidetone_volume < 127 {
                    k.sidetone_volume as int
                } else {
                    127
                })
                &&& r[3] <= 30 && r[3] * speed <= 900
                &&& r[3] == 30 || (r[3] + 1) * speed > 900
            }
            &&& rot.ozy_command == 8 ==> {
                &&& r[0] == 0x20 && r[2] < 4 && r[4] < 16
                &&& 4 * r[1] + r[2] == (if k.hang_time_ms < 1023 {
                    k.hang_time_ms as int
                } else {
                    1023
                })
                &&& 16 * r[3] + r[4] == (if k.sidetone_freq_hz < 4095 {
                    k.sidetone_freq_hz as int
                } else {
                    4095
                })
            }
            &&& rot.ozy_command == 9 ==> r == seq![0x22u8, 25u8, 0u8, 200u8, 0u8]
            &&& rot.ozy_command == 11 ==> r == seq![0x2Eu8, 0u8, 0u8, 4u8, 21u8]
        }),
{
    cw_keyer::law_lead_time(s.cw_keyer.speed_wpm);
    if rot.ozy_command == 6 && s.num_adcs == 2 {
        let a = adc_of(0, s);
        let b = adc_of(1, s);
        let c = adc_of(2, s);
        let d = adc_of(3, s);
        assert(0 <= a < 4 && 0 <= b < 4 && 0 <= c < 4 && 0 <= d < 4);
        let n = a + 4 * b + 16 * c + 64 * d;
        assert(n % 4 == a && (n / 4) % 4 == b && (n / 16) % 4 == c && n / 64 == d);
    }
}

/// The register of the second front end: with two converters it selects
/// the filter for the second receiver's frequency, or for the first's where
/// that is what the front end is fed, and it grounds the input while keyed.
/// Beside it stand the transverter's and PureSignal's enables.
pub proof fn law_second_front_end_register(rot: P1Rotation, s: P1Control)
    requires
        rot.ozy_command == 10,
    ensures
        ({
            let r = register(rot, s);
            let f = if s.diversity_enabled || s.adc == 1 || s.extra_frequencies_hz@.len() == 0 {
                s.frequency_hz
            } else {
                s.extra_frequencies_hz@[0]
            };
            &&& r[0] == 0x24 && r[3] == 0 && r[4] == 0
            &&& r[1] / 128 == (if s.mox {
                1int
            } else {
                0
            })
            &&& s.num_adcs != 2 ==> r[1] % 128 == 0
            &&& s.num_adcs == 2 ==> {
                &&& r[1] % 128 == 0x20 <==> f < 1_500_000
                &&& r[1] % 128 == 0x10 <==> 1_500_000 <= f < 2_100_000
                &&& r[1] % 128 == 0x08 <==> 2_100_000 <= f < 5_500_000
                &&& r[1] % 128 == 0x04 <==> 5_500_000 <= f < 11_000_000
                &&& r[1] % 128 == 0x01 <==> 11_000_000 <= f < 22_000_000
                &&& r[1] % 128 == 0x02 <==> 22_000_000 <= f < 35_000_000
                &&& r[1] % 128 == 0x40 <==> 35_000_000 <= f
            }
            &&& r[2] == (if s.rx_antenna == 5 {
                0x02int
            } else {
                0
            }) + (if s.puresignal_enabled {
                0x40int
            } else {
                0
            })
        }),
{
    lemma_or_of_parts();
    let b = bpf2_bit(alex::rx_filter_for(rx2_filter_frequency(s)));
    assert(b | 0x80u8 == b + 128 && (b | 0u8) == b);
    assert(0u8 | 0x80u8 == 128 && (0u8 | 0u8) == 0);
}

/// After the transmitter's register comes the receivers' register, once for
/// every receiver, then each of the others once, and then the first again.
pub proof fn law_rotation_steps(rot: P1Rotation, receivers: u8)
    requires
        receivers >= 1,
    ensures
        ({
            let next = next_rotation(rot, receivers);
            let c = rot.ozy_command;
            let rx = rot.current_receiver;
            &&& c == 2 && rx + 1 < receivers ==> next.ozy_command == 2 && next.current_receiver
                == rx + 1
            &&& c == 2 && rx + 1 == receivers ==> next.ozy_command == 3 && next.current_receiver
                == 0
            &&& 1 <= c < 11 && c != 2 && rx == 0 ==> next.ozy_command == c + 1
                && next.current_receiver == 0
            &&& c == 11 && rx == 0 ==> next.ozy_command == 1 && next.current_receiver == 0
        }),
{
}

/// While keyed, slot `k` of a packet holds four idle bytes and a pair of
/// samples, the in-phase part first. With a new pair for every slot these
/// are the samples in order, and silence behind the last one.
pub proof fn law_keyed_slots(
    s: P1Control,
    samples: Seq<i16>,
    pacer: TxIqPacer,
    audio: Seq<i16>,
    first: int,
    k: int,
)
    requires
        s.mox,
        pacer.accum == 0,
        0 <= first,
        0 <= k < 63,
    ensures
        ({
            let b = slot_body(s, samples, pacer, 1, audio, first);
            let n = 2 * (first + k);
            &&& b.len() == 504
            &&& b[8 * k] == 0 && b[8 * k + 1] == 0 && b[8 * k + 2] == 0 && b[8 * k + 3] == 0
            &&& bytes::holds_16(
                b,
                8 * k + 4,
                if n < samples.len() {
                    samples[n] as int
                } else {
                    0
                },
            )
            &&& bytes::holds_16(
                b,
                8 * k + 6,
                if n + 1 < samples.len() {
                    samples[n + 1] as int
                } else {
                    0
                },
            )
        }),
{
    let pair = tx_pair(samples, 0, pacer, 1, first + k);
    law_keyed_packet_carries_samples(samples, pacer, first + k);
    lemma_tx_slot_bytes(pair);
    lemma_tx_body_slot(samples, pacer, 1, first, k);
}

proof fn lemma_tx_slot_bytes(pair: (i16, i16))
    ensures
        ({
            let t = tx_slot(pair);
            &&& t[0] == 0 && t[1] == 0 && t[2] == 0 && t[3] == 0
            &&& bytes::holds_16(t, 4, pair.0 as int)
            &&& bytes::holds_16(t, 6, pair.1 as int)
        }),
{
    bytes::law_bytes_hold_what_was_written(0, pair.0, 0, 0);
    bytes::law_bytes_hold_what_was_written(0, pair.1, 0, 0);
    let t = tx_slot(pair);
    assert(t[4] == bytes::be16_signed(pair.0)[0] && t[5] == bytes::be16_signed(pair.0)[1]);
    assert(t[6] == bytes::be16_signed(pair.1)[0] && t[7] == bytes::be16_signed(pair.1)[1]);
}

proof fn lemma_tx_body_slot(
    samples: Seq<i16>,
    pacer: TxIqPacer,
    slots_per_sample: u32,
    first: int,
    k: int,
)
    requires
        0 <= k < 63,
    ensures
        ({
            let b = tx_body(samples, 0, pacer, slots_per_sample, first);
            let t = tx_slot(tx_pair(samples, 0, pacer, slots_per_sample, first + k));
            &&& b.len() == 504
            &&& b[8 * k] == t[0] && b[8 * k + 1] == t[1] && b[8 * k + 2] == t[2] && b[8 * k + 3]
                == t[3]
            &&& b[8 * k + 4] == t[4] && b[8 * k + 5] == t[5] && b[8 * k + 6] == t[6] && b[8 * k + 7]
                == t[7]
        }),
{
    let b = tx_body(samples, 0, pacer, slots_per_sample, first);
    let t = tx_slot(tx_pair(samples, 0, pacer, slots_per_sample, first + k));
    assert forall|i: int| 0 <= i < 8 implies b[8 * k + i] == #[trigger] t[i] by {
        assert((8 * k + i) / 8 == k);
        assert((8 * k + i) % 8 == i);
    }
    assert(b[8 * k + 0] == t[0] && b[8 * k + 1] == t[1] && b[8 * k + 2] == t[2] && b[8 * k + 3]
        == t[3]);
    assert(b[8 * k + 4] == t[4] && b[8 * k + 5] == t[5] && b[8 * k + 6] == t[6] && b[8 * k + 7]
        == t[7]);
}

/// While not keyed, slot `k` holds one audio sample twice, where audio is
/// sent, and no transmit samples; else nothing at all.
pub proof fn law_unkeyed_slots(
    s: P1Control,
    samples: Seq<i16>,
    pacer: TxIqPacer,
    slots_per_sample: u32,
    audio: Seq<i16>,
    first: int,
    k: int,
)
    requires
        !s.mox,
        0 <= first,
        0 <= k < 63,
        first + k < audio.len(),
    ensures
        ({
            let b = slot_body(s, samples, pacer, slots_per_sample, audio, first);
            let v = if s.send_rx_audio {
                audio[first + k] as int
            } else {
                0
            };
            &&& b.len() == 504
            &&& bytes::holds_16(b, 8 * k, v) && bytes::holds_16(b, 8 * k + 2, v)
            &&& b[8 * k + 4] == 0 && b[8 * k + 5] == 0 && b[8 * k + 6] == 0 && b[8 * k + 7] == 0
        }),
{
    if s.send_rx_audio {
        let v = audio[first + k];
        bytes::law_bytes_hold_what_was_written(0, v, 0, 0);
        let t = audio_slot(v);
        let b = slot_body(s, samples, pacer, slots_per_sample, audio, first);
        assert forall|i: int| 0 <= i < 8 implies b[8 * k + i] == #[trigger] t[i] by {
            assert((8 * k + i) / 8 == k);
            assert((8 * k + i) % 8 == i);
        }
        assert(t[0] == bytes::be16_signed(v)[0] && t[1] == bytes::be16_signed(v)[1]);
        assert(t[2] == bytes::be16_signed(v)[0] && t[3] == bytes::be16_signed(v)[1]);
        assert(t[4] == 0 && t[5] == 0 && t[6] == 0 && t[7] == 0);
    }
}

/// A pair is held for as many slots as one sample lasts, and then the next
/// is taken: after `n` whole samples' slots, `n` pairs have been taken, and
/// the pacing stands where it stood.
pub proof fn law_pairs_are_held(
    samples: Seq<i16>,
    pacer: TxIqPacer,
    slots_per_sample: u32,
    n: int,
    k: int,
)
    requires
        pacer.accum == 0,
        slots_per_sample >= 1,
        n >= 0,
        n * slots_per_sample - 1 <= k < (n + 1) * slots_per_sample - 1,
        k >= 0,
    ensures
        n == 0 ==> tx_pair(samples, 0, pacer, slots_per_sample, k) == (pacer.held_i, pacer.held_q),
        n > 0 && 2 * n <= samples.len() ==> tx_pair(samples, 0, pacer, slots_per_sample, k) == (
            samples[2 * n - 2],
            samples[2 * n - 1],
        ),
        n > 0 && 2 * n - 2 >= samples.len() ==> tx_pair(samples, 0, pacer, slots_per_sample, k) == (
            0i16,
            0i16,
        ),
        tx_samples_taken(pacer, slots_per_sample, n * slots_per_sample) == 2 * n,
        pacer_after(samples, 0, pacer, slots_per_sample, n * slots_per_sample).accum == 0,
{
    let d = slots_per_sample as int;
    let r = k + 1 - n * d;
    assert((n + 1) * d == n * d + d) by (nonlinear_arith);
    vstd::arithmetic::div_mod::lemma_fundamental_div_mod_converse(k + 1, d, n, r);
    vstd::arithmetic::div_mod::lemma_fundamental_div_mod_converse(n * d, d, n, 0);
}

/// Packets go out at the pace of their 126 slots at 48 kHz, to port 1024.
pub proof fn law_packets_keep_the_pace()
    ensures
        PACKET_INTERVAL_NS * 48_000 == 126 * 1_000_000_000,
        PACKET_SLOTS == 126 && FRAME_SLOTS == 63,
        DATA_PORT == 1024,
{
}

} // verus!
