//! Protocol 2: the four control packets that a host sends.
use crate::alex::{self, alex0_word, alex1_word, AntennaState, ANTENNA_XVTR};
use crate::bytes::{self, put_be16, put_be32};
use crate::cw_keyer::{self, CwKeyerValues, CW_KEYER_MODE_IAMBIC_A, CW_KEYER_MODE_IAMBIC_B};
use vstd::prelude::*;

verus! {

pub const P2_GENERAL_PORT: u16 = 1024;

pub const P2_DDC_SPECIFIC_PORT: u16 = 1025;

pub const P2_TX_SPECIFIC_PORT: u16 = 1026;

pub const P2_HIGH_PRIORITY_PORT: u16 = 1027;

pub const P2_AUDIO_PORT: u16 = 1028;

pub const P2_TX_IQ_PORT: u16 = 1029;

/// First source port of received samples; one port per receiver.
pub const P2_DDC0_IQ_PORT: u16 = 1035;

/// Source port of the radio's status packets.
pub const P2_HP_STATUS_SOURCE_PORT: u16 = 1025;

pub const P2_PACKET_SIZE: usize = 1444;

pub const P2_GENERAL_PACKET_SIZE: usize = 60;

pub const P2_TX_SPECIFIC_PACKET_SIZE: usize = 60;

pub const P2_DSP_CLOCK_HZ: u64 = 122_880_000;

/// Sample rate of the two feedback receivers.
pub const PS_FEEDBACK_RATE_HZ: u32 = 192_000;

/// A tuning frequency as a fraction of the converter clock, in units of
/// 2^-32 and rounded down; frequencies beyond the clock give the largest.
pub open spec fn phase(freq_hz: u32) -> int {
    let w = (0x1_0000_0000 * freq_hz) / 122_880_000;
    if w > 0xFFFF_FFFF {
        0xFFFF_FFFF
    } else {
        w
    }
}

pub fn phase_word(freq_hz: u32) -> (w: u32)
    ensures
        w == phase(freq_hz),
{
    let w: u64 = (freq_hz as u64 * 0x1_0000_0000) / P2_DSP_CLOCK_HZ;
    if w > 0xFFFF_FFFF {
        0xFFFF_FFFF
    } else {
        w as u32
    }
}

/// The general packet: tuning by phase word, watchdog on, amplifier and
/// front ends enabled.
pub open spec fn general_packet(seq: u32, num_adcs: u8, disable_pa: bool) -> Seq<u8> {
    Seq::new(
        60,
        |i: int|
            if i < 4 {
                bytes::be32(seq)[i]
            } else if i == 37 {
                0x08u8
            } else if i == 38 {
                0x01u8
            } else if i == 58 && !disable_pa {
                0x01u8
            } else if i == 59 {
                if num_adcs == 2 {
                    0x03u8
                } else {
                    0x01u8
                }
            } else {
                0u8
            },
    )
}

pub fn p2_general_packet(seq: u32, num_adcs: u8, disable_pa: bool) -> (p: [u8;
    P2_GENERAL_PACKET_SIZE])
    ensures
        p@ == general_packet(seq, num_adcs, disable_pa),
{
    let mut p: [u8; P2_GENERAL_PACKET_SIZE] = [0u8; P2_GENERAL_PACKET_SIZE];
    put_be32(&mut p, 0, seq);
    p[37] = 0x08;
    p[38] = 0x01;
    p[58] = if disable_pa {
        0x00
    } else {
        0x01
    };
    p[59] = if num_adcs == 2 {
        0x03
    } else {
        0x01
    };
    assert(p@ =~= general_packet(seq, num_adcs, disable_pa));
    p
}

/// A number whose lowest `n` bits are ones.
pub open spec fn ones(n: int) -> int
    decreases n,
{
    if n <= 0 {
        0
    } else {
        2 * ones(n - 1) + 1
    }
}

fn low_ones(n: usize) -> (r: u16)
    requires
        n <= 8,
    ensures
        r == ones(n as int),
        r <= 255,
        n <= 6 ==> r <= 63,
{
    proof {
        reveal_with_fuel(ones, 9);
    }
    match n {
        0 => 0,
        1 => 1,
        2 => 3,
        3 => 7,
        4 => 15,
        5 => 31,
        6 => 63,
        7 => 127,
        _ => 255,
    }
}

/// Which receivers stream. Where two are reserved for feedback, only the
/// first of them has a bit of its own, and only while feedback is wanted;
/// the user's receivers follow from the third on.
pub open spec fn ddc_enable_byte(count: int, ps_gate: Option<bool>) -> int {
    let n = if count < 8 {
        count
    } else {
        8
    };
    match ps_gate {
        Some(streaming) => 4 * ones(n - 2) + (if streaming {
            1int
        } else {
            0int
        }),
        None => ones(n),
    }
}

/// Byte `k` of the six-byte entry of receiver `i`: converter, rate in
/// kilohertz and sample size. The second feedback receiver has its sample
/// size two bytes earlier than the others.
pub open spec fn ddc_entry(
    rates: Seq<u32>,
    adcs: Seq<u32>,
    reserved: bool,
    i: int,
    k: int,
) -> u8 {
    if k == 0 {
        if i < adcs.len() {
            (adcs[i] % 256) as u8
        } else {
            0u8
        }
    } else if k == 1 {
        (((rates[i] / 1000) / 256) % 256) as u8
    } else if k == 2 {
        ((rates[i] / 1000) % 256) as u8
    } else if k == (if reserved && i == 1 {
        3int
    } else {
        5int
    }) {
        24u8
    } else {
        0u8
    }
}

/// Entries that fit into the packet.
pub open spec fn ddc_entries(rates: Seq<u32>) -> int {
    if rates.len() < 237 {
        rates.len() as int
    } else {
        237
    }
}

/// The receiver packet.
pub open spec fn ddc_specific_packet(
    seq: u32,
    rates: Seq<u32>,
    adcs: Seq<u32>,
    num_adcs: u8,
    ps_gate: Option<bool>,
) -> Seq<u8> {
    Seq::new(
        1444,
        |i: int|
            if i < 4 {
                bytes::be32(seq)[i]
            } else if i == 4 {
                if num_adcs == 0 {
                    1u8
                } else {
                    num_adcs
                }
            } else if i == 7 {
                ddc_enable_byte(rates.len() as int, ps_gate) as u8
            } else if i == 1363 && ps_gate is Some {
                0x02u8
            } else if 17 <= i < 17 + 6 * ddc_entries(rates) {
                ddc_entry(rates, adcs, ps_gate is Some, (i - 17) / 6, (i - 17) % 6)
            } else {
                0u8
            },
    )
}

/// The packet before its enable and sync bytes are known.
spec fn ddc_partial(
    seq: u32,
    rates: Seq<u32>,
    adcs: Seq<u32>,
    num_adcs: u8,
    ps_gate: Option<bool>,
    entries: int,
) -> Seq<u8> {
    Seq::new(
        1444,
        |i: int|
            if i < 4 {
                bytes::be32(seq)[i]
            } else if i == 4 {
                if num_adcs == 0 {
                    1u8
                } else {
                    num_adcs
                }
            } else if i == 7 {
                ddc_enable_byte(rates.len() as int, ps_gate) as u8
            } else if 17 <= i < 17 + 6 * entries {
                ddc_entry(rates, adcs, ps_gate is Some, (i - 17) / 6, (i - 17) % 6)
            } else {
                0u8
            },
    )
}

/// Builds the receiver packet. With `ps_gate`, the first two entries are the
/// feedback receivers, and its value says whether they stream now.
pub fn p2_ddc_specific_packet(
    seq: u32,
    sample_rates_hz: &[u32],
    adcs: &[u32],
    num_adcs: u8,
    ps_gate: Option<bool>,
) -> (p: [u8; P2_PACKET_SIZE])
    ensures
        p@ == ddc_specific_packet(seq, sample_rates_hz@, adcs@, num_adcs, ps_gate),
{
    let mut p: [u8; P2_PACKET_SIZE] = [0u8; P2_PACKET_SIZE];
    put_be32(&mut p, 0, seq);
    p[4] = if num_adcs == 0 {
        1
    } else {
        num_adcs
    };
    let n: usize = if sample_rates_hz.len() < 8 {
        sample_rates_hz.len()
    } else {
        8
    };
    p[7] = match ps_gate {
        Some(streaming) => {
            let own: usize = if n < 2 {
                0
            } else {
                n - 2
            };
            let own_bits: u16 = 4 * low_ones(own);
            let feedback_bit: u16 = if streaming {
                1
            } else {
                0
            };
            (own_bits + feedback_bit) as u8
        },
        None => low_ones(n) as u8,
    };
    let entries: usize = if sample_rates_hz.len() < 237 {
        sample_rates_hz.len()
    } else {
        237
    };
    assert(p@ =~= ddc_partial(seq, sample_rates_hz@, adcs@, num_adcs, ps_gate, 0));
    for i in 0..entries
        invariant
            entries <= sample_rates_hz@.len(),
            entries <= 237,
            p@ == ddc_partial(seq, sample_rates_hz@, adcs@, num_adcs, ps_gate, i as int),
    {
        let base: usize = 17 + i * 6;
        let ksps: u32 = sample_rates_hz[i] / 1000;
        p[base] = if i < adcs.len() {
            (adcs[i] % 256) as u8
        } else {
            0
        };
        p[base + 1] = ((ksps / 256) % 256) as u8;
        p[base + 2] = (ksps % 256) as u8;
        if ps_gate.is_some() && i == 1 {
            p[base + 3] = 24;
        } else {
            p[base + 5] = 24;
        }
        let ghost want = ddc_partial(
            seq,
            sample_rates_hz@,
            adcs@,
            num_adcs,
            ps_gate,
            i + 1,
        );
        assert forall|j: int| 0 <= j < 1444 implies p@[j] == want[j] by {
            if 17 + 6 * i <= j < 17 + 6 * i + 6 {
                assert((j - 17) / 6 == i);
                assert((j - 17) % 6 == j - 17 - 6 * i);
            }
        }
        assert(p@ =~= want);
    }
    if ps_gate.is_some() {
        p[1363] = 0x02;
    }
    assert(p@ =~= ddc_specific_packet(seq, sample_rates_hz@, adcs@, num_adcs, ps_gate));
    p
}

// ---------------------------------------------------------------------
// Transmitter packet
// ---------------------------------------------------------------------

/// What the transmitter packet is built from.
#[derive(Clone, Copy, Debug, PartialEq, Eq, Structural)]
pub struct P2TxControl {
    pub mic_ptt_enabled: bool,
    pub mic_bias_enabled: bool,
    pub mic_ptt_on_tip: bool,
    pub mox: bool,
    pub ps_tx_attenuation: u8,
    pub cw_keyer: CwKeyerValues,
    pub cw_mode_active: bool,
}

/// Keyer flags: nothing unless CW is on, and then break-in, the sidetone
/// where it is audible, and the keyer mode.
pub open spec fn keyer_flags(c: P2TxControl) -> u8 {
    if !c.cw_mode_active {
        0u8
    } else {
        (0x82 + (if c.cw_keyer.sidetone_volume != 0 {
            0x10int
        } else {
            0int
        }) + (if c.cw_keyer.mode == CW_KEYER_MODE_IAMBIC_A {
            0x08int
        } else if c.cw_keyer.mode == CW_KEYER_MODE_IAMBIC_B {
            0x28int
        } else {
            0int
        })) as u8
    }
}

pub open spec fn at_most(n: u32, max: int) -> int {
    if n < max {
        n as int
    } else {
        max
    }
}

/// The transmitter packet.
pub open spec fn tx_specific_packet(seq: u32, c: P2TxControl) -> Seq<u8> {
    Seq::new(
        60,
        |i: int|
            if i < 4 {
                bytes::be32(seq)[i]
            } else if i == 4 {
                1u8
            } else if i == 5 {
                keyer_flags(c)
            } else if i == 6 {
                at_most(c.cw_keyer.sidetone_volume, 127) as u8
            } else if i == 7 || i == 8 {
                bytes::be16(at_most(c.cw_keyer.sidetone_freq_hz, 65535) as u16)[i - 7]
            } else if i == 9 {
                at_most(c.cw_keyer.speed_wpm, 255) as u8
            } else if i == 10 {
                at_most(c.cw_keyer.weight, 255) as u8
            } else if i == 11 || i == 12 {
                bytes::be16(at_most(c.cw_keyer.hang_time_ms, 65535) as u16)[i - 11]
            } else if i == 13 {
                cw_keyer::ptt_delay(c.cw_keyer.speed_wpm) as u8
            } else if i == 50 {
                ((if c.mic_ptt_enabled {
                    0int
                } else {
                    4int
                }) + (if c.mic_ptt_on_tip {
                    8int
                } else {
                    0int
                }) + (if c.mic_bias_enabled {
                    16int
                } else {
                    0int
                })) as u8
            } else if i == 58 && c.mox {
                31u8
            } else if i == 59 && c.mox {
                c.ps_tx_attenuation
            } else {
                0u8
            },
    )
}

fn cap(n: u32, max: u32) -> (m: u32)
    ensures
        m == at_most(n, max as int),
        m <= max,
{
    if n < max {
        n
    } else {
        max
    }
}

pub fn p2_tx_specific_packet(seq: u32, c: &P2TxControl) -> (p: [u8; P2_TX_SPECIFIC_PACKET_SIZE])
    ensures
        p@ == tx_specific_packet(seq, *c),
{
    let cw: CwKeyerValues = c.cw_keyer;
    let mut p: [u8; P2_TX_SPECIFIC_PACKET_SIZE] = [0u8; P2_TX_SPECIFIC_PACKET_SIZE];
    put_be32(&mut p, 0, seq);
    p[4] = 1;
    if c.cw_mode_active {
        let sidetone: u8 = if cw.sidetone_volume != 0 {
            0x10
        } else {
            0
        };
        let mode: u8 = if cw.mode == CW_KEYER_MODE_IAMBIC_A {
            0x08
        } else if cw.mode == CW_KEYER_MODE_IAMBIC_B {
            0x28
        } else {
            0
        };
        p[5] = 0x82 + sidetone + mode;
    }
    p[6] = cap(cw.sidetone_volume, 127) as u8;
    put_be16(&mut p, 7, cap(cw.sidetone_freq_hz, 65535) as u16);
    p[9] = cap(cw.speed_wpm, 255) as u8;
    p[10] = cap(cw.weight, 255) as u8;
    put_be16(&mut p, 11, cap(cw.hang_time_ms, 65535) as u16);
    p[13] = cw.ptt_delay_byte();
    let ptt: u8 = if c.mic_ptt_enabled {
        0
    } else {
        4
    };
    let tip: u8 = if c.mic_ptt_on_tip {
        8
    } else {
        0
    };
    let bias: u8 = if c.mic_bias_enabled {
        16
    } else {
        0
    };
    p[50] = ptt + tip + bias;
    if c.mox {
        p[59] = c.ps_tx_attenuation;
        p[58] = 31;
    }
    assert(p@ =~= tx_specific_packet(seq, *c));
    p
}

// ---------------------------------------------------------------------
// High-priority packet
// ---------------------------------------------------------------------

/// What the high-priority packet is built from besides the receivers'
/// frequencies.
#[derive(Clone, Copy, Debug, PartialEq, Eq, Structural)]
pub struct P2HpControl {
    pub antenna: AntennaState,
    pub disable_pa: bool,
    /// Open-collector masks while receiving and while keyed.
    pub oc_rx: u8,
    pub oc_tx: u8,
    /// Frequency of the user's first receiver, which selects the first front
    /// end's filters.
    pub filter_freq_hz: u32,
    pub tx_freq_hz: u32,
    pub tx_drive: u8,
    pub ps_tx_attenuation: u8,
    pub rx_attenuation: u8,
    /// Frequency for the second front end's filter, on boards that have it.
    pub alex1_rx2_freq_hz: Option<u32>,
    pub puresignal_enabled: bool,
}

/// Frequencies that fit into the packet.
pub open spec fn hp_entries(freqs: Seq<u32>) -> int {
    if freqs.len() < 358 {
        freqs.len() as int
    } else {
        358
    }
}

/// Byte `i` of the table of phase words.
pub open spec fn hp_table_byte(freqs: Seq<u32>, i: int) -> u8 {
    if 9 <= i < 9 + 4 * hp_entries(freqs) {
        bytes::be32(phase(freqs[(i - 9) / 4]) as u32)[(i - 9) % 4]
    } else {
        0u8
    }
}

/// Upper half of the second Alex word: the relay states that transmitting
/// would have, sent at all times.
pub open spec fn alex1_upper(disable_pa: bool, puresignal: bool) -> u16 {
    ((if disable_pa {
        0int
    } else {
        0x0800int
    }) + (if puresignal {
        0x0004int
    } else {
        0int
    })) as u16
}

/// The high-priority packet.
pub open spec fn high_priority_packet(seq: u32, freqs: Seq<u32>, c: P2HpControl) -> Seq<u8> {
    let mox = c.antenna.mox;
    Seq::new(
        1444,
        |i: int|
            if i < 4 {
                bytes::be32(seq)[i]
            } else if i == 4 {
                if mox {
                    0x03u8
                } else {
                    0x01u8
                }
            } else if 329 <= i < 333 {
                bytes::be32(phase(c.tx_freq_hz) as u32)[i - 329]
            } else if i == 345 {
                if mox {
                    c.tx_drive
                } else {
                    0u8
                }
            } else if i == 1400 && c.antenna.is_orion2 && c.antenna.rx_antenna == ANTENNA_XVTR {
                hp_table_byte(freqs, i) | 0x01u8
            } else if i == 1401 {
                (2 * ((if mox {
                    c.oc_tx
                } else {
                    c.oc_rx
                }) % 128)) as u8
            } else if 1428 <= i < 1430 {
                bytes::be16(alex1_upper(c.disable_pa, c.puresignal_enabled))[i - 1428]
            } else if 1430 <= i < 1432 && c.alex1_rx2_freq_hz is Some {
                bytes::be16(alex::alex1(c.alex1_rx2_freq_hz->0, mox))[i - 1430]
            } else if 1432 <= i < 1436 {
                bytes::be32(
                    alex::alex0(
                        c.filter_freq_hz,
                        c.antenna,
                        c.disable_pa,
                        c.puresignal_enabled,
                    ),
                )[i - 1432]
            } else if i == 1442 {
                if mox {
                    31u8
                } else {
                    c.rx_attenuation
                }
            } else if i == 1443 {
                if mox {
                    c.ps_tx_attenuation
                } else {
                    c.rx_attenuation
                }
            } else {
                hp_table_byte(freqs, i)
            },
    )
}

/// Writes the table of phase words.
fn put_phase_table(p: &mut [u8; P2_PACKET_SIZE], freqs: &[u32])
    requires
        forall|i: int| 9 <= i < 1444 ==> old(p)@[i] == 0,
    ensures
        forall|i: int| 0 <= i < 9 ==> final(p)@[i] == old(p)@[i],
        forall|i: int| 9 <= i < 1444 ==> final(p)@[i] == hp_table_byte(freqs@, i),
{
    let entries: usize = if freqs.len() < 358 {
        freqs.len()
    } else {
        358
    };
    for k in 0..entries
        invariant
            entries == hp_entries(freqs@),
            entries <= freqs@.len(),
            entries <= 358,
            forall|i: int| 0 <= i < 9 ==> p@[i] == old(p)@[i],
            forall|i: int| 9 + 4 * k <= i < 1444 ==> p@[i] == 0,
            forall|i: int| 9 <= i < 9 + 4 * k ==> p@[i] == hp_table_byte(freqs@, i),
    {
        let ghost before = p@;
        put_be32(p, 9 + 4 * k, phase_word(freqs[k]));
        assert forall|i: int| 9 <= i < 9 + 4 * (k + 1) implies p@[i] == hp_table_byte(
            freqs@,
            i,
        ) by {
            if i >= 9 + 4 * k {
                assert((i - 9) / 4 == k);
                assert((i - 9) % 4 == i - 9 - 4 * k);
            } else {
                assert(p@[i] == before[i]);
            }
        }
    }
}

/// Builds the high-priority packet: run and key bits, tuning, drive,
/// attenuators, outputs and front-end relays.
pub fn p2_high_priority_packet(seq: u32, freqs: &[u32], c: &P2HpControl) -> (p: [u8;
    P2_PACKET_SIZE])
    ensures
        p@ == high_priority_packet(seq, freqs@, *c),
{
    let mox: bool = c.antenna.mox;
    let mut p: [u8; P2_PACKET_SIZE] = [0u8; P2_PACKET_SIZE];
    put_be32(&mut p, 0, seq);
    p[4] = if mox {
        0x03
    } else {
        0x01
    };
    put_phase_table(&mut p, freqs);
    put_be32(&mut p, 329, phase_word(c.tx_freq_hz));
    p[345] = if mox {
        c.tx_drive
    } else {
        0
    };
    let oc: u8 = if mox {
        c.oc_tx
    } else {
        c.oc_rx
    };
    p[1401] = 2 * (oc % 128);
    if c.antenna.is_orion2 && c.antenna.rx_antenna == ANTENNA_XVTR {
        p[1400] = p[1400] | 0x01;
    }
    p[1443] = if mox {
        c.ps_tx_attenuation
    } else {
        c.rx_attenuation
    };
    p[1442] = if mox {
        31
    } else {
        c.rx_attenuation
    };
    put_be32(
        &mut p,
        1432,
        alex0_word(c.filter_freq_hz, c.antenna, c.disable_pa, c.puresignal_enabled),
    );
    if let Some(rx2) = c.alex1_rx2_freq_hz {
        put_be16(&mut p, 1430, alex1_word(rx2, mox));
    }
    let relay: u16 = if c.disable_pa {
        0
    } else {
        0x0800
    };
    let coupler: u16 = if c.puresignal_enabled {
        0x0004
    } else {
        0
    };
    put_be16(&mut p, 1428, relay + coupler);
    assert(p@ =~= high_priority_packet(seq, freqs@, *c));
    p
}

// ---------------------------------------------------------------------
// Laws
// ---------------------------------------------------------------------

/// While not keyed the radio is told to run but not to transmit: no key
/// bit, no drive, and the relay of the first front end in its receive
/// position.
pub proof fn law_unkeyed_requests_no_transmission(seq: u32, freqs: Seq<u32>, c: P2HpControl)
    requires
        !c.antenna.mox,
    ensures
        high_priority_packet(seq, freqs, c)[4] == 0x01,
        high_priority_packet(seq, freqs, c)[345] == 0,
        (high_priority_packet(seq, freqs, c)[1432] / 8) % 2 == 0,
{
    let w = alex::alex0(
        c.filter_freq_hz,
        c.antenna,
        c.disable_pa,
        c.puresignal_enabled,
    );
    alex::law_alex0_fields(
        c.filter_freq_hz,
        c.antenna,
        c.disable_pa,
        c.puresignal_enabled,
    );
    assert(((w / 0x100_0000) / 8) % 2 == 0) by (bit_vector)
        requires
            w & 0x0800_0000u32 == 0,
    ;
}

/// A phase word tunes to within one step of the frequency, never above it.
pub proof fn law_phase_word_is_nearest_below(freq_hz: u32)
    requires
        freq_hz < 122_880_000,
    ensures
        phase(freq_hz) * 122_880_000 <= 0x1_0000_0000 * freq_hz,
        0x1_0000_0000 * freq_hz < (phase(freq_hz) + 1) * 122_880_000,
{
}

/// Where feedback receivers are reserved, the second of them has no enable
/// bit, the first has one exactly while feedback is wanted, and each of the
/// user's first six receivers always has one.
pub proof fn law_enable_bits(count: int, streaming: bool, rx: int)
    requires
        2 <= count,
        0 <= rx < 6,
    ensures
        ddc_enable_byte(count, Some(streaming)) % 2 == (if streaming {
            1int
        } else {
            0int
        }),
        (ddc_enable_byte(count, Some(streaming)) / 2) % 2 == 0,
        (ddc_enable_byte(count, Some(streaming)) / vstd::arithmetic::power2::pow2(
            (rx + 2) as nat,
        ) as int) % 2 == (if rx < count - 2 {
            1int
        } else {
            0int
        }),
        ddc_enable_byte(count, Some(streaming)) <= 255,
{
    reveal_with_fuel(ones, 8);
    vstd::arithmetic::power2::lemma2_to64();
    let e = ddc_enable_byte(count, Some(streaming));
    let p = vstd::arithmetic::power2::pow2((rx + 2) as nat) as int;
    if rx == 0 {
        assert(p == 4);
        assert((e / 4) % 2 == (if count > 2 { 1int } else { 0int }));
    } else if rx == 1 {
        assert(p == 8);
        assert((e / 8) % 2 == (if count > 3 { 1int } else { 0int }));
    } else if rx == 2 {
        assert(p == 16);
        assert((e / 16) % 2 == (if count > 4 { 1int } else { 0int }));
    } else if rx == 3 {
        assert(p == 32);
        assert((e / 32) % 2 == (if count > 5 { 1int } else { 0int }));
    } else if rx == 4 {
        assert(p == 64);
        assert((e / 64) % 2 == (if count > 6 { 1int } else { 0int }));
    } else {
        assert(p == 128);
        assert((e / 128) % 2 == (if count > 7 { 1int } else { 0int }));
    }
}

/// The number in the four bytes of `p` from `at` on, most significant byte
/// first.
pub open spec fn word_in(p: Seq<u8>, at: int) -> int {
    p[at] * 0x100_0000 + p[at + 1] * 0x1_0000 + p[at + 2] * 0x100 + p[at + 3]
}

/// `w` tunes to the frequency: it is the fraction of the 122.88 MHz clock
/// in units of 2^-32, rounded down, and the largest word beyond the clock.
pub open spec fn tunes_to(w: int, freq_hz: u32) -> bool {
    &&& 0 <= w <= 0xFFFF_FFFF
    &&& freq_hz < 122_880_000 ==> w * 122_880_000 <= 0x1_0000_0000 * freq_hz < (w + 1)
        * 122_880_000
    &&& freq_hz >= 122_880_000 ==> w == 0xFFFF_FFFF
}

/// What the general packet says: tuning by phase word, the watchdog, the
/// amplifier exactly where it is not disabled, and one or two front ends.
pub proof fn law_general_packet(seq: u32, num_adcs: u8, disable_pa: bool, i: int)
    ensures
        ({
            let p = general_packet(seq, num_adcs, disable_pa);
            &&& p.len() == 60
            &&& word_in(p, 0) == seq
            &&& p[37] == 0x08
            &&& p[38] == 0x01
            &&& p[58] == (if disable_pa {
                0int
            } else {
                1
            })
            &&& p[59] == (if num_adcs == 2 {
                3int
            } else {
                1
            })
            &&& 4 <= i < 58 && i != 37 && i != 38 ==> p[i] == 0
        }),
{
    bytes::law_bytes_hold_what_was_written(0, 0, 0, seq);
}

/// What the receiver packet says of receiver `i`: its converter, its rate in
/// kilohertz and its sample size of 24 bits, which the second feedback
/// receiver has two bytes earlier. Feedback receivers are coupled. No
/// receiver beyond the list is described.
pub proof fn law_receiver_packet(
    seq: u32,
    rates: Seq<u32>,
    adcs: Seq<u32>,
    num_adcs: u8,
    ps_gate: Option<bool>,
    i: int,
)
    requires
        0 <= i < 224,
    ensures
        ({
            let p = ddc_specific_packet(seq, rates, adcs, num_adcs, ps_gate);
            let b = 17 + 6 * i;
            let second_feedback = ps_gate is Some && i == 1;
            &&& p.len() == 1444
            &&& word_in(p, 0) == seq
            &&& p[4] == (if num_adcs == 0 {
                1
            } else {
                num_adcs as int
            })
            &&& p[7] == ddc_enable_byte(rates.len() as int, ps_gate) as u8
            &&& i < rates.len() ==> {
                &&& p[b] == (if i < adcs.len() {
                    adcs[i] % 256
                } else {
                    0
                })
                &&& p[b + 1] * 0x100 + p[b + 2] == (rates[i] / 1000) % 0x1_0000
                &&& p[b + 3] == (if second_feedback {
                    24int
                } else {
                    0
                })
                &&& p[b + 4] == 0
                &&& p[b + 5] == (if second_feedback {
                    0int
                } else {
                    24
                })
            }
            &&& i >= rates.len() ==> forall|k: int| 0 <= k < 6 ==> #[trigger] p[b + k] == 0
            &&& rates.len() <= 224 ==> p[1363] == (if ps_gate is Some {
                2int
            } else {
                0
            })
            &&& p[5] == 0 && p[6] == 0
        }),
{
    bytes::law_bytes_hold_what_was_written(0, 0, 0, seq);
    let p = ddc_specific_packet(seq, rates, adcs, num_adcs, ps_gate);
    let b = 17 + 6 * i;
    assert forall|k: int| i < rates.len() && 0 <= k < 6 implies p[b + k] == #[trigger] ddc_entry(
        rates,
        adcs,
        ps_gate is Some,
        i,
        k,
    ) by {
        assert((b + k - 17) / 6 == i);
        assert((b + k - 17) % 6 == k);
    }
    assert(i < rates.len() ==> p[b + 0] == ddc_entry(rates, adcs, ps_gate is Some, i, 0));
    assert(i < rates.len() ==> p[b + 1] == ddc_entry(rates, adcs, ps_gate is Some, i, 1));
    assert(i < rates.len() ==> p[b + 2] == ddc_entry(rates, adcs, ps_gate is Some, i, 2));
    assert(i < rates.len() ==> p[b + 3] == ddc_entry(rates, adcs, ps_gate is Some, i, 3));
    assert(i < rates.len() ==> p[b + 4] == ddc_entry(rates, adcs, ps_gate is Some, i, 4));
    assert(i < rates.len() ==> p[b + 5] == ddc_entry(rates, adcs, ps_gate is Some, i, 5));
    if i < rates.len() {
        let n = rates[i] as int / 1000;
        assert(((n / 256) % 256) * 256 + n % 256 == n % 0x1_0000);
    }
}

/// Without reserved receivers, one bit is set for each receiver, up to
/// eight of them, from the lowest on.
pub proof fn law_enable_bits_without_feedback(count: int)
    requires
        0 <= count,
    ensures
        ddc_enable_byte(count, None) + 1 == vstd::arithmetic::power2::pow2(
            if count < 8 {
                count as nat
            } else {
                8
            },
        ),
{
    reveal_with_fuel(ones, 9);
    vstd::arithmetic::power2::lemma2_to64();
}

/// What the transmitter packet says: one converter; the keyer's flags, which
/// are all off unless CW is on; sidetone, speed, weight and hang time, each
/// within its field; the lead time; the microphone's wiring; and, while
/// keyed, the attenuators of both converters.
pub proof fn law_transmitter_packet(seq: u32, c: P2TxControl)
    ensures
        ({
            let p = tx_specific_packet(seq, c);
            let k = c.cw_keyer;
            let speed = if k.speed_wpm == 0 {
                1
            } else {
                k.speed_wpm as int
            };
            &&& p.len() == 60
            &&& word_in(p, 0) == seq
            &&& p[4] == 1
            &&& !c.cw_mode_active ==> p[5] == 0
            &&& c.cw_mode_active ==> p[5] == 0x80 + 0x02 + (if k.sidetone_volume > 0 {
                0x10int
            } else {
                0
            }) + (if k.mode == 1 || k.mode == 2 {
                0x08int
            } else {
                0
            }) + (if k.mode == 2 {
                0x20int
            } else {
                0
            })
            &&& p[6] == (if k.sidetone_volume < 127 {
                k.sidetone_volume as int
            } else {
                127
            })
            &&& p[7] * 0x100 + p[8] == (if k.sidetone_freq_hz < 0xFFFF {
                k.sidetone_freq_hz as int
            } else {
                0xFFFF
            })
            &&& p[9] == (if k.speed_wpm < 255 {
                k.speed_wpm as int
            } else {
                255
            })
            &&& p[10] == (if k.weight < 255 {
                k.weight as int
            } else {
                255
            })
            &&& p[11] * 0x100 + p[12] == (if k.hang_time_ms < 0xFFFF {
                k.hang_time_ms as int
            } else {
                0xFFFF
            })
            &&& p[13] <= 30 && p[13] * speed <= 900 && (p[13] == 30 || (p[13] + 1) * speed > 900)
            &&& p[50] == (if c.mic_ptt_enabled {
                0int
            } else {
                0x04
            }) + (if c.mic_ptt_on_tip {
                0x08int
            } else {
                0
            }) + (if c.mic_bias_enabled {
                0x10int
            } else {
                0
            })
            &&& p[58] == (if c.mox {
                31int
            } else {
                0
            })
            &&& p[59] == (if c.mox {
                c.ps_tx_attenuation as int
            } else {
                0
            })
            &&& forall|i: int|
                14 <= i < 58 && i != 50 ==> #[trigger] p[i] == 0
        }),
{
    bytes::law_bytes_hold_what_was_written(0, 0, 0, seq);
    bytes::law_bytes_hold_what_was_written(
        0,
        0,
        at_most(c.cw_keyer.sidetone_freq_hz, 65535) as u16,
        0,
    );
    bytes::law_bytes_hold_what_was_written(
        0,
        0,
        at_most(c.cw_keyer.hang_time_ms, 65535) as u16,
        0,
    );
    cw_keyer::law_lead_time(c.cw_keyer.speed_wpm);
}

/// A phase word tunes to its frequency.
pub proof fn law_phase_words_tune(freq_hz: u32)
    ensures
        tunes_to(phase(freq_hz), freq_hz),
{
}

/// How the high-priority packet tunes: the receivers in the order of the
/// list, from byte 9 on, and the transmitter at byte 329.
pub proof fn law_high_priority_tuning(seq: u32, freqs: Seq<u32>, c: P2HpControl, k: int)
    requires
        0 <= k < 80,
    ensures
        ({
            let p = high_priority_packet(seq, freqs, c);
            &&& p.len() == 1444
            &&& word_in(p, 0) == seq
            &&& k < freqs.len() ==> tunes_to(word_in(p, 9 + 4 * k), freqs[k])
            &&& k >= freqs.len() ==> word_in(p, 9 + 4 * k) == 0
            &&& tunes_to(word_in(p, 329), c.tx_freq_hz)
        }),
{
    bytes::law_bytes_hold_what_was_written(0, 0, 0, seq);
    bytes::law_bytes_hold_what_was_written(0, 0, 0, phase(c.tx_freq_hz) as u32);
    law_phase_words_tune(c.tx_freq_hz);
    let p = high_priority_packet(seq, freqs, c);
    let b = 9 + 4 * k;
    assert((b - 9) / 4 == k && (b + 1 - 9) / 4 == k && (b + 2 - 9) / 4 == k && (b + 3 - 9) / 4
        == k);
    assert((b - 9) % 4 == 0 && (b + 1 - 9) % 4 == 1 && (b + 2 - 9) % 4 == 2 && (b + 3 - 9) % 4
        == 3);
    if k < freqs.len() {
        law_phase_words_tune(freqs[k]);
        bytes::law_bytes_hold_what_was_written(0, 0, 0, phase(freqs[k]) as u32);
    }
}

/// What else the high-priority packet says: run, and the key; drive only
/// while keyed; the outputs and attenuators of the direction in use; the
/// first front end's word for the first receiver's frequency; the second's
/// for its own, where the board has one; and, at all times, the relays that
/// transmitting would have.
pub proof fn law_high_priority_controls(seq: u32, freqs: Seq<u32>, c: P2HpControl)
    requires
        freqs.len() <= 80,
    ensures
        ({
            let p = high_priority_packet(seq, freqs, c);
            let mox = c.antenna.mox;
            let outputs = if mox {
                c.oc_tx
            } else {
                c.oc_rx
            };
            &&& p[4] == (if mox {
                3int
            } else {
                1
            })
            &&& p[345] == (if mox {
                c.tx_drive as int
            } else {
                0
            })
            &&& p[1400] == (if c.antenna.is_orion2 && c.antenna.rx_antenna == 5 {
                1int
            } else {
                0
            })
            &&& p[1401] == 2 * (outputs % 128)
            &&& p[1428] * 0x100 + p[1429] == (if c.disable_pa {
                0int
            } else {
                0x0800
            }) + (if c.puresignal_enabled {
                0x0004int
            } else {
                0
            })
            &&& p[1430] * 0x100 + p[1431] == (match c.alex1_rx2_freq_hz {
                Some(f) => alex::alex1(f, mox) as int,
                None => 0,
            })
            &&& word_in(p, 1432) == alex::alex0(
                c.filter_freq_hz,
                c.antenna,
                c.disable_pa,
                c.puresignal_enabled,
            )
            &&& p[1442] == (if mox {
                31
            } else {
                c.rx_attenuation as int
            })
            &&& p[1443] == (if mox {
                c.ps_tx_attenuation as int
            } else {
                c.rx_attenuation as int
            })
            &&& forall|i: int|
                (333 <= i < 345 || 345 < i < 1400 || 1401 < i < 1428 || 1436 <= i < 1442)
                    ==> #[trigger] p[i] == 0
        }),
{
    let w = alex::alex0(
        c.filter_freq_hz,
        c.antenna,
        c.disable_pa,
        c.puresignal_enabled,
    );
    bytes::law_bytes_hold_what_was_written(0, 0, alex1_upper(c.disable_pa, c.puresignal_enabled), w);
    if let Some(f) = c.alex1_rx2_freq_hz {
        bytes::law_bytes_hold_what_was_written(0, 0, alex::alex1(f, c.antenna.mox), 0);
    }
    assert(0u8 | 0x01u8 == 1) by (bit_vector);
}

pub proof fn lemma_high_priority_bytes(seq: u32, freqs: Seq<u32>, c: P2HpControl, k: int)
    requires
        0 <= k < 80,
        k < freqs.len(),
    ensures
        ({
            let p = high_priority_packet(seq, freqs, c);
            &&& p.subrange(9 + 4 * k, 13 + 4 * k) == bytes::be32(phase(freqs[k]) as u32)
            &&& p.subrange(329, 333) == bytes::be32(phase(c.tx_freq_hz) as u32)
            &&& p.subrange(1432, 1436) == bytes::be32(
                alex::alex0(
                    c.filter_freq_hz,
                    c.antenna,
                    c.disable_pa,
                    c.puresignal_enabled,
                ),
            )
        }),
{
    let p = high_priority_packet(seq, freqs, c);
    let b = 9 + 4 * k;
    assert((b - 9) / 4 == k && (b + 1 - 9) / 4 == k && (b + 2 - 9) / 4 == k && (b + 3 - 9) / 4
        == k);
    assert((b - 9) % 4 == 0 && (b + 1 - 9) % 4 == 1 && (b + 2 - 9) % 4 == 2 && (b + 3 - 9) % 4
        == 3);
    let w = bytes::be32(phase(freqs[k]) as u32);
    assert(p[b] == w[0] && p[b + 1] == w[1] && p[b + 2] == w[2] && p[b + 3] == w[3]);
    assert(p.subrange(b, b + 4) =~= w);
    assert(p.subrange(329, 333) =~= bytes::be32(phase(c.tx_freq_hz) as u32));
    assert(p.subrange(1432, 1436) =~= bytes::be32(
        alex::alex0(c.filter_freq_hz, c.antenna, c.disable_pa, c.puresignal_enabled),
    ));
}

/// The ports of the radio, and the converter's clock.
pub proof fn law_ports()
    ensures
        P2_GENERAL_PORT == 1024 && P2_DDC_SPECIFIC_PORT == 1025 && P2_TX_SPECIFIC_PORT == 1026
            && P2_HIGH_PRIORITY_PORT == 1027 && P2_AUDIO_PORT == 1028 && P2_TX_IQ_PORT == 1029,
        P2_DDC0_IQ_PORT == 1035 && P2_HP_STATUS_SOURCE_PORT == 1025,
        P2_DSP_CLOCK_HZ == 122_880_000 && PS_FEEDBACK_RATE_HZ == 192_000,
{
}

} // verus!
