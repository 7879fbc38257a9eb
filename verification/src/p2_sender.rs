//! Protocol 2: the state of the thread that keeps a radio supplied with
//! control packets. All four kinds go out on a timer; in between, every
//! status packet of the radio is answered with a high-priority packet.
use crate::alex::{self, AntennaState};
use crate::bytes;
use crate::cw_keyer::CwKeyerValues;
use crate::protocol2::{
    self, p2_ddc_specific_packet, p2_general_packet, p2_high_priority_packet,
    p2_tx_specific_packet, P2HpControl, P2TxControl, PS_FEEDBACK_RATE_HZ, P2_DDC_SPECIFIC_PORT,
    P2_GENERAL_PORT, P2_HIGH_PRIORITY_PORT, P2_TX_SPECIFIC_PORT,
};
use vstd::prelude::*;

verus! {

/// A radio that hears nothing for about a second falls back to standby.
pub const P2_KEEPALIVE_INTERVAL_NS: u64 = 250_000_000;

/// What stays fixed while a radio is connected.
#[derive(Clone, Copy, Debug, PartialEq, Eq, Structural)]
pub struct P2Link {
    pub num_adcs: u8,
    pub is_orion2: bool,
}

/// One reading of the live settings.
#[derive(Debug)]
pub struct P2Live {
    pub frequency_hz: u32,
    pub tx_frequency_hz: u32,
    pub sample_rate: u32,
    pub adc: u32,
    pub rx_antenna: u32,
    pub tx_antenna: u32,
    pub new_pa_board: bool,
    pub disable_pa: bool,
    pub oc_rx: u8,
    pub oc_tx: u8,
    pub extra_frequencies_hz: Vec<u32>,
    pub extra_sample_rates_hz: Vec<u32>,
    pub extra_adcs: Vec<u32>,
    pub active_receiver_count: u32,
    pub mox: bool,
    pub drive_level: u8,
    pub cw_keyer: CwKeyerValues,
    pub cw_mode_active: bool,
    pub puresignal_enabled: bool,
    pub ps_tx_attenuation: u32,
    pub rx_attenuation: u32,
    pub mic_ptt_enabled: bool,
    pub mic_bias_enabled: bool,
    pub mic_ptt_on_tip: bool,
    pub diversity_enabled: bool,
}

/// The values of the receivers after the first, of which `active` minus one
/// are wanted. Diversity gives the second receiver a value of its own.
pub open spec fn extras(values: Seq<u32>, active: int, second: Option<u32>) -> Seq<u32> {
    let n = if active - 1 < values.len() {
        active - 1
    } else {
        values.len() as int
    };
    match second {
        Some(v) if active >= 2 => if n == 0 {
            seq![v]
        } else {
            values.take(n).update(0, v)
        },
        _ => values.take(n),
    }
}

pub open spec fn active_receivers(live: P2Live) -> int {
    if live.active_receiver_count == 0 {
        1
    } else {
        live.active_receiver_count as int
    }
}

pub open spec fn diversity_value(live: P2Live, v: u32) -> Option<u32> {
    if live.diversity_enabled {
        Some(v)
    } else {
        None
    }
}

/// Frequencies of all receivers: the two feedback receivers follow the
/// transmitter, then come the user's.
pub open spec fn ddc_frequencies(live: P2Live) -> Seq<u32> {
    seq![live.tx_frequency_hz, live.tx_frequency_hz, live.frequency_hz] + extras(
        live.extra_frequencies_hz@,
        active_receivers(live),
        diversity_value(live, live.frequency_hz),
    )
}

pub open spec fn ddc_rates(live: P2Live) -> Seq<u32> {
    seq![PS_FEEDBACK_RATE_HZ, PS_FEEDBACK_RATE_HZ, live.sample_rate] + extras(
        live.extra_sample_rates_hz@,
        active_receivers(live),
        diversity_value(live, live.sample_rate),
    )
}

/// Converters of all receivers. The transmit feedback comes from a virtual
/// converter numbered after the real ones.
pub open spec fn ddc_adcs(link: P2Link, live: P2Live) -> Seq<u32> {
    seq![0u32, link.num_adcs as u32, live.adc] + extras(
        live.extra_adcs@,
        active_receivers(live),
        diversity_value(live, 1),
    )
}

/// Frequency for the second front end's filter: that of the first receiver
/// where it is the one on that front end, else that of the second.
pub open spec fn rx2_frequency(live: P2Live) -> u32 {
    if live.diversity_enabled || live.adc == 1 || live.extra_frequencies_hz@.len() == 0 {
        live.frequency_hz
    } else {
        live.extra_frequencies_hz@[0]
    }
}

pub open spec fn tx_control(live: P2Live) -> P2TxControl {
    P2TxControl {
        mic_ptt_enabled: live.mic_ptt_enabled,
        mic_bias_enabled: live.mic_bias_enabled,
        mic_ptt_on_tip: live.mic_ptt_on_tip,
        mox: live.mox,
        ps_tx_attenuation: (live.ps_tx_attenuation % 256) as u8,
        cw_keyer: live.cw_keyer,
        cw_mode_active: live.cw_mode_active,
    }
}

pub open spec fn hp_control(link: P2Link, live: P2Live) -> P2HpControl {
    P2HpControl {
        antenna: AntennaState {
            rx_antenna: live.rx_antenna,
            tx_antenna: live.tx_antenna,
            mox: live.mox,
            is_orion2: link.is_orion2,
            new_pa_board: live.new_pa_board,
        },
        disable_pa: live.disable_pa,
        oc_rx: live.oc_rx,
        oc_tx: live.oc_tx,
        filter_freq_hz: live.frequency_hz,
        tx_freq_hz: live.tx_frequency_hz,
        tx_drive: live.drive_level,
        ps_tx_attenuation: (live.ps_tx_attenuation % 256) as u8,
        rx_attenuation: (live.rx_attenuation % 32) as u8,
        alex1_rx2_freq_hz: if link.is_orion2 {
            Some(rx2_frequency(live))
        } else {
            None
        },
        puresignal_enabled: live.puresignal_enabled,
    }
}

/// A packet and the port it goes to.
#[derive(Debug)]
pub struct P2Datagram {
    pub port: u16,
    pub bytes: Vec<u8>,
}

impl View for P2Datagram {
    type V = (u16, Seq<u8>);

    open spec fn view(&self) -> (u16, Seq<u8>) {
        (self.port, self.bytes@)
    }
}

/// What is to be sent now.
#[derive(Clone, Copy, Debug, PartialEq, Eq, Structural)]
pub enum P2Due {
    Nothing,
    HighPriority,
    All,
}

/// State of the sending thread.
#[derive(Clone, Copy, Debug, PartialEq, Eq, Structural)]
pub struct P2Sender {
    pub general_seq: u32,
    pub ddc_seq: u32,
    pub tx_seq: u32,
    pub hp_seq: u32,
    /// When the next full set is due, on the caller's clock.
    pub next_keepalive_ns: u64,
}

/// The packets of one cycle, in the order they are sent. The receiver
/// packet is sent twice.
pub open spec fn sends(s: P2Sender, due: P2Due, link: P2Link, live: P2Live) -> Seq<(u16, Seq<u8>)> {
    let hp = (
        P2_HIGH_PRIORITY_PORT,
        protocol2::high_priority_packet(
            s.hp_seq,
            ddc_frequencies(live),
            hp_control(link, live),
        ),
    );
    let ddc = (
        P2_DDC_SPECIFIC_PORT,
        protocol2::ddc_specific_packet(
            s.ddc_seq,
            ddc_rates(live),
            ddc_adcs(link, live),
            link.num_adcs,
            Some(live.puresignal_enabled && live.mox),
        ),
    );
    match due {
        P2Due::Nothing => Seq::empty(),
        P2Due::HighPriority => seq![hp],
        P2Due::All => seq![
            (
                P2_GENERAL_PORT,
                protocol2::general_packet(s.general_seq, link.num_adcs, live.disable_pa),
            ),
            ddc,
            ddc,
            (P2_TX_SPECIFIC_PORT, protocol2::tx_specific_packet(s.tx_seq, tx_control(live))),
            hp,
        ],
    }
}

pub open spec fn next_seq(n: u32) -> u32 {
    if n == 0xFFFF_FFFF {
        0
    } else {
        (n + 1) as u32
    }
}

/// The state after a cycle was sent.
pub open spec fn after_sends(s: P2Sender, due: P2Due) -> P2Sender {
    match due {
        P2Due::Nothing => s,
        P2Due::HighPriority => P2Sender { hp_seq: next_seq(s.hp_seq), ..s },
        P2Due::All => P2Sender {
            general_seq: next_seq(s.general_seq),
            ddc_seq: next_seq(s.ddc_seq),
            tx_seq: next_seq(s.tx_seq),
            hp_seq: next_seq(s.hp_seq),
            ..s
        },
    }
}

/// The values of the receivers after the first.
fn append_extras(list: &mut Vec<u32>, values: &Vec<u32>, active: usize, second: Option<u32>)
    requires
        active >= 1,
    ensures
        final(list)@ == old(list)@ + extras(values@, active as int, second),
{
    let n: usize = if active - 1 < values.len() {
        active - 1
    } else {
        values.len()
    };
    let ghost before = list@;
    let mut i: usize = 0;
    if let Some(v) = second {
        if active >= 2 {
            list.push(v);
            i = 1;
        }
    }
    let ghost want = extras(values@, active as int, second);
    assert(list@ =~= before + want.take(i as int));
    while i < n
        invariant
            n <= values@.len(),
            n == (if active - 1 < values@.len() {
                active - 1
            } else {
                values@.len() as int
            }),
            i <= want.len(),
            want.len() == (if i > n {
                i as int
            } else {
                n as int
            }),
            list@ == before + want.take(i as int),
            want == extras(values@, active as int, second),
            i == 0 ==> want == values@.take(n as int),
            forall|j: int| 1 <= j < n ==> want[j] == values@[j],
        decreases n - i,
    {
        list.push(values[i]);
        assert(want.take(i + 1) =~= want.take(i as int).push(want[i as int]));
        i = i + 1;
        assert(list@ =~= before + want.take(i as int));
    }
    assert(want.take(i as int) =~= want);
}

fn active_count(live: &P2Live) -> (n: usize)
    ensures
        n == active_receivers(*live),
        n >= 1,
{
    if live.active_receiver_count == 0 {
        1
    } else {
        live.active_receiver_count as usize
    }
}

/// Frequencies of all receivers.
pub fn frequency_list(live: &P2Live) -> (v: Vec<u32>)
    ensures
        v@ == ddc_frequencies(*live),
{
    let second: Option<u32> = if live.diversity_enabled {
        Some(live.frequency_hz)
    } else {
        None
    };
    let mut v: Vec<u32> = Vec::new();
    v.push(live.tx_frequency_hz);
    v.push(live.tx_frequency_hz);
    v.push(live.frequency_hz);
    assert(v@ =~= seq![live.tx_frequency_hz, live.tx_frequency_hz, live.frequency_hz]);
    append_extras(&mut v, &live.extra_frequencies_hz, active_count(live), second);
    v
}

/// Sample rates of all receivers.
pub fn rate_list(live: &P2Live) -> (v: Vec<u32>)
    ensures
        v@ == ddc_rates(*live),
{
    let second: Option<u32> = if live.diversity_enabled {
        Some(live.sample_rate)
    } else {
        None
    };
    let mut v: Vec<u32> = Vec::new();
    v.push(PS_FEEDBACK_RATE_HZ);
    v.push(PS_FEEDBACK_RATE_HZ);
    v.push(live.sample_rate);
    assert(v@ =~= seq![PS_FEEDBACK_RATE_HZ, PS_FEEDBACK_RATE_HZ, live.sample_rate]);
    append_extras(&mut v, &live.extra_sample_rates_hz, active_count(live), second);
    v
}

/// Converters of all receivers.
pub fn adc_list(link: &P2Link, live: &P2Live) -> (v: Vec<u32>)
    ensures
        v@ == ddc_adcs(*link, *live),
{
    let second: Option<u32> = if live.diversity_enabled {
        Some(1)
    } else {
        None
    };
    let mut v: Vec<u32> = Vec::new();
    v.push(0);
    v.push(link.num_adcs as u32);
    v.push(live.adc);
    assert(v@ =~= seq![0u32, link.num_adcs as u32, live.adc]);
    append_extras(&mut v, &live.extra_adcs, active_count(live), second);
    v
}

fn resolve_hp(link: &P2Link, live: &P2Live) -> (c: P2HpControl)
    ensures
        c == hp_control(*link, *live),
{
    let rx2: u32 = if live.diversity_enabled || live.adc == 1 || live.extra_frequencies_hz.len()
        == 0 {
        live.frequency_hz
    } else {
        live.extra_frequencies_hz[0]
    };
    P2HpControl {
        antenna: AntennaState {
            rx_antenna: live.rx_antenna,
            tx_antenna: live.tx_antenna,
            mox: live.mox,
            is_orion2: link.is_orion2,
            new_pa_board: live.new_pa_board,
        },
        disable_pa: live.disable_pa,
        oc_rx: live.oc_rx,
        oc_tx: live.oc_tx,
        filter_freq_hz: live.frequency_hz,
        tx_freq_hz: live.tx_frequency_hz,
        tx_drive: live.drive_level,
        ps_tx_attenuation: (live.ps_tx_attenuation % 256) as u8,
        rx_attenuation: (live.rx_attenuation % 32) as u8,
        alex1_rx2_freq_hz: if link.is_orion2 {
            Some(rx2)
        } else {
            None
        },
        puresignal_enabled: live.puresignal_enabled,
    }
}

fn datagram(port: u16, bytes: &[u8]) -> (d: P2Datagram)
    ensures
        d@ == (port, bytes@),
{
    P2Datagram { port, bytes: vstd::slice::slice_to_vec(bytes) }
}

impl P2Sender {
    /// A sender whose first full set is due at once.
    pub fn new(now_ns: u64) -> (s: Self)
        ensures
            s == (P2Sender {
                general_seq: 0,
                ddc_seq: 0,
                tx_seq: 0,
                hp_seq: 0,
                next_keepalive_ns: now_ns,
            }),
    {
        P2Sender {
            general_seq: 0,
            ddc_seq: 0,
            tx_seq: 0,
            hp_seq: 0,
            next_keepalive_ns: now_ns,
        }
    }

    /// What is due, given whether a status packet has come in.
    pub fn due(&self, now_ns: u64, hp_requested: bool) -> (d: P2Due)
        ensures
            d == (if now_ns >= self.next_keepalive_ns {
                P2Due::All
            } else if hp_requested {
                P2Due::HighPriority
            } else {
                P2Due::Nothing
            }),
    {
        if now_ns >= self.next_keepalive_ns {
            P2Due::All
        } else if hp_requested {
            P2Due::HighPriority
        } else {
            P2Due::Nothing
        }
    }

    /// Builds the packets that are due.
    pub fn cycle(&mut self, due: P2Due, link: &P2Link, live: &P2Live) -> (packets: Vec<P2Datagram>)
        ensures
            packets@.map_values(|d: P2Datagram| d@) == sends(*old(self), due, *link, *live),
            *final(self) == after_sends(*old(self), due),
    {
        let mut packets: Vec<P2Datagram> = Vec::new();
        if let P2Due::Nothing = due {
            assert(packets@.map_values(|d: P2Datagram| d@) =~= Seq::empty());
            return packets;
        }
        let freqs: Vec<u32> = frequency_list(live);
        let c: P2HpControl = resolve_hp(link, live);
        if let P2Due::All = due {
            let general = p2_general_packet(self.general_seq, link.num_adcs, live.disable_pa);
            let rates: Vec<u32> = rate_list(live);
            let adcs: Vec<u32> = adc_list(link, live);
            let ddc = p2_ddc_specific_packet(
                self.ddc_seq,
                rates.as_slice(),
                adcs.as_slice(),
                link.num_adcs,
                Some(live.puresignal_enabled && live.mox),
            );
            let t: P2TxControl = P2TxControl {
                mic_ptt_enabled: live.mic_ptt_enabled,
                mic_bias_enabled: live.mic_bias_enabled,
                mic_ptt_on_tip: live.mic_ptt_on_tip,
                mox: live.mox,
                ps_tx_attenuation: (live.ps_tx_attenuation % 256) as u8,
                cw_keyer: live.cw_keyer,
                cw_mode_active: live.cw_mode_active,
            };
            let tx = p2_tx_specific_packet(self.tx_seq, &t);
            packets.push(datagram(P2_GENERAL_PORT, general.as_slice()));
            packets.push(datagram(P2_DDC_SPECIFIC_PORT, ddc.as_slice()));
            packets.push(datagram(P2_DDC_SPECIFIC_PORT, ddc.as_slice()));
            packets.push(datagram(P2_TX_SPECIFIC_PORT, tx.as_slice()));
            self.general_seq = self.general_seq.wrapping_add(1);
            self.ddc_seq = self.ddc_seq.wrapping_add(1);
            self.tx_seq = self.tx_seq.wrapping_add(1);
        }
        let hp = p2_high_priority_packet(self.hp_seq, freqs.as_slice(), &c);
        packets.push(datagram(P2_HIGH_PRIORITY_PORT, hp.as_slice()));
        self.hp_seq = self.hp_seq.wrapping_add(1);
        assert(packets@.map_values(|d: P2Datagram| d@) =~= sends(*old(self), due, *link, *live));
        packets
    }

    /// Notes that a full set has gone out.
    pub fn keepalive_sent(&mut self, now_ns: u64)
        requires
            now_ns + P2_KEEPALIVE_INTERVAL_NS <= u64::MAX,
        ensures
            *final(self) == (P2Sender {
                next_keepalive_ns: (now_ns + P2_KEEPALIVE_INTERVAL_NS) as u64,
                ..*old(self)
            }),
    {
        self.next_keepalive_ns = now_ns + P2_KEEPALIVE_INTERVAL_NS;
    }
}

/// The frequencies, rates and converters describe equally many receivers
/// wherever the settings do, and the user's receivers start after the two
/// feedback receivers.
pub proof fn law_lists_agree(link: P2Link, live: P2Live)
    requires
        live.extra_frequencies_hz@.len() == live.extra_sample_rates_hz@.len(),
        live.extra_frequencies_hz@.len() == live.extra_adcs@.len(),
    ensures
        ddc_frequencies(live).len() == ddc_rates(live).len(),
        ddc_frequencies(live).len() == ddc_adcs(link, live).len(),
        ddc_frequencies(live)[2] == live.frequency_hz,
        live.extra_adcs@.len() + 1 >= active_receivers(live) ==> ddc_rates(live).len()
            == active_receivers(live) + 2,
{
}

/// While diversity is on, the second receiver is tuned and clocked like the
/// first and fed from the second converter.
pub proof fn law_diversity_pairs_receivers(link: P2Link, live: P2Live)
    requires
        live.diversity_enabled,
        active_receivers(live) >= 2,
    ensures
        ddc_frequencies(live)[3] == live.frequency_hz,
        ddc_rates(live)[3] == live.sample_rate,
        ddc_adcs(link, live)[3] == 1,
{
}

/// The front end's filters follow the user's first receiver, wherever the
/// transmitter is tuned, while the feedback receivers follow the
/// transmitter.
pub proof fn law_filters_follow_first_receiver(seq: u32, link: P2Link, live: P2Live)
    ensures
        ({
            let hp = protocol2::high_priority_packet(
                seq,
                ddc_frequencies(live),
                hp_control(link, live),
            );
            let tx = bytes::be32(protocol2::phase(live.tx_frequency_hz) as u32);
            &&& hp.subrange(1432, 1436) == bytes::be32(
                alex::alex0(
                    live.frequency_hz,
                    hp_control(link, live).antenna,
                    live.disable_pa,
                    live.puresignal_enabled,
                ),
            )
            &&& hp.subrange(9, 13) == tx
            &&& hp.subrange(13, 17) == tx
            &&& hp.subrange(17, 21) == bytes::be32(protocol2::phase(live.frequency_hz) as u32)
            &&& hp.subrange(329, 333) == tx
        }),
{
    let c = hp_control(link, live);
    let f = ddc_frequencies(live);
    protocol2::lemma_high_priority_bytes(seq, f, c, 0);
    protocol2::lemma_high_priority_bytes(seq, f, c, 1);
    protocol2::lemma_high_priority_bytes(seq, f, c, 2);
}

/// The receivers in the order of their packets: the two feedback receivers
/// at the transmitter's frequency and 192 kHz, the first from converter 0
/// and the second from the one behind the real ones; then the user's first,
/// and then the others that are active and have settings. While diversity
/// is on, the second of the user's has the first's frequency and rate, and
/// converter 1.
pub proof fn law_receivers_in_order(link: P2Link, live: P2Live, k: int)
    requires
        0 <= k,
    ensures
        ({
            let f = ddc_frequencies(live);
            let r = ddc_rates(live);
            let a = ddc_adcs(link, live);
            let paired = live.diversity_enabled && live.active_receiver_count >= 2;
            let active = k + 1 < live.active_receiver_count;
            &&& f[0] == live.tx_frequency_hz && f[1] == live.tx_frequency_hz && f[2]
                == live.frequency_hz
            &&& r[0] == 192_000 && r[1] == 192_000 && r[2] == live.sample_rate
            &&& a[0] == 0 && a[1] == link.num_adcs && a[2] == live.adc
            &&& paired ==> f[3] == live.frequency_hz && r[3] == live.sample_rate && a[3] == 1
            &&& active && k < live.extra_frequencies_hz@.len() && !(paired && k == 0) ==> k + 3
                < f.len() && f[k + 3] == live.extra_frequencies_hz@[k]
            &&& active && k < live.extra_sample_rates_hz@.len() && !(paired && k == 0) ==> k + 3
                < r.len() && r[k + 3] == live.extra_sample_rates_hz@[k]
            &&& active && k < live.extra_adcs@.len() && !(paired && k == 0) ==> k + 3 < a.len()
                && a[k + 3] == live.extra_adcs@[k]
            &&& !active && !(paired && k == 0) ==> f.len() <= k + 3 && r.len() <= k + 3 && a.len()
                <= k + 3
            &&& k >= live.extra_frequencies_hz@.len() && !(paired && k == 0) ==> f.len() <= k + 3
        }),
{
}

/// What a full set holds and where it goes: the general packet to port
/// 1024, the receiver packet twice to 1025, the transmitter packet to 1026
/// and the high-priority packet to 1027. An answer is the last of these
/// alone.
pub proof fn law_packets_and_ports(s: P2Sender, link: P2Link, live: P2Live)
    ensures
        ({
            let all = sends(s, P2Due::All, link, live);
            let answer = sends(s, P2Due::HighPriority, link, live);
            &&& all.len() == 5
            &&& all[0].0 == 1024 && all[0].1 == protocol2::general_packet(
                s.general_seq,
                link.num_adcs,
                live.disable_pa,
            )
            &&& all[1].0 == 1025 && all[1].1 == protocol2::ddc_specific_packet(
                s.ddc_seq,
                ddc_rates(live),
                ddc_adcs(link, live),
                link.num_adcs,
                Some(live.puresignal_enabled && live.mox),
            )
            &&& all[2] == all[1]
            &&& all[3].0 == 1026
            &&& all[4].0 == 1027
            &&& answer.len() == 1 && answer[0] == all[4]
            &&& sends(s, P2Due::Nothing, link, live).len() == 0
        }),
{
}

/// Every packet of a kind has the next number; what was not sent keeps its
/// number.
pub proof fn law_packets_are_numbered(s: P2Sender)
    ensures
        ({
            let t = after_sends(s, P2Due::All);
            let u = after_sends(s, P2Due::HighPriority);
            &&& t.general_seq == (s.general_seq + 1) % 0x1_0000_0000
            &&& t.ddc_seq == (s.ddc_seq + 1) % 0x1_0000_0000
            &&& t.tx_seq == (s.tx_seq + 1) % 0x1_0000_0000
            &&& t.hp_seq == (s.hp_seq + 1) % 0x1_0000_0000
            &&& t.next_keepalive_ns == s.next_keepalive_ns
            &&& u.hp_seq == (s.hp_seq + 1) % 0x1_0000_0000
            &&& u.general_seq == s.general_seq && u.ddc_seq == s.ddc_seq && u.tx_seq == s.tx_seq
                && u.next_keepalive_ns == s.next_keepalive_ns
            &&& after_sends(s, P2Due::Nothing) == s
        }),
{
}

/// The number of a packet is the one that its kind has reached.
pub proof fn law_numbers_stand_in_packets(s: P2Sender, link: P2Link, live: P2Live)
    ensures
        protocol2::word_in(sends(s, P2Due::All, link, live)[0].1, 0) == s.general_seq,
        protocol2::word_in(sends(s, P2Due::All, link, live)[1].1, 0) == s.ddc_seq,
        protocol2::word_in(sends(s, P2Due::All, link, live)[3].1, 0) == s.tx_seq,
        protocol2::word_in(sends(s, P2Due::All, link, live)[4].1, 0) == s.hp_seq,
{
    let all = sends(s, P2Due::All, link, live);
    assert(protocol2::word_in(all[0].1, 0) == s.general_seq) by {
        protocol2::law_general_packet(s.general_seq, link.num_adcs, live.disable_pa, 0);
    }
    assert(protocol2::word_in(all[1].1, 0) == s.ddc_seq) by {
        protocol2::law_receiver_packet(
            s.ddc_seq,
            ddc_rates(live),
            ddc_adcs(link, live),
            link.num_adcs,
            Some(live.puresignal_enabled && live.mox),
            0,
        );
    }
    assert(protocol2::word_in(all[3].1, 0) == s.tx_seq) by {
        protocol2::law_transmitter_packet(s.tx_seq, tx_control(live));
    }
    assert(protocol2::word_in(all[4].1, 0) == s.hp_seq) by {
        protocol2::law_high_priority_tuning(
            s.hp_seq,
            ddc_frequencies(live),
            hp_control(link, live),
            0,
        );
    }
}

/// The high-priority packet as the settings want it: the key, the tuning of
/// transmitter and receivers, the drive while keyed, the outputs and
/// attenuators of the direction in use, and both front ends' words.
pub proof fn law_settings_in_the_high_priority_packet(
    s: P2Sender,
    link: P2Link,
    live: P2Live,
    k: int,
)
    requires
        ddc_frequencies(live).len() <= 80,
        0 <= k < ddc_frequencies(live).len(),
    ensures
        ({
            let p = sends(s, P2Due::HighPriority, link, live)[0].1;
            let outputs = if live.mox {
                live.oc_tx
            } else {
                live.oc_rx
            };
            let a = AntennaState {
                rx_antenna: live.rx_antenna,
                tx_antenna: live.tx_antenna,
                mox: live.mox,
                is_orion2: link.is_orion2,
                new_pa_board: live.new_pa_board,
            };
            let second = if live.diversity_enabled || live.adc == 1
                || live.extra_frequencies_hz@.len() == 0 {
                live.frequency_hz
            } else {
                live.extra_frequencies_hz@[0]
            };
            &&& p[4] == (if live.mox {
                3int
            } else {
                1
            })
            &&& protocol2::tunes_to(protocol2::word_in(p, 329), live.tx_frequency_hz)
            &&& protocol2::tunes_to(protocol2::word_in(p, 9 + 4 * k), ddc_frequencies(live)[k])
            &&& p[345] == (if live.mox {
                live.drive_level as int
            } else {
                0
            })
            &&& p[1401] == 2 * (outputs % 128)
            &&& p[1400] == (if link.is_orion2 && live.rx_antenna == 5 {
                1int
            } else {
                0
            })
            &&& p[1428] == (if live.disable_pa {
                0int
            } else {
                8
            })
            &&& p[1429] == (if live.puresignal_enabled {
                4int
            } else {
                0
            })
            &&& protocol2::word_in(p, 1432) == alex::alex0(
                live.frequency_hz,
                a,
                live.disable_pa,
                live.puresignal_enabled,
            )
            &&& p[1430] * 0x100 + p[1431] == (if link.is_orion2 {
                alex::alex1(second, live.mox) as int
            } else {
                0
            })
            &&& p[1442] == (if live.mox {
                31
            } else {
                live.rx_attenuation as int % 32
            })
            &&& p[1443] == (if live.mox {
                live.ps_tx_attenuation as int % 256
            } else {
                live.rx_attenuation as int % 32
            })
        }),
{
    let c = hp_control(link, live);
    protocol2::law_high_priority_controls(s.hp_seq, ddc_frequencies(live), c);
    protocol2::law_high_priority_tuning(s.hp_seq, ddc_frequencies(live), c, k);
}

/// The transmitter packet as the settings want it.
pub proof fn law_settings_in_the_transmitter_packet(s: P2Sender, link: P2Link, live: P2Live)
    ensures
        sends(s, P2Due::All, link, live)[3].1 == protocol2::tx_specific_packet(
            s.tx_seq,
            P2TxControl {
                mic_ptt_enabled: live.mic_ptt_enabled,
                mic_bias_enabled: live.mic_bias_enabled,
                mic_ptt_on_tip: live.mic_ptt_on_tip,
                mox: live.mox,
                ps_tx_attenuation: (live.ps_tx_attenuation % 256) as u8,
                cw_keyer: live.cw_keyer,
                cw_mode_active: live.cw_mode_active,
            },
        ),
{
}

/// A full set is due four times a second.
pub proof fn law_keepalive_interval()
    ensures
        4 * P2_KEEPALIVE_INTERVAL_NS == 1_000_000_000,
{
}

} // verus!
