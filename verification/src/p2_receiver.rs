//! Protocol 2: what a radio sends. The source port tells what a packet is.
use crate::bytes::{self, i16_of, sign_extend_24, u16_of};
use crate::protocol2::{
    P2_DDC0_IQ_PORT, P2_HP_STATUS_SOURCE_PORT, P2_PACKET_SIZE, P2_TX_SPECIFIC_PORT,
};
use crate::queue::{self, push_sample, IqSample};
use crate::rx_state::{
    RadioStatus, RxModel, RxState, PS_FEEDBACK_BUFFER_CAPACITY, RADIO_MIC_AUDIO_CAPACITY,
};
use std::collections::VecDeque;
use vstd::prelude::*;

verus! {

/// Receivers set aside for feedback, whether or not it is in use.
pub const RESERVED_DDCS: usize = 2;

pub const P2_MIC_SAMPLES_PER_FRAME: usize = 64;

/// The sample at byte `b` of a packet.
pub open spec fn sample_at(p: Seq<u8>, b: int) -> IqSample {
    IqSample {
        i: bytes::value24(p[b], p[b + 1], p[b + 2]) as i32,
        q: bytes::value24(p[b + 3], p[b + 4], p[b + 5]) as i32,
    }
}

/// The sample count that a packet declares.
pub open spec fn declared(p: Seq<u8>) -> int {
    p[14] * 256 + p[15]
}

pub open spec fn lesser(a: int, b: int) -> int {
    if a < b {
        a
    } else {
        b
    }
}

/// The samples of a receiver's packet: as many as it declares and has room
/// for.
pub open spec fn ddc_samples(p: Seq<u8>) -> Seq<IqSample> {
    if p.len() < 16 {
        Seq::empty()
    } else {
        Seq::new(
            lesser(declared(p), (p.len() - 16) / 6) as nat,
            |k: int| sample_at(p, 16 + 6 * k),
        )
    }
}

/// Sample pairs in a feedback packet: receive and transmit feedback take
/// turns.
pub open spec fn feedback_pairs(p: Seq<u8>) -> int {
    if p.len() < 16 {
        0
    } else {
        lesser(declared(p) / 2, (p.len() - 16) / 12)
    }
}

pub open spec fn rx_feedback_samples(p: Seq<u8>) -> Seq<IqSample> {
    Seq::new(feedback_pairs(p) as nat, |k: int| sample_at(p, 16 + 12 * k))
}

pub open spec fn tx_feedback_samples(p: Seq<u8>) -> Seq<IqSample> {
    Seq::new(feedback_pairs(p) as nat, |k: int| sample_at(p, 22 + 12 * k))
}

/// The samples of a microphone packet; none where it is too short.
pub open spec fn mic_samples(p: Seq<u8>) -> Seq<i16> {
    if p.len() < 132 {
        Seq::empty()
    } else {
        Seq::new(64, |k: int| bytes::value16((p[4 + 2 * k] * 256 + p[5 + 2 * k]) as u16))
    }
}

/// Adds a packet's samples to a receiver's queue.
pub fn p2_parse_ddc_iq_packet(packet: &[u8], q: &mut VecDeque<IqSample>, capacity: usize)
    ensures
        final(q)@ == queue::push_all(old(q)@, ddc_samples(packet@), capacity as nat),
{
    if packet.len() < 16 {
        return;
    }
    let room: usize = (packet.len() - 16) / 6;
    let told: usize = u16_of(packet[14], packet[15]) as usize;
    let n: usize = if told < room {
        told
    } else {
        room
    };
    let ghost all = ddc_samples(packet@);
    assert(all.take(0) =~= Seq::empty());
    for k in 0..n
        invariant
            all == ddc_samples(packet@),
            packet@.len() >= 16,
            n == all.len(),
            n <= (packet@.len() - 16) / 6,
            q@ == queue::push_all(old(q)@, all.take(k as int), capacity as nat),
    {
        let b: usize = 16 + 6 * k;
        let i: i32 = sign_extend_24(packet[b], packet[b + 1], packet[b + 2]);
        let v: i32 = sign_extend_24(packet[b + 3], packet[b + 4], packet[b + 5]);
        proof {
            queue::lemma_push_all_step(old(q)@, all, k as int, capacity as nat);
        }
        push_sample(q, IqSample { i, q: v }, capacity);
    }
    assert(all.take(n as int) =~= all);
}

/// Adds a feedback packet's samples to the two feedback queues.
pub fn p2_parse_ps_feedback_packet(
    packet: &[u8],
    rx_feedback: &mut VecDeque<IqSample>,
    tx_feedback: &mut VecDeque<IqSample>,
    capacity: usize,
)
    ensures
        final(rx_feedback)@ == queue::push_all(
            old(rx_feedback)@,
            rx_feedback_samples(packet@),
            capacity as nat,
        ),
        final(tx_feedback)@ == queue::push_all(
            old(tx_feedback)@,
            tx_feedback_samples(packet@),
            capacity as nat,
        ),
{
    if packet.len() < 16 {
        return;
    }
    let room: usize = (packet.len() - 16) / 12;
    let told: usize = u16_of(packet[14], packet[15]) as usize / 2;
    let n: usize = if told < room {
        told
    } else {
        room
    };
    let ghost rx = rx_feedback_samples(packet@);
    let ghost tx = tx_feedback_samples(packet@);
    assert(rx.take(0) =~= Seq::empty());
    assert(tx.take(0) =~= Seq::empty());
    for k in 0..n
        invariant
            rx == rx_feedback_samples(packet@),
            tx == tx_feedback_samples(packet@),
            packet@.len() >= 16,
            n == rx.len(),
            n == tx.len(),
            n <= (packet@.len() - 16) / 12,
            rx_feedback@ == queue::push_all(old(rx_feedback)@, rx.take(k as int), capacity as nat),
            tx_feedback@ == queue::push_all(old(tx_feedback)@, tx.take(k as int), capacity as nat),
    {
        let b: usize = 16 + 12 * k;
        let r: IqSample = IqSample {
            i: sign_extend_24(packet[b], packet[b + 1], packet[b + 2]),
            q: sign_extend_24(packet[b + 3], packet[b + 4], packet[b + 5]),
        };
        let t: IqSample = IqSample {
            i: sign_extend_24(packet[b + 6], packet[b + 7], packet[b + 8]),
            q: sign_extend_24(packet[b + 9], packet[b + 10], packet[b + 11]),
        };
        proof {
            queue::lemma_push_all_step(old(rx_feedback)@, rx, k as int, capacity as nat);
            queue::lemma_push_all_step(old(tx_feedback)@, tx, k as int, capacity as nat);
        }
        push_sample(rx_feedback, r, capacity);
        push_sample(tx_feedback, t, capacity);
    }
    assert(rx.take(n as int) =~= rx);
    assert(tx.take(n as int) =~= tx);
}

/// Adds a microphone packet's samples.
pub fn p2_parse_mic_packet(packet: &[u8], out: &mut RxState)
    ensures
        final(out)@ == (RxModel {
            mic: queue::push_all(
                old(out)@.mic,
                mic_samples(packet@),
                RADIO_MIC_AUDIO_CAPACITY as nat,
            ),
            ..old(out)@
        }),
{
    if packet.len() < 4 + P2_MIC_SAMPLES_PER_FRAME * 2 {
        assert(mic_samples(packet@) =~= Seq::empty());
        return;
    }
    let ghost all = mic_samples(packet@);
    assert(all.take(0) =~= Seq::empty());
    assert(out@ =~= RxModel { mic: out@.mic, ..old(out)@ });
    for k in 0..P2_MIC_SAMPLES_PER_FRAME
        invariant
            all == mic_samples(packet@),
            packet@.len() >= 132,
            all.len() == 64,
            out@ == (RxModel {
                mic: queue::push_all(
                    old(out)@.mic,
                    all.take(k as int),
                    RADIO_MIC_AUDIO_CAPACITY as nat,
                ),
                ..old(out)@
            }),
    {
        let s: i16 = i16_of(u16_of(packet[4 + 2 * k], packet[5 + 2 * k]));
        proof {
            queue::lemma_push_all_step(
                old(out)@.mic,
                all,
                k as int,
                RADIO_MIC_AUDIO_CAPACITY as nat,
            );
        }
        out.push_mic(s);
    }
    assert(all.take(64) =~= all);
}

// ---------------------------------------------------------------------
// Status
// ---------------------------------------------------------------------

/// Running averages of the power readings.
#[derive(Clone, Copy, Debug, PartialEq, Eq, Structural)]
pub struct PowerAverages {
    pub forward: u32,
    pub reverse: u32,
}

impl PowerAverages {
    /// Averages stay within the range of the readings.
    pub open spec fn wf(self) -> bool {
        self.forward <= 0xFFFF && self.reverse <= 0xFFFF
    }

    pub fn new() -> (a: Self)
        ensures
            a == (PowerAverages { forward: 0, reverse: 0 }),
            a.wf(),
    {
        PowerAverages { forward: 0, reverse: 0 }
    }
}

/// A new reading weighs one sixteenth.
pub open spec fn averaged(average: u32, reading: int) -> int {
    (15 * average + reading) / 16
}

pub open spec fn averages_after(a: PowerAverages, p: Seq<u8>) -> PowerAverages {
    if p.len() >= 24 {
        PowerAverages {
            forward: averaged(a.forward, p[14] * 256 + p[15]) as u32,
            reverse: averaged(a.reverse, p[22] * 256 + p[23]) as u32,
        }
    } else {
        a
    }
}

/// The status after a status packet. Short packets update only what they
/// are long enough to hold.
pub open spec fn status_after(s: RadioStatus, a: PowerAverages, p: Seq<u8>) -> RadioStatus {
    RadioStatus {
        tx_forward_power: if p.len() >= 24 {
            averages_after(a, p).forward
        } else {
            s.tx_forward_power
        },
        tx_reverse_power: if p.len() >= 24 {
            averages_after(a, p).reverse
        } else {
            s.tx_reverse_power
        },
        adc0_overload: if p.len() >= 6 {
            p[5] % 2 == 1
        } else {
            s.adc0_overload
        },
        adc1_overload: if p.len() >= 6 {
            (p[5] / 2) % 2 == 1
        } else {
            s.adc1_overload
        },
        cw_ptt_active: if p.len() >= 5 {
            p[4] % 2 == 1
        } else {
            s.cw_ptt_active
        },
        cw_paddle_contacts: if p.len() >= 5 {
            ((p[4] / 2) % 2 + 2 * ((p[4] / 4) % 2)) as u8
        } else {
            s.cw_paddle_contacts
        },
        tx_fifo_underrun: if p.len() >= 5 {
            (p[4] / 32) % 2 == 1
        } else {
            s.tx_fifo_underrun
        },
        tx_fifo_overrun: if p.len() >= 5 {
            (p[4] / 64) % 2 == 1
        } else {
            s.tx_fifo_overrun
        },
    }
}

/// Reads a status packet.
pub fn p2_parse_status_packet(packet: &[u8], averages: &mut PowerAverages, status: &mut RadioStatus)
    requires
        old(averages).wf(),
    ensures
        *final(status) == status_after(*old(status), *old(averages), packet@),
        *final(averages) == averages_after(*old(averages), packet@),
        final(averages).wf(),
{
    if packet.len() >= 24 {
        let forward: u32 = u16_of(packet[14], packet[15]) as u32;
        averages.forward = (15 * averages.forward + forward) / 16;
        status.tx_forward_power = averages.forward;
        let reverse: u32 = u16_of(packet[22], packet[23]) as u32;
        averages.reverse = (15 * averages.reverse + reverse) / 16;
        status.tx_reverse_power = averages.reverse;
    }
    if packet.len() >= 6 {
        status.adc0_overload = packet[5] % 2 == 1;
        status.adc1_overload = (packet[5] / 2) % 2 == 1;
    }
    if packet.len() >= 5 {
        let b: u8 = packet[4];
        status.tx_fifo_overrun = (b / 64) % 2 == 1;
        status.tx_fifo_underrun = (b / 32) % 2 == 1;
        status.cw_ptt_active = b % 2 == 1;
        status.cw_paddle_contacts = (b / 2) % 2 + 2 * ((b / 4) % 2);
    }
}

// ---------------------------------------------------------------------
// Telling packets apart
// ---------------------------------------------------------------------

/// What a packet is.
#[derive(Clone, Copy, Debug, PartialEq, Eq, Structural)]
pub enum P2Source {
    /// Both feedback streams.
    Feedback,
    /// The first receiver's samples, to be combined with the second's.
    DiversityMain,
    Receiver(usize),
    Status,
    Mic,
    /// Nothing that is listened to.
    Ignored,
}

/// What a packet of `len` bytes from `port` is, where there are queues for
/// `receivers` receivers. A reserved receiver's packet is dropped unless it
/// is feedback that is wanted.
pub open spec fn source_of(
    port: u16,
    len: nat,
    receivers: nat,
    puresignal: bool,
    diversity: bool,
) -> P2Source {
    let ddc = port - P2_DDC0_IQ_PORT;
    if 0 <= ddc < receivers + RESERVED_DDCS {
        if len != P2_PACKET_SIZE {
            P2Source::Ignored
        } else if puresignal && ddc == 0 {
            P2Source::Feedback
        } else if ddc < RESERVED_DDCS {
            P2Source::Ignored
        } else if diversity && ddc == RESERVED_DDCS {
            P2Source::DiversityMain
        } else {
            P2Source::Receiver((ddc - RESERVED_DDCS) as usize)
        }
    } else if port == P2_HP_STATUS_SOURCE_PORT {
        P2Source::Status
    } else if port == P2_TX_SPECIFIC_PORT {
        P2Source::Mic
    } else {
        P2Source::Ignored
    }
}

pub fn classify(port: u16, len: usize, receivers: usize, puresignal: bool, diversity: bool) -> (s:
    P2Source)
    ensures
        s == source_of(port, len as nat, receivers as nat, puresignal, diversity),
        s matches P2Source::Receiver(i) ==> i < receivers,
{
    if port >= P2_DDC0_IQ_PORT {
        let ddc: usize = (port - P2_DDC0_IQ_PORT) as usize;
        if ddc < RESERVED_DDCS || ddc - RESERVED_DDCS < receivers {
            if len != P2_PACKET_SIZE {
                return P2Source::Ignored;
            }
            if puresignal && ddc == 0 {
                return P2Source::Feedback;
            }
            if ddc < RESERVED_DDCS {
                return P2Source::Ignored;
            }
            if diversity && ddc == RESERVED_DDCS {
                return P2Source::DiversityMain;
            }
            return P2Source::Receiver(ddc - RESERVED_DDCS);
        }
        P2Source::Ignored
    } else if port == P2_HP_STATUS_SOURCE_PORT {
        P2Source::Status
    } else if port == P2_TX_SPECIFIC_PORT {
        P2Source::Mic
    } else {
        P2Source::Ignored
    }
}

/// The effect of a packet.
pub open spec fn packet_effect(
    m: RxModel,
    a: PowerAverages,
    source: P2Source,
    p: Seq<u8>,
    capacity: nat,
) -> RxModel {
    match source {
        P2Source::Feedback => RxModel {
            ps_rx: queue::push_all(
                m.ps_rx,
                rx_feedback_samples(p),
                PS_FEEDBACK_BUFFER_CAPACITY as nat,
            ),
            ps_tx: queue::push_all(
                m.ps_tx,
                tx_feedback_samples(p),
                PS_FEEDBACK_BUFFER_CAPACITY as nat,
            ),
            ..m
        },
        P2Source::DiversityMain => RxModel {
            diversity_main: queue::push_all(m.diversity_main, ddc_samples(p), capacity),
            ..m
        },
        P2Source::Receiver(i) => RxModel {
            iq: m.iq.update(i as int, queue::push_all(m.iq[i as int], ddc_samples(p), capacity)),
            ..m
        },
        P2Source::Status => RxModel { status: status_after(m.status, a, p), ..m },
        P2Source::Mic => RxModel {
            mic: queue::push_all(m.mic, mic_samples(p), RADIO_MIC_AUDIO_CAPACITY as nat),
            ..m
        },
        P2Source::Ignored => m,
    }
}

/// Takes in one packet, and returns whether it is a status packet, which
/// wants to be answered.
pub fn p2_handle_packet(
    port: u16,
    packet: &[u8],
    capacity: usize,
    puresignal: bool,
    diversity: bool,
    averages: &mut PowerAverages,
    out: &mut RxState,
) -> (answer: bool)
    requires
        old(averages).wf(),
    ensures
        ({
            let source = source_of(
                port,
                packet@.len(),
                old(out)@.iq.len(),
                puresignal,
                diversity,
            );
            &&& final(out)@ == packet_effect(
                old(out)@,
                *old(averages),
                source,
                packet@,
                capacity as nat,
            )
            &&& answer == (source == P2Source::Status)
            &&& *final(averages) == (if source == P2Source::Status {
                averages_after(*old(averages), packet@)
            } else {
                *old(averages)
            })
        }),
        final(averages).wf(),
{
    let source: P2Source = classify(
        port,
        packet.len(),
        out.iq_buffers.len(),
        puresignal,
        diversity,
    );
    match source {
        P2Source::Feedback => p2_parse_ps_feedback_packet(
            packet,
            &mut out.ps_rx_feedback_iq,
            &mut out.ps_tx_feedback_iq,
            PS_FEEDBACK_BUFFER_CAPACITY,
        ),
        P2Source::DiversityMain => p2_parse_ddc_iq_packet(
            packet,
            &mut out.diversity_main_raw_iq,
            capacity,
        ),
        P2Source::Receiver(i) => p2_parse_ddc_iq_packet(
            packet,
            &mut out.iq_buffers[i],
            capacity,
        ),
        P2Source::Status => p2_parse_status_packet(packet, averages, &mut out.status),
        P2Source::Mic => p2_parse_mic_packet(packet, out),
        P2Source::Ignored => {},
    }
    assert(out@ =~= packet_effect(
        old(out)@,
        *old(averages),
        source,
        packet@,
        capacity as nat,
    ));
    source == P2Source::Status
}

/// A feedback packet keeps the two feedback queues in step.
pub proof fn law_feedback_in_step(m: RxModel, a: PowerAverages, p: Seq<u8>, capacity: nat)
    requires
        m.ps_rx.len() == m.ps_tx.len(),
    ensures
        packet_effect(m, a, P2Source::Feedback, p, capacity).ps_rx.len() == packet_effect(
            m,
            a,
            P2Source::Feedback,
            p,
            capacity,
        ).ps_tx.len(),
{
    queue::law_queues_in_step(
        m.ps_rx,
        rx_feedback_samples(p),
        m.ps_tx,
        tx_feedback_samples(p),
        PS_FEEDBACK_BUFFER_CAPACITY as nat,
    );
}

/// An average lies between the old average and the reading, rounding down.
pub proof fn law_average_bounds(average: u32, reading: int)
    requires
        0 <= reading,
    ensures
        averaged(average, reading) <= average || averaged(average, reading) <= reading,
        averaged(average, reading) + 1 > average || averaged(average, reading) + 1 > reading,
{
}

/// Packets of the two reserved receivers never reach a user's queue.
pub proof fn law_reserved_never_leak(
    port: u16,
    len: nat,
    receivers: nat,
    puresignal: bool,
    diversity: bool,
)
    requires
        P2_DDC0_IQ_PORT <= port < P2_DDC0_IQ_PORT + RESERVED_DDCS,
    ensures
        ({
            let s = source_of(port, len, receivers, puresignal, diversity);
            s == P2Source::Ignored || (s == P2Source::Feedback && puresignal)
        }),
{
}

/// A packet from `at` on, every `step` bytes, holds the samples `xs`: of
/// each, first the in-phase part and then the quadrature part, in three
/// bytes each.
pub open spec fn packet_holds(p: Seq<u8>, at: int, step: int, xs: Seq<IqSample>) -> bool {
    forall|k: int|
        0 <= k < xs.len() ==> bytes::holds_24(p, at + step * k, (#[trigger] xs[k]).i as int)
            && bytes::holds_24(p, at + step * k + 3, xs[k].q as int)
}

proof fn lemma_packet_holds(p: Seq<u8>, at: int, step: int, xs: Seq<IqSample>)
    requires
        packet_holds(p, at, step, xs),
    ensures
        forall|k: int| 0 <= k < xs.len() ==> sample_at(p, at + step * k) == #[trigger] xs[k],
{
    assert forall|k: int| 0 <= k < xs.len() implies sample_at(p, at + step * k)
        == #[trigger] xs[k] by {
        bytes::law_bytes_read_as_held(p, at + step * k, xs[k].i as int);
        bytes::law_bytes_read_as_held(p, at + step * k + 3, xs[k].q as int);
    }
}

/// A packet of the user's receiver `k`, which comes from port 1037 + `k`,
/// adds the samples that it holds to queue `k`, and touches nothing else.
/// While diversity is on, the first receiver's samples go to the queue for
/// combining instead. A packet holds as many samples as it declares, at most
/// 238.
pub proof fn law_receiver_packets_reach_their_queue(
    m: RxModel,
    a: PowerAverages,
    port: u16,
    p: Seq<u8>,
    capacity: nat,
    puresignal: bool,
    diversity: bool,
    k: int,
    xs: Seq<IqSample>,
)
    requires
        0 <= k < m.iq.len(),
        port == 1037 + k,
        p.len() == 1444,
        xs.len() == (if p[14] * 0x100 + p[15] < 238 {
            p[14] * 0x100 + p[15]
        } else {
            238
        }),
        packet_holds(p, 16, 6, xs),
    ensures
        ({
            let source = source_of(port, p.len(), m.iq.len(), puresignal, diversity);
            let after = packet_effect(m, a, source, p, capacity);
            let combined = diversity && k == 0;
            &&& after.iq.len() == m.iq.len()
            &&& !combined ==> after.iq[k] == queue::push_all(m.iq[k], xs, capacity)
            &&& !combined ==> after.diversity_main == m.diversity_main
            &&& combined ==> after.iq[k] == m.iq[k]
            &&& combined ==> after.diversity_main == queue::push_all(
                m.diversity_main,
                xs,
                capacity,
            )
            &&& forall|j: int|
                0 <= j < m.iq.len() && j != k ==> #[trigger] after.iq[j] == m.iq[j]
            &&& after.ps_rx == m.ps_rx
            &&& after.ps_tx == m.ps_tx
            &&& after.mic == m.mic
            &&& after.status == m.status
            &&& source != P2Source::Status
        }),
{
    lemma_packet_holds(p, 16, 6, xs);
    assert(ddc_samples(p) =~= xs);
}

/// A packet from port 1035 holds pairs of feedback samples, receive and
/// transmit in turn. Where feedback is wanted each goes to its own queue of
/// 100,000 samples, and nothing else changes. Where it is not, and of the
/// other reserved receiver at port 1036, nothing at all changes.
pub proof fn law_feedback_packets_reach_their_queues(
    m: RxModel,
    a: PowerAverages,
    p: Seq<u8>,
    capacity: nat,
    puresignal: bool,
    diversity: bool,
    rx: Seq<IqSample>,
    tx: Seq<IqSample>,
)
    requires
        p.len() == 1444,
        rx.len() == (if (p[14] * 0x100 + p[15]) / 2 < 119 {
            (p[14] * 0x100 + p[15]) / 2
        } else {
            119
        }),
        tx.len() == rx.len(),
        packet_holds(p, 16, 12, rx),
        packet_holds(p, 22, 12, tx),
    ensures
        ({
            let source = source_of(1035, p.len(), m.iq.len(), puresignal, diversity);
            let other = source_of(1036, p.len(), m.iq.len(), puresignal, diversity);
            &&& puresignal ==> packet_effect(m, a, source, p, capacity) == (RxModel {
                ps_rx: queue::push_all(m.ps_rx, rx, 100_000),
                ps_tx: queue::push_all(m.ps_tx, tx, 100_000),
                ..m
            })
            &&& !puresignal ==> packet_effect(m, a, source, p, capacity) == m
            &&& packet_effect(m, a, other, p, capacity) == m
            &&& source != P2Source::Status && other != P2Source::Status
        }),
{
    lemma_packet_holds(p, 16, 12, rx);
    lemma_packet_holds(p, 22, 12, tx);
    assert(rx_feedback_samples(p) =~= rx);
    assert(tx_feedback_samples(p) =~= tx);
}

/// A packet from port 1026 adds its 64 microphone samples, which stand
/// behind four bytes, to a queue of 24,000, and touches nothing else. One
/// that is too short for them is dropped.
pub proof fn law_microphone_packets_reach_their_queue(
    m: RxModel,
    a: PowerAverages,
    p: Seq<u8>,
    capacity: nat,
    puresignal: bool,
    diversity: bool,
    xs: Seq<i16>,
)
    requires
        xs.len() == 64,
        p.len() >= 132 ==> forall|k: int|
            0 <= k < 64 ==> bytes::holds_16(p, 4 + 2 * k, (#[trigger] xs[k]) as int),
    ensures
        ({
            let source = source_of(1026, p.len(), m.iq.len(), puresignal, diversity);
            &&& p.len() >= 132 ==> packet_effect(m, a, source, p, capacity) == (RxModel {
                mic: queue::push_all(m.mic, xs, 24_000),
                ..m
            })
            &&& p.len() < 132 ==> packet_effect(m, a, source, p, capacity) == m
            &&& source != P2Source::Status
        }),
{
    if p.len() >= 132 {
        let read = mic_samples(p);
        assert forall|k: int| 0 <= k < 64 implies #[trigger] read[k] == xs[k] by {
            bytes::law_bytes_read_as_held(p, 4 + 2 * k, xs[k] as int);
        }
        assert(read =~= xs);
    } else {
        assert(mic_samples(p) =~= Seq::empty());
    }
}

/// Packets from any other port, and packets of a receiver that have not the
/// full size, change nothing. Only those from port 1025 are status packets.
pub proof fn law_other_packets_change_nothing(
    m: RxModel,
    a: PowerAverages,
    port: u16,
    p: Seq<u8>,
    capacity: nat,
    puresignal: bool,
    diversity: bool,
)
    ensures
        ({
            let source = source_of(port, p.len(), m.iq.len(), puresignal, diversity);
            let receiver = 1035 <= port < 1037 + m.iq.len();
            &&& port != 1025 && port != 1026 && !receiver ==> packet_effect(
                m,
                a,
                source,
                p,
                capacity,
            ) == m
            &&& receiver && p.len() != 1444 ==> packet_effect(m, a, source, p, capacity) == m
            &&& source == P2Source::Status <==> port == 1025
        }),
{
}

proof fn lemma_status_bits(b: u8)
    by (bit_vector)
    ensures
        (b & 0x01 == 0x01) == (b % 2 == 1),
        (b & 0x02 == 0x02) == ((b / 2) % 2 == 1),
        (b & 0x04 == 0x04) == ((b / 4) % 2 == 1),
        (b & 0x20 == 0x20) == ((b / 32) % 2 == 1),
        (b & 0x40 == 0x40) == ((b / 64) % 2 == 1),
        (b / 2) % 2 < 2 && (b / 4) % 2 < 2,
{
}

/// What a status packet tells: in its fifth byte the key, the dot and the
/// dash contact and the state of the transmit queue, in its sixth the
/// overloads. One that ends before a byte tells nothing of what is there.
/// Nothing but the status changes.
pub proof fn law_status_packets(
    m: RxModel,
    a: PowerAverages,
    p: Seq<u8>,
    capacity: nat,
    puresignal: bool,
    diversity: bool,
)
    ensures
        ({
            let source = source_of(1025, p.len(), m.iq.len(), puresignal, diversity);
            let after = packet_effect(m, a, source, p, capacity);
            let s = m.status;
            let t = after.status;
            &&& after == (RxModel { status: t, ..m })
            &&& p.len() >= 5 ==> (t.cw_ptt_active <==> p[4] & 0x01 == 0x01)
            &&& p.len() >= 5 ==> t.cw_paddle_contacts == (if p[4] & 0x02 == 0x02 {
                1int
            } else {
                0
            }) + (if p[4] & 0x04 == 0x04 {
                2int
            } else {
                0
            })
            &&& p.len() >= 5 ==> (t.tx_fifo_underrun <==> p[4] & 0x20 == 0x20)
            &&& p.len() >= 5 ==> (t.tx_fifo_overrun <==> p[4] & 0x40 == 0x40)
            &&& p.len() >= 6 ==> (t.adc0_overload <==> p[5] & 0x01 == 0x01)
            &&& p.len() >= 6 ==> (t.adc1_overload <==> p[5] & 0x02 == 0x02)
            &&& p.len() >= 24 ==> t.tx_forward_power == averages_after(a, p).forward
            &&& p.len() >= 24 ==> t.tx_reverse_power == averages_after(a, p).reverse
            &&& p.len() < 24 ==> t.tx_forward_power == s.tx_forward_power && t.tx_reverse_power
                == s.tx_reverse_power
            &&& p.len() < 6 ==> t.adc0_overload == s.adc0_overload && t.adc1_overload
                == s.adc1_overload
            &&& p.len() < 5 ==> t == s
        }),
{
    lemma_status_bits(p[4]);
    lemma_status_bits(p[5]);
}

/// The averages move by a sixteenth of the way to the reading, rounded
/// down. Forward power is at bytes 14 and 15, reverse power at 22 and 23,
/// most significant byte first.
pub proof fn law_averages_move_to_the_readings(a: PowerAverages, p: Seq<u8>)
    requires
        a.wf(),
    ensures
        ({
            let after = averages_after(a, p);
            let forward = p[14] * 0x100 + p[15];
            let reverse = p[22] * 0x100 + p[23];
            &&& p.len() >= 24 ==> 16 * after.forward <= 15 * a.forward + forward < 16
                * after.forward + 16
            &&& p.len() >= 24 ==> 16 * after.reverse <= 15 * a.reverse + reverse < 16
                * after.reverse + 16
            &&& p.len() < 24 ==> after == a
        }),
{
}

} // verus!
