//! Protocol 1: the byte stream that a radio sends. Frames of 512 bytes
//! follow each other without regard to packet boundaries; the first sync
//! pattern found fixes where they begin.
use crate::bytes::{self, i16_of, sign_extend_24, u16_of};
use crate::protocol1::{EP_IQ_DATA, HEADER_SIZE, PACKET_SIZE, USB_FRAME_SIZE};
use crate::queue::{self, IqSample};
use crate::rx_state::{
    self, RadioStatus, Route, RxModel, RxState, PS_FEEDBACK_BUFFER_CAPACITY,
    RADIO_MIC_AUDIO_CAPACITY,
};
use vstd::prelude::*;

verus! {

/// Bytes to look through for a sync pattern before starting over.
pub const SYNC_SEARCH_LIMIT: usize = 8192;

/// Receiver slots that carry PureSignal feedback.
#[derive(Clone, Copy, Debug, PartialEq, Eq, Structural)]
pub struct PsSlots {
    pub rx: u8,
    pub tx: u8,
}

/// How the samples of a frame are told apart.
#[derive(Clone, Copy, Debug, PartialEq, Eq, Structural)]
pub struct P1Demux {
    /// Receivers interleaved in the stream.
    pub receivers: u8,
    /// Capacity of the receivers' queues.
    pub capacity: usize,
    /// Feedback slots, where reserved.
    pub ps_feedback: Option<PsSlots>,
    pub diversity: bool,
}

/// Slot of the receive feedback; -1 where none is reserved.
pub open spec fn rx_feedback_slot(c: P1Demux) -> int {
    match c.ps_feedback {
        Some(slots) => slots.rx as int,
        None => -1,
    }
}

/// Slot of the transmit feedback; -1 where none is reserved.
pub open spec fn tx_feedback_slot(c: P1Demux) -> int {
    match c.ps_feedback {
        Some(slots) => slots.tx as int,
        None => -1,
    }
}

/// The queue that slot `rx` belongs to.
pub open spec fn route_of(rx: int, c: P1Demux) -> Route {
    if rx == rx_feedback_slot(c) {
        Route::PsRx
    } else if rx == tx_feedback_slot(c) {
        Route::PsTx
    } else if c.diversity && rx == 0 {
        Route::DiversityMain
    } else {
        Route::Receiver(rx as usize)
    }
}

/// There is a queue for every receiver slot in use.
pub open spec fn queues_suffice(c: P1Demux, queues: nat) -> bool {
    forall|rx: int|
        0 <= rx < c.receivers && (#[trigger] route_of(rx, c)) is Receiver ==> rx < queues
}

/// Bytes of one sample group: every receiver's sample and one microphone
/// sample.
pub open spec fn group_size(receivers: u8) -> int {
    6 * receivers + 2
}

/// Sample groups in one frame.
pub open spec fn groups(receivers: u8) -> int {
    504int / group_size(receivers)
}

/// Sample of slot `rx` in group `g` of a frame.
pub open spec fn sample_at(f: Seq<u8>, receivers: u8, g: int, rx: int) -> IqSample {
    let b = 8 + g * group_size(receivers) + 6 * rx;
    IqSample {
        i: bytes::value24(f[b], f[b + 1], f[b + 2]) as i32,
        q: bytes::value24(f[b + 3], f[b + 4], f[b + 5]) as i32,
    }
}

/// The first `n` samples of slot `rx` in a frame.
pub open spec fn slot_samples(f: Seq<u8>, receivers: u8, rx: int, n: int) -> Seq<IqSample> {
    Seq::new(n as nat, |g: int| sample_at(f, receivers, g, rx))
}

/// Microphone sample of group `g`.
pub open spec fn mic_at(f: Seq<u8>, receivers: u8, g: int) -> i16 {
    let b = 8 + g * group_size(receivers) + 6 * receivers;
    bytes::value16((f[b] * 256 + f[b + 1]) as u16)
}

/// The first `n` microphone samples of a frame.
pub open spec fn mic_samples(f: Seq<u8>, receivers: u8, n: int) -> Seq<i16> {
    Seq::new(n as nat, |g: int| mic_at(f, receivers, g))
}

/// Peak-holding power readings: what was last shown.
#[derive(Clone, Copy, Debug, PartialEq, Eq, Structural)]
pub struct PowerPeaks {
    pub forward: u32,
    pub reverse: u32,
}

/// A higher reading shows at once, a lower one pulls the value down by a
/// 256th of the difference.
pub open spec fn peak_hold(shown: u32, reading: u32) -> u32 {
    if reading >= shown {
        reading
    } else {
        (shown - (shown - reading) / 256) as u32
    }
}

/// The status word that a frame's first control byte announces.
pub open spec fn status_address(f: Seq<u8>) -> int {
    f[3] as int / 8
}

pub open spec fn peaks_after(p: PowerPeaks, f: Seq<u8>) -> PowerPeaks {
    PowerPeaks {
        forward: if status_address(f) == 1 {
            peak_hold(p.forward, (f[6] * 256 + f[7]) as u32)
        } else {
            p.forward
        },
        reverse: if status_address(f) == 2 {
            peak_hold(p.reverse, (f[4] * 256 + f[5]) as u32)
        } else {
            p.reverse
        },
    }
}

/// The status after a frame: the key and paddle contacts come with every
/// frame, the rest with the status word that it announces.
pub open spec fn status_after(s: RadioStatus, p: PowerPeaks, f: Seq<u8>) -> RadioStatus {
    let a = status_address(f);
    RadioStatus {
        tx_forward_power: if a == 1 {
            peaks_after(p, f).forward
        } else {
            s.tx_forward_power
        },
        tx_reverse_power: if a == 2 {
            peaks_after(p, f).reverse
        } else {
            s.tx_reverse_power
        },
        adc0_overload: if a == 0 || a == 4 {
            f[4] % 2 == 1
        } else {
            s.adc0_overload
        },
        adc1_overload: if a == 4 {
            f[5] % 2 == 1
        } else {
            s.adc1_overload
        },
        cw_ptt_active: f[3] % 2 == 1,
        cw_paddle_contacts: ((f[3] / 4) % 2 + 2 * ((f[3] / 2) % 2)) as u8,
        ..s
    }
}

/// The queues after the first `n` groups of a frame, and the first `rx`
/// slots of the next group.
pub open spec fn queues_after(m: RxModel, f: Seq<u8>, c: P1Demux, n: int, rx: int) -> RxModel {
    let upto = |slot: int|
        if slot < rx {
            n + 1
        } else {
            n
        };
    RxModel {
        iq: Seq::new(
            m.iq.len(),
            |w: int|
                if w < c.receivers && route_of(w, c) is Receiver {
                    queue::push_all(
                        m.iq[w],
                        slot_samples(f, c.receivers, w, upto(w)),
                        c.capacity as nat,
                    )
                } else {
                    m.iq[w]
                },
        ),
        ps_rx: if 0 <= rx_feedback_slot(c) < c.receivers {
            queue::push_all(
                m.ps_rx,
                slot_samples(
                    f,
                    c.receivers,
                    rx_feedback_slot(c),
                    upto(rx_feedback_slot(c)),
                ),
                PS_FEEDBACK_BUFFER_CAPACITY as nat,
            )
        } else {
            m.ps_rx
        },
        ps_tx: if 0 <= tx_feedback_slot(c) < c.receivers && tx_feedback_slot(c) != rx_feedback_slot(c) {
            queue::push_all(
                m.ps_tx,
                slot_samples(
                    f,
                    c.receivers,
                    tx_feedback_slot(c),
                    upto(tx_feedback_slot(c)),
                ),
                PS_FEEDBACK_BUFFER_CAPACITY as nat,
            )
        } else {
            m.ps_tx
        },
        diversity_main: if c.receivers > 0 && route_of(0, c) is DiversityMain {
            queue::push_all(
                m.diversity_main,
                slot_samples(f, c.receivers, 0, upto(0)),
                c.capacity as nat,
            )
        } else {
            m.diversity_main
        },
        mic: queue::push_all(
            m.mic,
            mic_samples(f, c.receivers, n),
            RADIO_MIC_AUDIO_CAPACITY as nat,
        ),
        status: m.status,
    }
}

/// Everything after one frame.
pub open spec fn frame_effect(m: RxModel, p: PowerPeaks, f: Seq<u8>, c: P1Demux) -> RxModel {
    RxModel {
        status: status_after(m.status, p, f),
        ..queues_after(m, f, c, groups(c.receivers), 0)
    }
}

/// Adding slot `rx` of group `n`.
proof fn lemma_slot_step(m: RxModel, f: Seq<u8>, c: P1Demux, n: int, rx: int)
    requires
        0 <= n,
        0 <= rx < c.receivers,
        queues_suffice(c, m.iq.len()),
    ensures
        queues_after(m, f, c, n, rx + 1) == rx_state::routed(
            queues_after(m, f, c, n, rx),
            route_of(rx, c),
            sample_at(f, c.receivers, n, rx),
            c.capacity as nat,
        ),
{
    let r = c.receivers;
    let all = slot_samples(f, r, rx, n + 1);
    assert(all.drop_last() =~= slot_samples(f, r, rx, n));
    assert(all.last() == sample_at(f, r, n, rx));
    let a = queues_after(m, f, c, n, rx + 1);
    let b = rx_state::routed(
        queues_after(m, f, c, n, rx),
        route_of(rx, c),
        sample_at(f, r, n, rx),
        c.capacity as nat,
    );
    assert(route_of(rx, c) is Receiver ==> rx < m.iq.len());
    assert(a.iq =~= b.iq);
    assert(a =~= b);
}

/// Adding the microphone sample that closes group `n`.
proof fn lemma_mic_step(m: RxModel, f: Seq<u8>, c: P1Demux, n: int)
    requires
        0 <= n,
        queues_suffice(c, m.iq.len()),
    ensures
        queues_after(m, f, c, n + 1, 0) == (RxModel {
            mic: queue::pushed(
                queues_after(m, f, c, n, c.receivers as int).mic,
                mic_at(f, c.receivers, n),
                RADIO_MIC_AUDIO_CAPACITY as nat,
            ),
            ..queues_after(m, f, c, n, c.receivers as int)
        }),
{
    let all = mic_samples(f, c.receivers, n + 1);
    assert(all.drop_last() =~= mic_samples(f, c.receivers, n));
    assert(all.last() == mic_at(f, c.receivers, n));
    let a = queues_after(m, f, c, n + 1, 0);
    let b = queues_after(m, f, c, n, c.receivers as int);
    assert(a.iq =~= b.iq);
    assert(a =~= RxModel { mic: a.mic, ..b });
}

/// No groups have been read yet.
proof fn lemma_no_groups(m: RxModel, f: Seq<u8>, c: P1Demux)
    ensures
        queues_after(m, f, c, 0, 0) == m,
{
    let a = queues_after(m, f, c, 0, 0);
    assert(a.iq =~= m.iq);
    assert(a =~= m);
}

fn slot_route(rx: u8, c: &P1Demux) -> (r: Route)
    ensures
        r == route_of(rx as int, *c),
{
    if let Some(slots) = c.ps_feedback {
        if rx == slots.rx {
            return Route::PsRx;
        }
        if rx == slots.tx {
            return Route::PsTx;
        }
    }
    if c.diversity && rx == 0 {
        Route::DiversityMain
    } else {
        Route::Receiver(rx as usize)
    }
}

/// Whether there is a queue for every receiver slot in use.
pub fn has_queues(c: &P1Demux, queues: usize) -> (b: bool)
    ensures
        b == queues_suffice(*c, queues as nat),
{
    for rx in 0..c.receivers
        invariant
            forall|k: int|
                0 <= k < rx && (#[trigger] route_of(k, *c)) is Receiver ==> k < queues,
    {
        let r: Route = slot_route(rx, c);
        if let Route::Receiver(i) = r {
            if i >= queues {
                assert(route_of(rx as int, *c) is Receiver);
                return false;
            }
        }
    }
    true
}

fn hold_peak(shown: u32, reading: u32) -> (p: u32)
    ensures
        p == peak_hold(shown, reading),
{
    if reading >= shown {
        reading
    } else {
        shown - (shown - reading) / 256
    }
}

/// Reads the status bytes of a frame.
fn read_status(status: &mut RadioStatus, peaks: &mut PowerPeaks, f: &[u8])
    requires
        f@.len() >= 8,
    ensures
        *final(status) == status_after(*old(status), *old(peaks), f@),
        *final(peaks) == peaks_after(*old(peaks), f@),
{
    let c0: u8 = f[3];
    let address: u8 = c0 / 8;
    status.cw_ptt_active = c0 % 2 == 1;
    status.cw_paddle_contacts = (c0 / 4) % 2 + 2 * ((c0 / 2) % 2);
    if address == 1 {
        let forward: u32 = u16_of(f[6], f[7]) as u32;
        peaks.forward = hold_peak(peaks.forward, forward);
        status.tx_forward_power = peaks.forward;
    } else if address == 2 {
        let reverse: u32 = u16_of(f[4], f[5]) as u32;
        peaks.reverse = hold_peak(peaks.reverse, reverse);
        status.tx_reverse_power = peaks.reverse;
    } else if address == 0 {
        status.adc0_overload = f[4] % 2 == 1;
    } else if address == 4 {
        status.adc0_overload = f[4] % 2 == 1;
        status.adc1_overload = f[5] % 2 == 1;
    }
}

/// A group lies inside its frame.
proof fn lemma_group_bounds(receivers: u8, g: int, rx: int)
    requires
        0 <= g < groups(receivers),
        0 <= rx <= receivers,
    ensures
        8 + g * group_size(receivers) + 6 * rx + 2 <= 512,
        rx < receivers ==> 8 + g * group_size(receivers) + 6 * rx + 8 <= 512,
        (g + 1) * group_size(receivers) == g * group_size(receivers) + group_size(receivers),
{
    let d = group_size(receivers);
    vstd::arithmetic::div_mod::lemma_fundamental_div_mod(504, d);
    vstd::arithmetic::div_mod::lemma_mod_bound(504, d);
    assert((g + 1) * d <= d * (504int / d)) by (nonlinear_arith)
        requires
            g + 1 <= 504int / d,
            d > 0,
    ;
    assert((g + 1) * d == g * d + d) by (nonlinear_arith);
}

/// Reads one frame.
pub fn parse_frame(f: &[u8], c: &P1Demux, peaks: &mut PowerPeaks, out: &mut RxState)
    requires
        f@.len() == USB_FRAME_SIZE,
        queues_suffice(*c, old(out)@.iq.len()),
    ensures
        final(out)@ == frame_effect(old(out)@, *old(peaks), f@, *c),
        *final(peaks) == peaks_after(*old(peaks), f@),
{
    read_status(&mut out.status, peaks, f);
    let ghost m = out@;
    assert(m =~= RxModel {
        status: status_after(old(out)@.status, *old(peaks), f@),
        ..old(out)@
    });
    let size: usize = 6 * c.receivers as usize + 2;
    let n: usize = 504 / size;
    let mut b: usize = 8;
    proof {
        lemma_no_groups(m, f@, *c);
        assert(0 * group_size(c.receivers) == 0) by (nonlinear_arith);
    }
    for g in 0..n
        invariant
            f@.len() == USB_FRAME_SIZE,
            size == group_size(c.receivers),
            n == groups(c.receivers),
            b == 8 + g * group_size(c.receivers),
            queues_suffice(*c, m.iq.len()),
            out@ == queues_after(m, f@, *c, g as int, 0),
    {
        proof {
            lemma_group_bounds(c.receivers, g as int, c.receivers as int);
        }
        for rx in 0..c.receivers
            invariant
                f@.len() == USB_FRAME_SIZE,
                0 <= g < groups(c.receivers),
                b == 8 + g * group_size(c.receivers) + 6 * rx,
                queues_suffice(*c, m.iq.len()),
                out@ == queues_after(m, f@, *c, g as int, rx as int),
        {
            proof {
                lemma_group_bounds(c.receivers, g as int, rx as int);
                lemma_slot_step(m, f@, *c, g as int, rx as int);
            }
            let i: i32 = sign_extend_24(f[b], f[b + 1], f[b + 2]);
            let q: i32 = sign_extend_24(f[b + 3], f[b + 4], f[b + 5]);
            b = b + 6;
            let r: Route = slot_route(rx, c);
            assert(route_of(rx as int, *c) is Receiver ==> rx < m.iq.len());
            out.route(r, IqSample { i, q }, c.capacity);
        }
        let mic: i16 = i16_of(u16_of(f[b], f[b + 1]));
        b = b + 2;
        proof {
            lemma_mic_step(m, f@, *c, g as int);
        }
        out.push_mic(mic);
    }
    assert(out@ =~= frame_effect(old(out)@, *old(peaks), f@, *c)) by {
        assert(queues_after(m, f@, *c, n as int, 0) =~= RxModel {
            status: m.status,
            ..queues_after(old(out)@, f@, *c, n as int, 0)
        });
    }
}

// ---------------------------------------------------------------------
// The stream
// ---------------------------------------------------------------------

/// What is carried over from one piece of the stream to the next.
pub struct P1Stream {
    /// Bytes that no whole frame has been made of yet.
    pub carry: Vec<u8>,
    /// Whether `carry` begins where a frame begins.
    pub synced: bool,
    pub peaks: PowerPeaks,
}

/// The contents of a [`P1Stream`] together with what it has filled.
#[verifier::ext_equal]
pub struct StreamModel {
    pub carry: Seq<u8>,
    pub synced: bool,
    pub peaks: PowerPeaks,
    pub out: RxModel,
}

pub open spec fn stream_model(s: P1Stream, out: RxModel) -> StreamModel {
    StreamModel { carry: s.carry@, synced: s.synced, peaks: s.peaks, out }
}

/// A sync pattern begins at byte `i`.
pub open spec fn sync_at(s: Seq<u8>, i: int) -> bool {
    0 <= i && i + 2 < s.len() && s[i] == 0x7F && s[i + 1] == 0x7F && s[i + 2] == 0x7F
}

/// The first sync pattern from byte `k` on.
pub open spec fn first_sync(s: Seq<u8>, k: int) -> Option<int>
    decreases s.len() - k,
{
    if k + 2 >= s.len() {
        None
    } else if sync_at(s, k) {
        Some(k)
    } else {
        first_sync(s, k + 1)
    }
}

/// Reads whole frames off the front. A frame that does not begin with the
/// sync pattern ends it: everything is dropped and sync has to be found anew.
pub open spec fn read_frames(
    carry: Seq<u8>,
    peaks: PowerPeaks,
    out: RxModel,
    c: P1Demux,
) -> StreamModel
    decreases carry.len(),
{
    if carry.len() < 512 {
        StreamModel { carry, synced: true, peaks, out }
    } else if !sync_at(carry, 0) {
        StreamModel { carry: Seq::empty(), synced: false, peaks, out }
    } else {
        read_frames(
            carry.skip(512),
            peaks_after(peaks, carry.take(512)),
            frame_effect(out, peaks, carry.take(512), c),
            c,
        )
    }
}

/// How many frames are read off the front.
pub open spec fn frames_read(carry: Seq<u8>) -> nat
    decreases carry.len(),
{
    if carry.len() < 512 || !sync_at(carry, 0) {
        0
    } else {
        1 + frames_read(carry.skip(512))
    }
}

/// Where frames begin in the bytes at hand, if that is known.
pub open spec fn frame_start(all: Seq<u8>, synced: bool) -> Option<int> {
    if synced {
        Some(0)
    } else {
        first_sync(all, 0)
    }
}

/// The effect of one more piece of the stream.
pub open spec fn feed(m: StreamModel, payload: Seq<u8>, c: P1Demux) -> StreamModel {
    let all = m.carry + payload;
    match frame_start(all, m.synced) {
        Some(i) => read_frames(all.skip(i), m.peaks, m.out, c),
        None => StreamModel {
            carry: if all.len() > SYNC_SEARCH_LIMIT {
                Seq::empty()
            } else {
                all
            },
            ..m
        },
    }
}

/// How many samples one more piece of the stream brings for slot `slot`.
pub open spec fn slot_samples_fed(m: StreamModel, payload: Seq<u8>, c: P1Demux, slot: int) -> int {
    let all = m.carry + payload;
    match frame_start(all, m.synced) {
        Some(i) => if 0 <= slot < c.receivers {
            frames_read(all.skip(i)) * groups(c.receivers)
        } else {
            0
        },
        None => 0,
    }
}

/// Transmit feedback goes to its own queue only where its slot is not the
/// receive feedback's.
pub open spec fn tx_feedback_only(c: P1Demux) -> int {
    if tx_feedback_slot(c) == rx_feedback_slot(c) {
        -1
    } else {
        tx_feedback_slot(c)
    }
}

impl P1Stream {
    pub fn new() -> (s: Self)
        ensures
            s.carry@.len() == 0,
            !s.synced,
            s.peaks == (PowerPeaks { forward: 0, reverse: 0 }),
    {
        P1Stream {
            carry: Vec::new(),
            synced: false,
            peaks: PowerPeaks { forward: 0, reverse: 0 },
        }
    }
}

fn find_sync(s: &Vec<u8>) -> (found: Option<usize>)
    ensures
        match found {
            Some(i) => first_sync(s@, 0) == Some(i as int),
            None => first_sync(s@, 0) is None,
        },
        found matches Some(i) ==> i + 2 < s@.len(),
{
    let mut k: usize = 0;
    while k < s.len() && s.len() - k > 2
        invariant
            k <= s@.len(),
            first_sync(s@, 0) == first_sync(s@, k as int),
        decreases s@.len() - k,
    {
        if s[k] == 0x7F && s[k + 1] == 0x7F && s[k + 2] == 0x7F {
            return Some(k);
        }
        k = k + 1;
    }
    None
}

/// Each frame read brings a fixed number of samples for each slot.
proof fn lemma_frames_read_bound(carry: Seq<u8>)
    ensures
        512 * frames_read(carry) <= carry.len(),
    decreases carry.len(),
{
    if !(carry.len() < 512 || !sync_at(carry, 0)) {
        lemma_frames_read_bound(carry.skip(512));
    }
}

/// Takes in one more piece of the stream and returns how many samples it
/// brought for the receive and the transmit feedback.
pub fn parse_iq_stream(stream: &mut P1Stream, payload: &[u8], c: &P1Demux, out: &mut RxState) -> (n:
    (u32, u32))
    requires
        old(stream).carry@.len() + payload@.len() <= u32::MAX,
        queues_suffice(*c, old(out)@.iq.len()),
    ensures
        stream_model(*final(stream), final(out)@) == feed(
            stream_model(*old(stream), old(out)@),
            payload@,
            *c,
        ),
        n.0 == slot_samples_fed(
            stream_model(*old(stream), old(out)@),
            payload@,
            *c,
            rx_feedback_slot(*c),
        ),
        n.1 == slot_samples_fed(
            stream_model(*old(stream), old(out)@),
            payload@,
            *c,
            tx_feedback_only(*c),
        ),
{
    let ghost before = stream_model(*stream, out@);
    stream.carry.extend_from_slice(payload);
    let ghost all = before.carry + payload@;
    assert(stream.carry@ =~= all);
    if !stream.synced {
        match find_sync(&stream.carry) {
            Some(i) => {
                stream.carry = stream.carry.split_off(i);
                stream.synced = true;
            },
            None => {
                if stream.carry.len() > SYNC_SEARCH_LIMIT {
                    stream.carry.clear();
                }
                assert(stream_model(*stream, out@) =~= feed(before, payload@, *c));
                return (0, 0);
            },
        }
    }
    let ghost start = match frame_start(all, before.synced) {
        Some(i) => i,
        None => 0,
    };
    let ghost rest = all.skip(start);
    assert(stream.carry@ =~= rest);
    let (rx_slot, tx_slot): (bool, bool) = match c.ps_feedback {
        Some(s) => (s.rx < c.receivers, s.tx < c.receivers && s.tx != s.rx),
        None => (false, false),
    };
    let per_frame: u32 = 504 / (6 * c.receivers as u32 + 2);
    let mut frames: u32 = 0;
    proof {
        lemma_frames_read_bound(rest);
        assert(per_frame == groups(c.receivers));
    }
    while stream.carry.len() >= USB_FRAME_SIZE
        invariant_except_break
            stream.synced,
            read_frames(stream.carry@, stream.peaks, out@, *c) == read_frames(
                rest,
                before.peaks,
                before.out,
                *c,
            ),
        invariant
            rest.len() <= u32::MAX,
            512 * frames_read(rest) <= rest.len(),
            frames + frames_read(stream.carry@) == frames_read(rest),
            queues_suffice(*c, out@.iq.len()),
        ensures
            stream_model(*stream, out@) == read_frames(rest, before.peaks, before.out, *c),
            frames == frames_read(rest),
        decreases stream.carry@.len(),
    {
        if stream.carry[0] != 0x7F || stream.carry[1] != 0x7F || stream.carry[2] != 0x7F {
            stream.synced = false;
            stream.carry.clear();
            assert(stream.carry@ =~= Seq::<u8>::empty());
            break;
        }
        let tail: Vec<u8> = stream.carry.split_off(USB_FRAME_SIZE);
        parse_frame(stream.carry.as_slice(), c, &mut stream.peaks, out);
        stream.carry = tail;
        frames = frames + 1;
    }
    proof {
        assert(504int / group_size(c.receivers) <= 252) by (nonlinear_arith)
            requires
                group_size(c.receivers) >= 2,
        ;
        assert(frames * per_frame <= 8_388_608 * 252) by (nonlinear_arith)
            requires
                frames <= 8_388_608,
                per_frame <= 252,
        ;
    }
    let pushed: u32 = frames * per_frame;
    (
        if rx_slot {
            pushed
        } else {
            0
        },
        if tx_slot {
            pushed
        } else {
            0
        },
    )
}

/// The samples inside a data packet; `None` for any other packet.
pub open spec fn data_packet_payload(packet: Seq<u8>) -> Option<Seq<u8>> {
    if packet.len() == PACKET_SIZE && packet.take(4) == seq![0xEFu8, 0xFEu8, 0x01u8, EP_IQ_DATA] {
        Some(packet.skip(HEADER_SIZE as int))
    } else {
        None
    }
}

/// Picks the samples out of a received packet.
pub fn iq_payload(packet: &[u8]) -> (p: Option<&[u8]>)
    ensures
        match p {
            Some(b) => data_packet_payload(packet@) == Some(b@),
            None => data_packet_payload(packet@) is None,
        },
{
    if packet.len() == PACKET_SIZE && packet[0] == 0xEF && packet[1] == 0xFE && packet[2] == 0x01
        && packet[3] == EP_IQ_DATA {
        assert(packet@.take(4) =~= seq![0xEFu8, 0xFEu8, 0x01u8, EP_IQ_DATA]);
        let b: &[u8] = vstd::slice::slice_subrange(packet, HEADER_SIZE, PACKET_SIZE);
        assert(b@ =~= packet@.skip(HEADER_SIZE as int));
        Some(b)
    } else {
        assert(packet@.len() == PACKET_SIZE ==> {
            let t = packet@.take(4);
            t[0] == packet@[0] && t[1] == packet@[1] && t[2] == packet@[2] && t[3] == packet@[3]
        });
        None
    }
}

// ---------------------------------------------------------------------
// Laws
// ---------------------------------------------------------------------

/// Every whole frame begins with the sync pattern.
pub open spec fn stays_synced(carry: Seq<u8>) -> bool
    decreases carry.len(),
{
    carry.len() < 512 || (sync_at(carry, 0) && stays_synced(carry.skip(512)))
}

proof fn lemma_read_frames_split(
    x: Seq<u8>,
    b: Seq<u8>,
    peaks: PowerPeaks,
    out: RxModel,
    c: P1Demux,
)
    requires
        stays_synced(x + b),
    ensures
        ({
            let r = read_frames(x, peaks, out, c);
            &&& r.synced
            &&& read_frames(x + b, peaks, out, c) == read_frames(r.carry + b, r.peaks, r.out, c)
            &&& frames_read(x + b) == frames_read(x) + frames_read(r.carry + b)
        }),
    decreases x.len(),
{
    if x.len() >= 512 {
        assert((x + b).skip(512) =~= x.skip(512) + b);
        assert((x + b).take(512) =~= x.take(512));
        assert(sync_at(x, 0));
        lemma_read_frames_split(
            x.skip(512),
            b,
            peaks_after(peaks, x.take(512)),
            frame_effect(out, peaks, x.take(512), c),
            c,
        );
    }
}

proof fn lemma_first_sync_extends(x: Seq<u8>, b: Seq<u8>, k: int)
    requires
        0 <= k,
        first_sync(x, k) is Some,
    ensures
        first_sync(x + b, k) == first_sync(x, k),
        first_sync(x, k)->0 >= k,
        first_sync(x, k)->0 + 2 < x.len(),
    decreases x.len() - k,
{
    if !sync_at(x, k) {
        assert(!sync_at(x + b, k));
        lemma_first_sync_extends(x, b, k + 1);
    } else {
        assert(sync_at(x + b, k));
    }
}

/// How a stream is cut into packets does not matter. While every frame
/// begins with the sync pattern, and the search for the first one stays
/// within its limit, two pieces have the effect of both at once, and bring
/// together as many samples for each slot.
pub proof fn law_stream_cut_anywhere(m: StreamModel, a: Seq<u8>, b: Seq<u8>, c: P1Demux)
    requires
        !m.synced ==> m.carry.len() + a.len() <= SYNC_SEARCH_LIMIT,
        frame_start(m.carry + (a + b), m.synced) matches Some(i) ==> stays_synced(
            (m.carry + (a + b)).skip(i),
        ),
    ensures
        feed(feed(m, a, c), b, c) == feed(m, a + b, c),
        forall|slot: int|
            #![trigger slot_samples_fed(m, a + b, c, slot)]
            slot_samples_fed(m, a, c, slot) + slot_samples_fed(feed(m, a, c), b, c, slot)
                == slot_samples_fed(m, a + b, c, slot),
{
    let x = m.carry + a;
    assert(m.carry + (a + b) =~= x + b);
    match frame_start(x, m.synced) {
        Some(i) => {
            if !m.synced {
                lemma_first_sync_extends(x, b, 0);
            }
            assert((x + b).skip(i) =~= x.skip(i) + b);
            lemma_read_frames_split(x.skip(i), b, m.peaks, m.out, c);
            let r = read_frames(x.skip(i), m.peaks, m.out, c);
            assert((r.carry + b).skip(0) =~= r.carry + b);
            vstd::arithmetic::mul::lemma_mul_is_distributive_add_other_way(
                groups(c.receivers) as int,
                frames_read(x.skip(i)) as int,
                frames_read(r.carry + b) as int,
            );
        },
        None => {},
    }
}

proof fn lemma_read_frames_carry(carry: Seq<u8>, peaks: PowerPeaks, out: RxModel, c: P1Demux)
    ensures
        read_frames(carry, peaks, out, c).carry.len() < 512,
        read_frames(carry, peaks, out, c).out.iq.len() == out.iq.len(),
    decreases carry.len(),
{
    if carry.len() >= 512 && sync_at(carry, 0) {
        lemma_read_frames_carry(
            carry.skip(512),
            peaks_after(peaks, carry.take(512)),
            frame_effect(out, peaks, carry.take(512), c),
            c,
        );
    }
}

/// What is carried over is bounded: less than a frame once in sync, and
/// never more than the search limit. The number of queues never changes.
pub proof fn law_carry_is_bounded(m: StreamModel, payload: Seq<u8>, c: P1Demux)
    ensures
        feed(m, payload, c).synced ==> feed(m, payload, c).carry.len() < 512,
        feed(m, payload, c).carry.len() <= SYNC_SEARCH_LIMIT,
        feed(m, payload, c).out.iq.len() == m.out.iq.len(),
{
    let all = m.carry + payload;
    if let Some(i) = frame_start(all, m.synced) {
        lemma_read_frames_carry(all.skip(i), m.peaks, m.out, c);
    }
}

/// The two feedback queues fill in step: sample for sample, what is in one
/// belongs to what is in the other.
pub proof fn law_feedback_in_step(m: RxModel, p: PowerPeaks, f: Seq<u8>, c: P1Demux)
    requires
        m.ps_rx.len() == m.ps_tx.len(),
        rx_feedback_slot(c) != tx_feedback_slot(c),
        rx_feedback_slot(c) < c.receivers,
        tx_feedback_slot(c) < c.receivers,
    ensures
        frame_effect(m, p, f, c).ps_rx.len() == frame_effect(m, p, f, c).ps_tx.len(),
{
    let n = groups(c.receivers);
    queue::law_queues_in_step(
        m.ps_rx,
        slot_samples(f, c.receivers, rx_feedback_slot(c), n),
        m.ps_tx,
        slot_samples(f, c.receivers, tx_feedback_slot(c), n),
        PS_FEEDBACK_BUFFER_CAPACITY as nat,
    );
}

/// A shown peak lies between the reading and the higher of reading and
/// what was shown before, so it stays within the range of the readings.
pub proof fn law_peak_hold_bounds(shown: u32, reading: u32)
    ensures
        reading <= peak_hold(shown, reading),
        peak_hold(shown, reading) <= shown || peak_hold(shown, reading) == reading,
{
}

/// Byte of a frame at which the sample of slot `rx` in group `g` begins:
/// behind 8 bytes of sync and status, each group has six bytes for every
/// receiver and two for the microphone.
pub open spec fn sample_byte(receivers: u8, g: int, rx: int) -> int {
    8 + g * (6 * receivers + 2) + 6 * rx
}

/// Slot `rx` of a frame holds the samples `xs`: of each, first the
/// in-phase part and then the quadrature part, in three bytes each.
pub open spec fn slot_holds(f: Seq<u8>, receivers: u8, rx: int, xs: Seq<IqSample>) -> bool {
    &&& xs.len() == 504int / (6 * receivers + 2)
    &&& forall|g: int|
        0 <= g < xs.len() ==> bytes::holds_24(
            f,
            sample_byte(receivers, g, rx),
            (#[trigger] xs[g]).i as int,
        ) && bytes::holds_24(f, sample_byte(receivers, g, rx) + 3, xs[g].q as int)
}

proof fn lemma_slot_holds(f: Seq<u8>, receivers: u8, rx: int, xs: Seq<IqSample>)
    requires
        slot_holds(f, receivers, rx, xs),
    ensures
        slot_samples(f, receivers, rx, groups(receivers)) == xs,
{
    let read = slot_samples(f, receivers, rx, groups(receivers));
    assert forall|g: int| 0 <= g < xs.len() implies #[trigger] read[g] == xs[g] by {
        let b = sample_byte(receivers, g, rx);
        bytes::law_bytes_read_as_held(f, b, xs[g].i as int);
        bytes::law_bytes_read_as_held(f, b + 3, xs[g].q as int);
    }
    assert(read =~= xs);
}

/// A frame adds the samples that a slot holds, and no others, to the queue
/// of that slot. A reserved feedback slot has a queue of its own, of
/// 100,000 samples; so has the first slot while diversity is on. Every
/// other slot has the queue of its number.
pub proof fn law_frame_gives_the_samples_it_holds(
    m: RxModel,
    p: PowerPeaks,
    f: Seq<u8>,
    c: P1Demux,
    rx: int,
    xs: Seq<IqSample>,
)
    requires
        0 <= rx < c.receivers,
        slot_holds(f, c.receivers, rx, xs),
    ensures
        ({
            let after = frame_effect(m, p, f, c);
            let is_rx_feedback = c.ps_feedback matches Some(slots) && slots.rx == rx;
            let is_tx_feedback = c.ps_feedback matches Some(slots) && slots.tx == rx && slots.rx
                != rx;
            let is_user = !is_rx_feedback && !is_tx_feedback && !(c.diversity && rx == 0);
            &&& is_rx_feedback ==> after.ps_rx == queue::push_all(m.ps_rx, xs, 100_000)
            &&& is_tx_feedback ==> after.ps_tx == queue::push_all(m.ps_tx, xs, 100_000)
            &&& !is_rx_feedback && !is_tx_feedback && c.diversity && rx == 0
                ==> after.diversity_main == queue::push_all(
                m.diversity_main,
                xs,
                c.capacity as nat,
            )
            &&& is_user && rx < m.iq.len() ==> after.iq[rx] == queue::push_all(
                m.iq[rx],
                xs,
                c.capacity as nat,
            )
            &&& !is_user && rx < m.iq.len() ==> after.iq[rx] == m.iq[rx]
        }),
{
    lemma_slot_holds(f, c.receivers, rx, xs);
}

/// Queues that no slot of the stream belongs to stay as they are.
pub proof fn law_frame_leaves_other_queues(
    m: RxModel,
    p: PowerPeaks,
    f: Seq<u8>,
    c: P1Demux,
    w: int,
)
    ensures
        frame_effect(m, p, f, c).iq.len() == m.iq.len(),
        c.receivers <= w < m.iq.len() ==> frame_effect(m, p, f, c).iq[w] == m.iq[w],
        !c.diversity ==> frame_effect(m, p, f, c).diversity_main == m.diversity_main,
        c.ps_feedback is None ==> frame_effect(m, p, f, c).ps_rx == m.ps_rx && frame_effect(
            m,
            p,
            f,
            c,
        ).ps_tx == m.ps_tx,
        c.ps_feedback matches Some(slots) ==> slots.rx >= c.receivers ==> frame_effect(
            m,
            p,
            f,
            c,
        ).ps_rx == m.ps_rx,
        c.ps_feedback matches Some(slots) ==> slots.tx >= c.receivers || slots.tx == slots.rx
            ==> frame_effect(m, p, f, c).ps_tx == m.ps_tx,
{
}

/// A frame adds the microphone samples that it holds, one behind the
/// receivers' samples of each group, to a queue of 24,000.
pub proof fn law_frame_gives_the_microphone_it_holds(
    m: RxModel,
    p: PowerPeaks,
    f: Seq<u8>,
    c: P1Demux,
    xs: Seq<i16>,
)
    requires
        xs.len() == 504int / (6 * c.receivers + 2),
        forall|g: int|
            0 <= g < xs.len() ==> bytes::holds_16(
                f,
                sample_byte(c.receivers, g, c.receivers as int),
                (#[trigger] xs[g]) as int,
            ),
    ensures
        frame_effect(m, p, f, c).mic == queue::push_all(m.mic, xs, 24_000),
{
    let read = mic_samples(f, c.receivers, groups(c.receivers));
    assert forall|g: int| 0 <= g < xs.len() implies #[trigger] read[g] == xs[g] by {
        bytes::law_bytes_read_as_held(
            f,
            sample_byte(c.receivers, g, c.receivers as int),
            xs[g] as int,
        );
    }
    assert(read =~= xs);
}

proof fn lemma_status_bits(b: u8)
    by (bit_vector)
    ensures
        (b & 1 == 1) == (b % 2 == 1),
        (b & 2 == 2) == ((b / 2) % 2 == 1),
        (b & 4 == 4) == ((b / 4) % 2 == 1),
        (b / 8) * 8 == b & 0xF8,
        (b / 2) % 2 < 2 && (b / 4) % 2 < 2,
{
}

/// What a frame's status tells. The lowest bits of its first byte are the
/// key, the dash and the dot contact; the rest is the address of what the
/// other four bytes hold.
pub proof fn law_frame_status(m: RxModel, p: PowerPeaks, f: Seq<u8>, c: P1Demux)
    ensures
        ({
            let s = m.status;
            let t = frame_effect(m, p, f, c).status;
            let address = f[3] & 0xF8;
            &&& t.cw_ptt_active <==> f[3] & 1 == 1
            &&& t.cw_paddle_contacts == (if f[3] & 4 == 4 {
                1int
            } else {
                0
            }) + (if f[3] & 2 == 2 {
                2int
            } else {
                0
            })
            &&& t.adc0_overload == (if address == 0 || address == 0x20 {
                f[4] & 1 == 1
            } else {
                s.adc0_overload
            })
            &&& t.adc1_overload == (if address == 0x20 {
                f[5] & 1 == 1
            } else {
                s.adc1_overload
            })
            &&& address != 0x08 ==> t.tx_forward_power == s.tx_forward_power
            &&& address != 0x10 ==> t.tx_reverse_power == s.tx_reverse_power
            &&& address == 0x08 ==> t.tx_forward_power == peaks_after(p, f).forward
            &&& address == 0x10 ==> t.tx_reverse_power == peaks_after(p, f).reverse
            &&& t.tx_fifo_underrun == s.tx_fifo_underrun
            &&& t.tx_fifo_overrun == s.tx_fifo_overrun
        }),
{
    lemma_status_bits(f[3]);
    lemma_status_bits(f[4]);
    lemma_status_bits(f[5]);
}

/// A power reading, most significant byte first, shows at once where it is
/// higher than what was shown, and else pulls it down by a 256th of the
/// difference, never below the reading. Forward power is in the last two
/// status bytes under address 8, reverse power in the first two under
/// address 16; no other frame moves either.
pub proof fn law_power_readings(p: PowerPeaks, f: Seq<u8>)
    ensures
        ({
            let address = f[3] & 0xF8;
            let forward = f[6] * 0x100 + f[7];
            let reverse = f[4] * 0x100 + f[5];
            let after = peaks_after(p, f);
            &&& address != 0x08 ==> after.forward == p.forward
            &&& address != 0x10 ==> after.reverse == p.reverse
            &&& address == 0x08 && forward >= p.forward ==> after.forward == forward
            &&& address == 0x10 && reverse >= p.reverse ==> after.reverse == reverse
            &&& address == 0x08 && forward < p.forward ==> forward <= after.forward <= p.forward
                && 256 * (p.forward - after.forward) <= p.forward - forward < 256 * (p.forward
                - after.forward) + 256
            &&& address == 0x10 && reverse < p.reverse ==> reverse <= after.reverse <= p.reverse
                && 256 * (p.reverse - after.reverse) <= p.reverse - reverse < 256 * (p.reverse
                - after.reverse) + 256
        }),
{
    lemma_status_bits(f[3]);
}

/// In sync, a whole frame has the effect of that frame and leaves nothing
/// over; one without the sync pattern is dropped with the sync; less than a
/// frame is kept for later.
pub proof fn law_frame_by_frame(m: StreamModel, f: Seq<u8>, c: P1Demux)
    requires
        m.synced,
        m.carry.len() == 0,
    ensures
        f.len() == 512 && f[0] == 0x7F && f[1] == 0x7F && f[2] == 0x7F ==> feed(m, f, c) == (
        StreamModel {
            carry: Seq::empty(),
            synced: true,
            peaks: peaks_after(m.peaks, f),
            out: frame_effect(m.out, m.peaks, f, c),
        }),
        f.len() == 512 && !(f[0] == 0x7F && f[1] == 0x7F && f[2] == 0x7F) ==> feed(m, f, c) == (
        StreamModel { carry: Seq::empty(), synced: false, ..m }),
        f.len() < 512 ==> feed(m, f, c) == (StreamModel { carry: f, ..m }),
{
    let all = m.carry + f;
    assert(all =~= f);
    assert(all.skip(0) =~= f);
    if f.len() == 512 {
        assert(f.take(512) =~= f);
        assert(f.skip(512) =~= Seq::empty());
        reveal_with_fuel(read_frames, 2);
    }
}

proof fn lemma_no_sync_before(junk: Seq<u8>, rest: Seq<u8>, k: int)
    requires
        0 <= k <= junk.len(),
        rest.len() >= 3,
        rest[0] == 0x7F && rest[1] == 0x7F && rest[2] == 0x7F,
        forall|i: int| 0 <= i < junk.len() ==> #[trigger] junk[i] != 0x7F,
    ensures
        first_sync(junk + rest, k) == Some(junk.len() as int),
    decreases junk.len() - k,
{
    let all = junk + rest;
    if k == junk.len() {
        assert(all[k] == rest[0] && all[k + 1] == rest[1] && all[k + 2] == rest[2]);
    } else {
        assert(all[k] == junk[k]);
        lemma_no_sync_before(junk, rest, k + 1);
    }
}

/// Out of sync, bytes in front of the first sync pattern are skipped, and
/// frames begin there.
pub proof fn law_sync_is_found(m: StreamModel, junk: Seq<u8>, f: Seq<u8>, c: P1Demux)
    requires
        !m.synced,
        m.carry.len() == 0,
        forall|i: int| 0 <= i < junk.len() ==> #[trigger] junk[i] != 0x7F,
        f.len() >= 3,
        f[0] == 0x7F && f[1] == 0x7F && f[2] == 0x7F,
    ensures
        feed(m, junk + f, c) == feed(StreamModel { synced: true, ..m }, f, c),
        forall|slot: int| #[trigger]
            slot_samples_fed(m, junk + f, c, slot) == slot_samples_fed(
                StreamModel { synced: true, ..m },
                f,
                c,
                slot,
            ),
{
    assert(m.carry + (junk + f) =~= junk + f);
    assert(m.carry + f =~= f);
    assert(f.skip(0) =~= f);
    lemma_no_sync_before(junk, f, 0);
    assert((junk + f).skip(junk.len() as int) =~= f);
}

/// A whole frame brings as many samples for each slot in use as it has
/// groups, and none for any other.
pub proof fn law_samples_are_counted(m: StreamModel, f: Seq<u8>, c: P1Demux, slot: int)
    requires
        m.synced,
        m.carry.len() == 0,
        f.len() == 512,
        f[0] == 0x7F && f[1] == 0x7F && f[2] == 0x7F,
    ensures
        slot_samples_fed(m, f, c, slot) == (if 0 <= slot < c.receivers {
            504int / (6 * c.receivers + 2)
        } else {
            0
        }),
        c.ps_feedback matches Some(slots) ==> rx_feedback_slot(c) == slots.rx && tx_feedback_only(c)
            == (if slots.tx == slots.rx {
            -1
        } else {
            slots.tx as int
        }),
        c.ps_feedback is None ==> rx_feedback_slot(c) < 0 && tx_feedback_only(c) < 0,
{
    assert(m.carry + f =~= f);
    assert(f.skip(0) =~= f);
    assert(f.skip(512).len() == 0);
    reveal_with_fuel(frames_read, 2);
    assert(frames_read(f) == 1);
    assert(1 * groups(c.receivers) == groups(c.receivers)) by (nonlinear_arith);
}

/// A packet holds stream bytes, behind its header of eight bytes, exactly
/// where it has the size and the first four bytes of such a packet.
pub proof fn law_stream_packets(packet: Seq<u8>)
    ensures
        data_packet_payload(packet) is Some <==> packet.len() == 1032 && packet[0] == 0xEF
            && packet[1] == 0xFE && packet[2] == 0x01 && packet[3] == 0x06,
        data_packet_payload(packet) matches Some(b) ==> b.len() == 1024 && forall|k: int|
            0 <= k < 1024 ==> #[trigger] b[k] == packet[8 + k],
{
    if packet.len() == 1032 {
        let t = packet.take(4);
        assert(t[0] == packet[0] && t[1] == packet[1] && t[2] == packet[2] && t[3] == packet[3]);
        if packet[0] == 0xEF && packet[1] == 0xFE && packet[2] == 0x01 && packet[3] == 0x06 {
            assert(t =~= seq![0xEFu8, 0xFEu8, 0x01u8, 0x06u8]);
        }
    }
}

/// Which slots need a queue of their number: those that are neither
/// feedback nor, while diversity is on, the first.
pub proof fn law_which_slots_need_queues(c: P1Demux, queues: nat)
    ensures
        c.ps_feedback is None && !c.diversity ==> (queues_suffice(c, queues) <==> c.receivers
            <= queues),
        c.ps_feedback is None && c.diversity && c.receivers >= 2 ==> (queues_suffice(c, queues)
            <==> c.receivers <= queues),
        c.ps_feedback matches Some(slots) ==> slots.rx + 2 == c.receivers && slots.tx + 1
            == c.receivers && slots.rx >= 2 ==> (queues_suffice(c, queues) <==> slots.rx <= queues),
{
    let last = match c.ps_feedback {
        Some(slots) => slots.rx - 1,
        None => c.receivers - 1,
    };
    assert(0 <= last < c.receivers && queues_suffice(c, queues) && route_of(last, c) is Receiver
        ==> last < queues);
}

/// Without a sync pattern anywhere, bytes are kept for later, up to 8192 of
/// them; more are dropped, and the search starts over.
pub proof fn law_search_is_bounded(m: StreamModel, payload: Seq<u8>, c: P1Demux)
    requires
        !m.synced,
        forall|i: int| 0 <= i < m.carry.len() ==> #[trigger] m.carry[i] != 0x7F,
        forall|i: int| 0 <= i < payload.len() ==> #[trigger] payload[i] != 0x7F,
    ensures
        m.carry.len() + payload.len() <= 8192 ==> feed(m, payload, c) == (StreamModel {
            carry: m.carry + payload,
            ..m
        }),
        m.carry.len() + payload.len() > 8192 ==> feed(m, payload, c) == (StreamModel {
            carry: Seq::empty(),
            ..m
        }),
        forall|slot: int| #[trigger] slot_samples_fed(m, payload, c, slot) == 0,
{
    let all = m.carry + payload;
    assert forall|i: int| 0 <= i < all.len() implies #[trigger] all[i] != 0x7F by {
        if i < m.carry.len() {
            assert(all[i] == m.carry[i]);
        } else {
            assert(all[i] == payload[i - m.carry.len()]);
        }
    }
    lemma_no_sync(all, 0);
}

proof fn lemma_no_sync(s: Seq<u8>, k: int)
    requires
        0 <= k,
        forall|i: int| 0 <= i < s.len() ==> #[trigger] s[i] != 0x7F,
    ensures
        first_sync(s, k) is None,
    decreases s.len() - k,
{
    if k + 2 < s.len() {
        assert(s[k] != 0x7F);
        lemma_no_sync(s, k + 1);
    }
}

} // verus!
