//! The teleprinter receiver's framer. The caller demodulates, keeps the bit
//! clock and strobes at bit centres; the framer checks start and stop bits
//! and holds characters back until framing has proved itself.
use crate::baudot::{self, BaudotRx};
use crate::rtty_tx;
use crate::text::string_of;
use vstd::prelude::*;

verus! {

/// Ceiling of the lock counter.
pub const LOCK_MAX: i32 = 6;

/// Lock count from which characters are let through.
pub const LOCK_EMIT: i32 = 3;

/// Most characters held back.
pub const PENDING_CAP: usize = 32;

/// What the next strobe is expected to find.
#[derive(Clone, Copy, Debug, PartialEq, Eq, Structural)]
pub enum FramerState {
    /// Waiting for the edge that opens a character.
    Hunt,
    /// The start bit, which must be space.
    Start,
    /// The data bits, lowest first.
    Data,
    /// The stop bit, which must be mark.
    Stop,
}

/// What a sample does to the bit clock.
#[derive(Clone, Copy, Debug, PartialEq, Eq, Structural)]
pub enum ClockAction {
    /// Nothing.
    Run,
    /// A start edge: set the phase to the middle of a bit.
    Acquire,
    /// An edge inside a character: pull the phase gently.
    Track,
}

/// The framer.
pub struct RttyFramer {
    pub state: FramerState,
    pub nbits: u8,
    pub value: u8,
    pub lock: i32,
    /// Characters held back.
    pub pending: Vec<char>,
    pub baudot: BaudotRx,
    /// The bit of the last sample, once there was one.
    pub last: Option<bool>,
}

/// The contents of an [`RttyFramer`].
#[verifier::ext_equal]
pub struct FramerModel {
    pub state: FramerState,
    pub nbits: u8,
    pub value: u8,
    pub lock: i32,
    pub pending: Seq<char>,
    pub figs: bool,
    pub last: Option<bool>,
}

impl View for RttyFramer {
    type V = FramerModel;

    open spec fn view(&self) -> FramerModel {
        FramerModel {
            state: self.state,
            nbits: self.nbits,
            value: self.value,
            lock: self.lock,
            pending: self.pending@,
            figs: self.baudot.figs,
            last: self.last,
        }
    }
}

impl FramerModel {
    /// The counters keep within their ranges.
    pub open spec fn wf(self) -> bool {
        &&& 0 <= self.lock <= LOCK_MAX
        &&& self.pending.len() <= PENDING_CAP
        &&& self.state == FramerState::Data ==> self.nbits < 5
        &&& self.state == FramerState::Start ==> self.nbits == 0 && self.value == 0
        &&& self.state == FramerState::Data ==> (self.value as int) < bit_weight(self.nbits)
        &&& self.state == FramerState::Stop ==> self.value < 32
    }
}

/// Weight of data bit `i`.
pub open spec fn bit_weight(i: u8) -> int {
    if i == 0 {
        1
    } else if i == 1 {
        2
    } else if i == 2 {
        4
    } else if i == 3 {
        8
    } else {
        16
    }
}

/// What an edge does to the clock.
pub open spec fn clock_action(m: FramerModel, bit: bool) -> ClockAction {
    if m.last is None || m.last == Some(bit) {
        ClockAction::Run
    } else if m.state != FramerState::Hunt {
        ClockAction::Track
    } else if bit {
        ClockAction::Run
    } else {
        ClockAction::Acquire
    }
}

/// The framer after a sample: a start edge opens a character.
pub open spec fn after_sample(m: FramerModel, bit: bool) -> FramerModel {
    if clock_action(m, bit) == ClockAction::Acquire {
        FramerModel {
            state: FramerState::Start,
            nbits: 0,
            value: 0,
            last: Some(bit),
            ..m
        }
    } else {
        FramerModel { last: Some(bit), ..m }
    }
}

/// A framing failure costs some lock; without any left, what is held back is
/// dropped.
pub open spec fn failed(m: FramerModel, cost: int) -> FramerModel {
    let lock = if m.lock <= cost {
        0i32
    } else {
        (m.lock - cost) as i32
    };
    FramerModel {
        lock,
        pending: if lock == 0 {
            Seq::empty()
        } else {
            m.pending
        },
        ..m
    }
}

/// Lock after one more good character.
pub open spec fn raised(lock: i32) -> i32 {
    if lock + 1 < LOCK_MAX {
        (lock + 1) as i32
    } else {
        LOCK_MAX
    }
}

/// What is held back after one more character; the oldest makes room.
pub open spec fn held(pending: Seq<char>, c: char) -> Seq<char> {
    if pending.len() >= PENDING_CAP {
        pending.skip(1).push(c)
    } else {
        pending.push(c)
    }
}

/// The framer after a character whose stop bit was good.
pub open spec fn completed(m: FramerModel) -> FramerModel {
    FramerModel {
        lock: raised(m.lock),
        figs: baudot::shift_after(m.figs, m.value),
        pending: match baudot::decoded(m.figs, m.value) {
            Some(c) => if raised(m.lock) >= LOCK_EMIT {
                Seq::empty()
            } else {
                held(m.pending, c)
            },
            None => m.pending,
        },
        state: FramerState::Hunt,
        ..m
    }
}

/// The framer after a strobe.
pub open spec fn after_strobe(m: FramerModel, bit: bool) -> FramerModel {
    match m.state {
        FramerState::Hunt => m,
        FramerState::Start => if bit {
            FramerModel { state: FramerState::Hunt, ..failed(m, 1) }
        } else {
            FramerModel { state: FramerState::Data, ..m }
        },
        FramerState::Data => FramerModel {
            value: if bit {
                (m.value + bit_weight(m.nbits)) as u8
            } else {
                m.value
            },
            nbits: (m.nbits + 1) as u8,
            state: if m.nbits + 1 >= 5 {
                FramerState::Stop
            } else {
                FramerState::Data
            },
            ..m
        },
        FramerState::Stop => if bit {
            completed(m)
        } else {
            FramerModel { state: FramerState::Hunt, ..failed(m, 2) }
        },
    }
}

/// The characters that a strobe lets through: those held back and the new
/// one, once there is enough lock.
pub open spec fn emitted(m: FramerModel, bit: bool) -> Seq<char> {
    if m.state == FramerState::Stop && bit && raised(m.lock) >= LOCK_EMIT {
        match baudot::decoded(m.figs, m.value) {
            Some(c) => m.pending.push(c),
            None => Seq::empty(),
        }
    } else {
        Seq::empty()
    }
}

impl RttyFramer {
    pub fn new() -> (f: Self)
        ensures
            f@.wf(),
            f@ == (FramerModel {
                state: FramerState::Hunt,
                nbits: 0,
                value: 0,
                lock: 0,
                pending: Seq::empty(),
                figs: false,
                last: None,
            }),
    {
        RttyFramer {
            state: FramerState::Hunt,
            nbits: 0,
            value: 0,
            lock: 0,
            pending: Vec::new(),
            baudot: BaudotRx::new(),
            last: None,
        }
    }

    /// Forgets framing and what is held back, for a new tuning. The shift is
    /// kept.
    pub fn configure(&mut self)
        requires
            old(self)@.wf(),
        ensures
            final(self)@.wf(),
            final(self)@ == (FramerModel {
                state: FramerState::Hunt,
                last: None,
                lock: 0,
                pending: Seq::empty(),
                ..old(self)@
            }),
    {
        self.state = FramerState::Hunt;
        self.last = None;
        self.lock = 0;
        self.pending.clear();
    }

    /// Waits for a new character, after the sense of the tones was swapped.
    pub fn hunt(&mut self)
        requires
            old(self)@.wf(),
        ensures
            final(self)@.wf(),
            final(self)@ == (FramerModel { state: FramerState::Hunt, ..old(self)@ }),
    {
        self.state = FramerState::Hunt;
    }

    pub fn hunting(&self) -> (b: bool)
        ensures
            b == (self@.state == FramerState::Hunt),
    {
        self.state == FramerState::Hunt
    }

    /// The lock counter, from 0 to [`LOCK_MAX`].
    pub fn lock_count(&self) -> (n: i32)
        ensures
            n == self@.lock,
    {
        self.lock
    }

    /// Takes in the bit of one sample and says what it does to the clock.
    pub fn sample(&mut self, bit: bool) -> (a: ClockAction)
        requires
            old(self)@.wf(),
        ensures
            final(self)@.wf(),
            a == clock_action(old(self)@, bit),
            final(self)@ == after_sample(old(self)@, bit),
    {
        let edge: bool = match self.last {
            Some(b) => b != bit,
            None => false,
        };
        self.last = Some(bit);
        if !edge {
            return ClockAction::Run;
        }
        if self.state != FramerState::Hunt {
            return ClockAction::Track;
        }
        if bit {
            return ClockAction::Run;
        }
        self.state = FramerState::Start;
        self.nbits = 0;
        self.value = 0;
        ClockAction::Acquire
    }

    fn fail_lock(&mut self, cost: i32)
        requires
            old(self)@.wf(),
            0 <= cost <= 10,
        ensures
            final(self)@.wf(),
            final(self)@ == failed(old(self)@, cost as int),
    {
        self.lock = if self.lock <= cost {
            0
        } else {
            self.lock - cost
        };
        if self.lock == 0 {
            self.pending.clear();
        }
        assert(self@ =~= failed(old(self)@, cost as int));
    }

    /// Takes in the bit at a bit centre and returns the characters that it
    /// lets through.
    pub fn strobe(&mut self, bit: bool) -> (out: String)
        requires
            old(self)@.wf(),
        ensures
            final(self)@.wf(),
            final(self)@ == after_strobe(old(self)@, bit),
            out@ == emitted(old(self)@, bit),
    {
        let mut out: Vec<char> = Vec::new();
        match self.state {
            FramerState::Hunt => {},
            FramerState::Start => {
                if bit {
                    self.fail_lock(1);
                    self.state = FramerState::Hunt;
                } else {
                    self.state = FramerState::Data;
                }
            },
            FramerState::Data => {
                if bit {
                    let weight: u8 = match self.nbits {
                        0 => 1,
                        1 => 2,
                        2 => 4,
                        3 => 8,
                        _ => 16,
                    };
                    self.value = self.value + weight;
                }
                self.nbits = self.nbits + 1;
                if self.nbits >= 5 {
                    self.state = FramerState::Stop;
                }
            },
            FramerState::Stop => {
                if bit {
                    self.lock = if self.lock + 1 < LOCK_MAX {
                        self.lock + 1
                    } else {
                        LOCK_MAX
                    };
                    if let Some(c) = self.baudot.decode(self.value) {
                        if self.lock >= LOCK_EMIT {
                            out.append(&mut self.pending);
                            out.push(c);
                        } else {
                            if self.pending.len() >= PENDING_CAP {
                                self.pending.remove(0);
                                assert(self.pending@ =~= old(self).pending@.skip(1));
                            }
                            self.pending.push(c);
                        }
                    }
                } else {
                    self.fail_lock(2);
                }
                self.state = FramerState::Hunt;
            },
        }
        assert(self@ =~= after_strobe(old(self)@, bit));
        assert(out@ =~= emitted(old(self)@, bit));
        string_of(out.as_slice())
    }
}

// ---------------------------------------------------------------------
// Laws
// ---------------------------------------------------------------------

/// A strobe keeps the counters in range and holds back no more than the cap.
pub proof fn law_strobe_keeps_ranges(m: FramerModel, bit: bool)
    requires
        m.wf(),
    ensures
        after_strobe(m, bit).wf(),
        after_sample(m, bit).wf(),
{
}

/// Nothing is let through below the lock threshold: a frame that fails
/// lowers the lock, so noise that fails more than half its frames keeps the
/// receiver silent.
pub proof fn law_no_output_without_lock(m: FramerModel, bit: bool)
    requires
        m.wf(),
    ensures
        emitted(m, bit).len() > 0 ==> m.lock + 1 >= LOCK_EMIT,
        m.state == FramerState::Stop && !bit ==> after_strobe(m, bit).lock <= m.lock - 2
            || after_strobe(m, bit).lock == 0,
        m.state == FramerState::Start && bit ==> after_strobe(m, bit).lock <= m.lock - 1
            || after_strobe(m, bit).lock == 0,
{
}

/// The framer after several strobes.
pub open spec fn after_strobes(m: FramerModel, bits: Seq<bool>) -> FramerModel
    decreases bits.len(),
{
    if bits.len() == 0 {
        m
    } else {
        after_strobe(after_strobes(m, bits.drop_last()), bits.last())
    }
}

proof fn lemma_strobe_step(m: FramerModel, bits: Seq<bool>, k: int)
    requires
        0 <= k < bits.len(),
    ensures
        after_strobes(m, bits.take(k + 1)) == after_strobe(
            after_strobes(m, bits.take(k)),
            bits[k],
        ),
{
    assert(bits.take(k + 1).drop_last() =~= bits.take(k));
}

/// The value of the lowest `k` bits of a code.
spec fn low_bits(value: u8, k: int) -> int {
    if k == 0 {
        0
    } else if k == 1 {
        value as int % 2
    } else if k == 2 {
        value as int % 4
    } else if k == 3 {
        value as int % 8
    } else if k == 4 {
        value as int % 16
    } else {
        value as int % 32
    }
}

proof fn lemma_low_bits(value: u8, k: u8)
    requires
        k < 5,
    ensures
        low_bits(value, k + 1) == low_bits(value, k as int) + (if rtty_tx::data_bit(
            value,
            k as int,
        ) {
            bit_weight(k)
        } else {
            0
        }),
        0 <= low_bits(value, k as int) < bit_weight(k),
{
}

/// One data bit is taken in.
proof fn lemma_data_step(m: FramerModel, value: u8, k: u8)
    requires
        m.state == FramerState::Data,
        m.nbits == k,
        k < 5,
        m.value == low_bits(value, k as int),
    ensures
        after_strobe(m, rtty_tx::data_bit(value, k as int)) == (FramerModel {
            state: if k == 4 {
                FramerState::Stop
            } else {
                FramerState::Data
            },
            nbits: (k + 1) as u8,
            value: low_bits(value, k + 1) as u8,
            ..m
        }),
{
    lemma_low_bits(value, k);
}

/// The first seven bits of a transmitted frame, strobed after its start
/// edge, give back the code: the character of the code is let through or
/// held back, the shift follows it, and the lock rises.
pub proof fn law_frame_round_trip(m: FramerModel, value: u8)
    requires
        m.wf(),
        m.state == FramerState::Start,
        value < 32,
    ensures
        ({
            let bits = rtty_tx::framed(value, None).map_values(|b: rtty_tx::TxBit| b.mark);
            let at_stop = after_strobes(m, bits.take(6));
            &&& at_stop == (FramerModel { state: FramerState::Stop, nbits: 5, value, ..m })
            &&& after_strobes(m, bits.take(7)) == completed(at_stop)
            &&& bits[6]
        }),
{
    let bits = rtty_tx::framed(value, None).map_values(|b: rtty_tx::TxBit| b.mark);
    assert(bits.take(0) =~= Seq::<bool>::empty());
    lemma_strobe_step(m, bits, 0);
    lemma_strobe_step(m, bits, 1);
    lemma_strobe_step(m, bits, 2);
    lemma_strobe_step(m, bits, 3);
    lemma_strobe_step(m, bits, 4);
    lemma_strobe_step(m, bits, 5);
    lemma_strobe_step(m, bits, 6);
    let s1 = after_strobes(m, bits.take(1));
    assert(s1 == FramerModel { state: FramerState::Data, ..m });
    lemma_data_step(s1, value, 0);
    let s2 = after_strobes(m, bits.take(2));
    lemma_data_step(s2, value, 1);
    let s3 = after_strobes(m, bits.take(3));
    lemma_data_step(s3, value, 2);
    let s4 = after_strobes(m, bits.take(4));
    lemma_data_step(s4, value, 3);
    let s5 = after_strobes(m, bits.take(5));
    lemma_data_step(s5, value, 4);
    let s6 = after_strobes(m, bits.take(6));
    assert(s6 == FramerModel { state: FramerState::Stop, nbits: 5, value, ..m });
}

/// After a start edge, a space, five bits and a mark make the code in which
/// the bits count 1, 2, 4, 8 and 16 in the order they came.
pub proof fn law_bits_make_the_code(
    m: FramerModel,
    b0: bool,
    b1: bool,
    b2: bool,
    b3: bool,
    b4: bool,
)
    requires
        m.wf(),
        m.state == FramerState::Start,
    ensures
        ({
            let at_stop = after_strobes(m, seq![false, b0, b1, b2, b3, b4]);
            let weigh = |b: bool, w: int|
                if b {
                    w
                } else {
                    0
                };
            &&& at_stop.state == FramerState::Stop
            &&& at_stop.value == weigh(b0, 1) + weigh(b1, 2) + weigh(b2, 4) + weigh(b3, 8) + weigh(
                b4,
                16,
            )
            &&& at_stop.lock == m.lock && at_stop.pending == m.pending && at_stop.figs == m.figs
        }),
{
    let bits = seq![false, b0, b1, b2, b3, b4];
    assert(bits.take(0) =~= Seq::<bool>::empty());
    assert(bits.take(6) =~= bits);
    lemma_strobe_step(m, bits, 0);
    lemma_strobe_step(m, bits, 1);
    lemma_strobe_step(m, bits, 2);
    lemma_strobe_step(m, bits, 3);
    lemma_strobe_step(m, bits, 4);
    lemma_strobe_step(m, bits, 5);
}

/// A stop bit that is mark completes the character: the lock rises by one,
/// up to six. From three on the character comes out, behind all that was
/// held back; below that it is held back, at most 32 of them, the newest. A
/// code without a character brings nothing out. Then the next character is
/// waited for.
pub proof fn law_good_characters(m: FramerModel)
    requires
        m.wf(),
        m.state == FramerState::Stop,
    ensures
        ({
            let after = after_strobe(m, true);
            let c = baudot::decoded(m.figs, m.value);
            let lock = if m.lock >= 6 {
                6
            } else {
                m.lock + 1
            };
            &&& after.state == FramerState::Hunt
            &&& after.lock == lock
            &&& after.figs == baudot::shift_after(m.figs, m.value)
            &&& c is Some && lock >= 3 ==> emitted(m, true) == m.pending.push(c->0)
                && after.pending.len() == 0
            &&& c is Some && lock < 3 && m.pending.len() < 32 ==> after.pending == m.pending.push(
                c->0,
            )
            &&& c is Some && lock < 3 && m.pending.len() == 32 ==> after.pending == m.pending.skip(
                1,
            ).push(c->0)
            &&& lock < 3 ==> emitted(m, true).len() == 0
            &&& c is None ==> emitted(m, true).len() == 0 && after.pending == m.pending
        }),
{
}

/// A start bit that is mark costs one of the lock, a stop bit that is space
/// two; with none left, what was held back is dropped. Either way nothing
/// comes out and the next character is waited for. While waiting, strobes do
/// nothing.
pub proof fn law_bad_characters(m: FramerModel, bit: bool)
    requires
        m.wf(),
    ensures
        ({
            let cost = if m.state == FramerState::Start {
                1
            } else {
                2int
            };
            let bad = (m.state == FramerState::Start && bit) || (m.state == FramerState::Stop
                && !bit);
            let after = after_strobe(m, bit);
            &&& bad ==> after.state == FramerState::Hunt
            &&& bad ==> after.lock == (if m.lock > cost {
                m.lock - cost
            } else {
                0
            })
            &&& bad ==> after.pending == (if m.lock > cost {
                m.pending
            } else {
                Seq::empty()
            })
            &&& bad ==> after.figs == m.figs
            &&& m.state != FramerState::Stop ==> emitted(m, bit).len() == 0
            &&& !bit ==> emitted(m, bit).len() == 0
            &&& m.state == FramerState::Hunt ==> after == m
            &&& m.state == FramerState::Start && !bit ==> after.state == FramerState::Data
                && after.lock == m.lock
        }),
{
}

/// While waiting, a change from mark to space opens a character and sets
/// the clock; inside a character any change pulls the clock; nothing else
/// does anything but be remembered.
pub proof fn law_edges(m: FramerModel, bit: bool)
    ensures
        ({
            let edge = m.last is Some && m.last->0 != bit;
            let waiting = m.state == FramerState::Hunt;
            let after = after_sample(m, bit);
            &&& clock_action(m, bit) == ClockAction::Acquire <==> edge && waiting && !bit
            &&& clock_action(m, bit) == ClockAction::Track <==> edge && !waiting
            &&& after.last == Some(bit)
            &&& edge && waiting && !bit ==> after.state == FramerState::Start && after.nbits == 0
                && after.value == 0
            &&& !(edge && waiting && !bit) ==> after.state == m.state && after.nbits == m.nbits
                && after.value == m.value
            &&& after.lock == m.lock && after.pending == m.pending && after.figs == m.figs
        }),
{
}

} // verus!
