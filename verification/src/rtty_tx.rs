//! The teleprinter transmitter's bit queue. It turns text into framed codes
//! and says for every audio sample which of the two tones to play; making
//! the tone is the caller's part.
use crate::baudot::{self, encode, to_upper, BaudotCode, FIGS, LTRS};
use crate::text::ascii_upper;
use std::collections::VecDeque;
use vstd::prelude::*;

verus! {

/// One bit to be sent.
#[derive(Clone, Copy, Debug, PartialEq, Eq, Structural)]
pub struct TxBit {
    /// The mark tone; else the space tone.
    pub mark: bool,
    /// Index of the character that is complete once this bit is sent.
    pub char_done: Option<usize>,
}

/// A streaming transmitter.
pub struct RttyTx {
    /// Audio samples per bit.
    pub spb: usize,
    pub q: VecDeque<TxBit>,
    pub figs: bool,
    pub total_chars: usize,
    pub sent_chars: usize,
    /// Samples left of the bit that is being sent, and that bit.
    pub cur_left: usize,
    pub cur_mark: bool,
    pub cur_done: Option<usize>,
}

/// The contents of an [`RttyTx`].
#[verifier::ext_equal]
pub struct TxModel {
    pub spb: usize,
    pub q: Seq<TxBit>,
    pub figs: bool,
    pub total: nat,
    pub sent: nat,
    pub cur_left: usize,
    pub cur_mark: bool,
    pub cur_done: Option<usize>,
}

impl View for RttyTx {
    type V = TxModel;

    open spec fn view(&self) -> TxModel {
        TxModel {
            spb: self.spb,
            q: self.q@,
            figs: self.figs,
            total: self.total_chars as nat,
            sent: self.sent_chars as nat,
            cur_left: self.cur_left,
            cur_mark: self.cur_mark,
            cur_done: self.cur_done,
        }
    }
}

/// Data bit `i` of a code.
pub open spec fn data_bit(value: u8, i: int) -> bool {
    if i == 0 {
        value % 2 == 1
    } else if i == 1 {
        (value / 2) % 2 == 1
    } else if i == 2 {
        (value / 4) % 2 == 1
    } else if i == 3 {
        (value / 8) % 2 == 1
    } else {
        (value / 16) % 2 == 1
    }
}

pub open spec fn tone(mark: bool) -> TxBit {
    TxBit { mark, char_done: None }
}

/// A code on the line: a start bit, five data bits from the lowest on, and
/// two stop bits.
pub open spec fn framed(value: u8, done: Option<usize>) -> Seq<TxBit> {
    seq![
        tone(false),
        tone(data_bit(value, 0)),
        tone(data_bit(value, 1)),
        tone(data_bit(value, 2)),
        tone(data_bit(value, 3)),
        tone(data_bit(value, 4)),
        tone(true),
        TxBit { mark: true, char_done: done },
    ]
}

/// The shift that the line is in after a character.
pub open spec fn shift_for(figs: bool, c: char) -> bool {
    match baudot::encoded(c) {
        Some(BaudotCode { needs_figs: Some(f), .. }) => f,
        _ => figs,
    }
}

/// The bits of a character, with a shift code in front where it needs one.
pub open spec fn char_bits(figs: bool, c: char, index: usize) -> Seq<TxBit> {
    match baudot::encoded(c) {
        None => Seq::empty(),
        Some(b) => if shift_for(figs, c) != figs {
            framed(
                if shift_for(figs, c) {
                    FIGS
                } else {
                    LTRS
                },
                None,
            ) + framed(b.value, Some(index))
        } else {
            framed(b.value, Some(index))
        },
    }
}

/// A character is queued. One that cannot be sent counts as sent at once.
pub open spec fn push_char(m: TxModel, ch: char) -> TxModel {
    let c = ascii_upper(ch);
    TxModel {
        q: m.q + char_bits(m.figs, c, m.total as usize),
        figs: shift_for(m.figs, c),
        total: m.total + 1,
        sent: if baudot::encoded(c) is None && m.sent < m.total + 1 {
            m.total + 1
        } else {
            m.sent
        },
        ..m
    }
}

/// A text is queued.
pub open spec fn push_chars(m: TxModel, text: Seq<char>) -> TxModel
    decreases text.len(),
{
    if text.len() == 0 {
        m
    } else {
        push_char(push_chars(m, text.drop_last()), text.last())
    }
}

/// The state in which the next sample is played: where a bit is over, its
/// character counts as sent and the next bit begins, or idle mark. The
/// count never goes back: a later character without a code may already
/// have been counted.
pub open spec fn next_bit(m: TxModel) -> TxModel {
    if m.cur_left > 0 {
        m
    } else {
        TxModel {
            sent: match m.cur_done {
                Some(i) => if m.sent < i + 1 {
                    (i + 1) as nat
                } else {
                    m.sent
                },
                None => m.sent,
            },
            q: if m.q.len() > 0 {
                m.q.skip(1)
            } else {
                m.q
            },
            cur_mark: m.q.len() == 0 || m.q[0].mark,
            cur_done: if m.q.len() > 0 {
                m.q[0].char_done
            } else {
                None
            },
            cur_left: m.spb,
            ..m
        }
    }
}

/// The state after one sample.
pub open spec fn after_sample(m: TxModel) -> TxModel {
    TxModel { cur_left: (next_bit(m).cur_left - 1) as usize, ..next_bit(m) }
}

/// The state after `n` samples.
pub open spec fn after_samples(m: TxModel, n: nat) -> TxModel
    decreases n,
{
    if n == 0 {
        m
    } else {
        after_sample(after_samples(m, (n - 1) as nat))
    }
}

/// Whether sample `k` from here on is the mark tone.
pub open spec fn sample_mark(m: TxModel, k: int) -> bool {
    next_bit(after_samples(m, k as nat)).cur_mark
}

/// The last character queued is still to be finished.
pub open spec fn finishes_last(m: TxModel) -> bool {
    ||| m.cur_done == Some((m.total - 1) as usize)
    ||| exists|k: int|
        0 <= k < m.q.len() && (#[trigger] m.q[k]).char_done == Some((m.total - 1) as usize)
}

/// The counts agree with the queue: no more is sent than was queued, only
/// queued characters will be finished, and what is missing will come.
pub open spec fn counts_agree(m: TxModel) -> bool {
    &&& m.sent <= m.total <= usize::MAX
    &&& m.cur_done matches Some(i) ==> i < m.total
    &&& forall|k: int|
        0 <= k < m.q.len() ==> ((#[trigger] m.q[k]).char_done matches Some(i) ==> i < m.total)
    &&& m.sent == m.total || finishes_last(m)
}

proof fn lemma_push_char_agrees(m: TxModel, ch: char)
    requires
        counts_agree(m),
        m.total < usize::MAX,
    ensures
        counts_agree(push_char(m, ch)),
{
    let c = ascii_upper(ch);
    let n = push_char(m, ch);
    let added = char_bits(m.figs, c, m.total as usize);
    assert forall|k: int| 0 <= k < n.q.len() implies ((#[trigger] n.q[k]).char_done matches Some(
        i,
    ) ==> i < n.total) by {
        if k < m.q.len() {
            assert(n.q[k] == m.q[k]);
        } else {
            assert(n.q[k] == added[k - m.q.len()]);
        }
    }
    if baudot::encoded(c) is Some {
        assert(n.q[n.q.len() - 1] == added.last());
        assert(added.last().char_done == Some(m.total as usize));
    }
}

proof fn lemma_sample_agrees(m: TxModel)
    requires
        counts_agree(m),
    ensures
        counts_agree(after_sample(m)),
        after_sample(m).total == m.total,
        after_sample(m).sent >= m.sent,
{
    let n = after_sample(m);
    if m.cur_left == 0 {
        assert forall|k: int| 0 <= k < n.q.len() implies ((
        #[trigger] n.q[k]).char_done matches Some(i) ==> i < n.total) by {
            assert(n.q[k] == m.q[k + 1]);
        }
        if n.sent != n.total {
            let k = choose|k: int|
                0 <= k < m.q.len() && (#[trigger] m.q[k]).char_done == Some(
                    (m.total - 1) as usize,
                );
            if k > 0 {
                assert(n.q[k - 1] == m.q[k]);
            }
        }
    }
}

fn bit(v: u8, i: u8) -> (b: bool)
    requires
        i < 5,
    ensures
        b == data_bit(v, i as int),
{
    match i {
        0 => v % 2 == 1,
        1 => (v / 2) % 2 == 1,
        2 => (v / 4) % 2 == 1,
        3 => (v / 8) % 2 == 1,
        _ => (v / 16) % 2 == 1,
    }
}

impl RttyTx {
    /// A bit lasts at least one sample, and the counts agree with the queue.
    pub open spec fn wf(self) -> bool {
        self.spb >= 1 && counts_agree(self@)
    }

    /// An idle transmitter.
    pub fn new(spb: usize) -> (t: Self)
        requires
            spb >= 1,
        ensures
            t.wf(),
            t@ == (TxModel {
                spb,
                q: Seq::empty(),
                figs: false,
                total: 0,
                sent: 0,
                cur_left: 0,
                cur_mark: true,
                cur_done: None,
            }),
    {
        RttyTx {
            spb,
            q: VecDeque::new(),
            figs: false,
            total_chars: 0,
            sent_chars: 0,
            cur_left: 0,
            cur_mark: true,
            cur_done: None,
        }
    }

    /// Queues one framed code.
    fn frame(&mut self, value: u8, char_done: Option<usize>)
        ensures
            final(self)@ == (TxModel { q: old(self)@.q + framed(value, char_done), ..old(self)@ }),
    {
        self.q.push_back(TxBit { mark: false, char_done: None });
        self.q.push_back(TxBit { mark: bit(value, 0), char_done: None });
        self.q.push_back(TxBit { mark: bit(value, 1), char_done: None });
        self.q.push_back(TxBit { mark: bit(value, 2), char_done: None });
        self.q.push_back(TxBit { mark: bit(value, 3), char_done: None });
        self.q.push_back(TxBit { mark: bit(value, 4), char_done: None });
        self.q.push_back(TxBit { mark: true, char_done: None });
        self.q.push_back(TxBit { mark: true, char_done });
        assert(self.q@ =~= old(self).q@ + framed(value, char_done));
    }

    /// Queues one character.
    fn push_one(&mut self, ch: char)
        requires
            old(self).wf(),
            old(self).total_chars < usize::MAX,
        ensures
            final(self).wf(),
            final(self)@ == push_char(old(self)@, ch),
    {
        let ci: usize = self.total_chars;
        self.total_chars = self.total_chars + 1;
        let c: char = to_upper(ch);
        match encode(c) {
            Some(b) => {
                if let Some(f) = b.needs_figs {
                    if self.figs != f {
                        self.figs = f;
                        self.frame(
                            if f {
                                FIGS
                            } else {
                                LTRS
                            },
                            None,
                        );
                    }
                }
                self.frame(b.value, Some(ci));
            },
            None => {
                if self.sent_chars < ci + 1 {
                    self.sent_chars = ci + 1;
                }
            },
        }
        assert(self@ =~= push_char(old(self)@, ch));
        proof {
            lemma_push_char_agrees(old(self)@, ch);
        }
    }

    /// Queues a text, in capitals. Characters without a code are left out.
    pub fn push_text(&mut self, text: &str)
        requires
            old(self).wf(),
            old(self).total_chars + text@.len() <= usize::MAX,
        ensures
            final(self).wf(),
            final(self)@ == push_chars(old(self)@, text@),
    {
        for c in it: text.chars()
            invariant
                it.seq() == text@,
                old(self).total_chars + text@.len() <= usize::MAX,
                self.wf(),
                self@ == push_chars(old(self)@, text@.take(it.index())),
                self@.total == old(self)@.total + it.index(),
        {
            proof {
                let k = it.index();
                assert(text@.take(k + 1).drop_last() =~= text@.take(k));
            }
            self.push_one(c);
        }
        assert(text@.take(text@.len() as int) =~= text@);
    }

    pub fn sent_chars(&self) -> (n: usize)
        ensures
            n == self@.sent,
    {
        self.sent_chars
    }

    pub fn total_chars(&self) -> (n: usize)
        ensures
            n == self@.total,
    {
        self.total_chars
    }

    /// Whether everything queued has been sent.
    pub fn drained(&self) -> (b: bool)
        ensures
            b == (self@.q.len() == 0 && self@.cur_left == 0),
    {
        self.q.len() == 0 && self.cur_left == 0
    }

    /// Drops what is queued and starts counting anew.
    pub fn clear(&mut self)
        requires
            old(self).wf(),
        ensures
            final(self).wf(),
            final(self)@ == (TxModel {
                q: Seq::empty(),
                cur_left: 0,
                cur_done: None,
                figs: false,
                total: 0,
                sent: 0,
                ..old(self)@
            }),
    {
        self.q.clear();
        self.cur_left = 0;
        self.cur_done = None;
        self.figs = false;
        self.total_chars = 0;
        self.sent_chars = 0;
    }

    /// Moves on by one sample and tells whether it is the mark tone.
    pub fn next_sample(&mut self) -> (mark: bool)
        requires
            old(self).wf(),
        ensures
            final(self).wf(),
            mark == next_bit(old(self)@).cur_mark,
            final(self)@ == after_sample(old(self)@),
    {
        if self.cur_left == 0 {
            if let Some(ci) = self.cur_done {
                if self.sent_chars < ci + 1 {
                    self.sent_chars = ci + 1;
                }
            }
            match self.q.pop_front() {
                Some(b) => {
                    self.cur_mark = b.mark;
                    self.cur_done = b.char_done;
                    assert(self.q@ =~= old(self).q@.skip(1));
                    assert(b == old(self).q@[0]);
                },
                None => {
                    self.cur_mark = true;
                    self.cur_done = None;
                },
            }
            self.cur_left = self.spb;
        }
        self.cur_left = self.cur_left - 1;
        assert(self@ =~= after_sample(old(self)@));
        proof {
            lemma_sample_agrees(old(self)@);
        }
        self.cur_mark
    }

    /// The tones of the next `n` samples.
    pub fn next_block(&mut self, n: usize) -> (marks: Vec<bool>)
        requires
            old(self).wf(),
        ensures
            final(self).wf(),
            marks@ == Seq::new(n as nat, |k: int| sample_mark(old(self)@, k)),
            final(self)@ == after_samples(old(self)@, n as nat),
    {
        let mut marks: Vec<bool> = Vec::new();
        for k in 0..n
            invariant
                self.wf(),
                marks@ == Seq::new(k as nat, |j: int| sample_mark(old(self)@, j)),
                self@ == after_samples(old(self)@, k as nat),
        {
            let mark: bool = self.next_sample();
            marks.push(mark);
            assert(marks@ =~= Seq::new((k + 1) as nat, |j: int| sample_mark(old(self)@, j)));
        }
        marks
    }
}

// ---------------------------------------------------------------------
// Laws
// ---------------------------------------------------------------------

/// Where the bit at hand stands `j` samples after it began.
proof fn lemma_bit_progress(m: TxModel, j: nat)
    requires
        m.spb >= 1,
        m.cur_left == 0,
        1 <= j <= m.spb,
    ensures
        after_samples(m, j) == (TxModel { cur_left: (m.spb - j) as usize, ..next_bit(m) }),
    decreases j,
{
    if j == 1 {
        assert(after_samples(m, 0) == m);
        assert(after_samples(m, 1) == after_sample(m)) by {
            reveal_with_fuel(after_samples, 2);
        }
    } else {
        lemma_bit_progress(m, (j - 1) as nat);
    }
}

proof fn lemma_samples_add(m: TxModel, a: nat, b: nat)
    ensures
        after_samples(m, a + b) == after_samples(after_samples(m, a), b),
    decreases b,
{
    if b > 0 {
        lemma_samples_add(m, a, (b - 1) as nat);
    }
}

/// What is left of a queue of which `j` bits have played.
pub open spec fn bits_left(q: Seq<TxBit>, j: nat) -> Seq<TxBit> {
    if j < q.len() {
        q.skip(j as int)
    } else {
        Seq::empty()
    }
}

/// Where the transmitter stands after `j` whole bits.
proof fn lemma_whole_bits(m: TxModel, j: nat)
    requires
        m.spb >= 1,
        m.cur_left == 0,
    ensures
        ({
            let n = after_samples(m, j * m.spb as nat);
            &&& n.cur_left == 0
            &&& n.spb == m.spb
            &&& n.q == bits_left(m.q, j)
        }),
    decreases j,
{
    let spb = m.spb as nat;
    if j == 0 {
        assert(0 * spb == 0) by (nonlinear_arith);
        assert(m.q.skip(0) =~= m.q);
        assert(m.q.len() == 0 ==> m.q =~= Seq::empty());
    } else {
        let before = after_samples(m, (j - 1) as nat * spb);
        lemma_whole_bits(m, (j - 1) as nat);
        assert(j * spb == (j - 1) as nat * spb + spb) by (nonlinear_arith)
            requires
                j >= 1,
        ;
        lemma_samples_add(m, (j - 1) as nat * spb, spb);
        lemma_bit_progress(before, spb);
        assert(after_samples(before, spb).q =~= bits_left(m.q, j));
    }
}

/// Every queued bit plays its tone for exactly the length of a bit, in the
/// order of the queue, and behind the last one the mark tone plays.
pub proof fn law_bits_play_in_order(m: TxModel, k: int)
    requires
        m.spb >= 1,
        m.cur_left == 0,
        0 <= k,
    ensures
        sample_mark(m, k) == (k / m.spb as int >= m.q.len() || m.q[k / m.spb as int].mark),
{
    let spb = m.spb as int;
    let j = (k / spb) as nat;
    let r = (k % spb) as nat;
    vstd::arithmetic::div_mod::lemma_fundamental_div_mod(k, spb);
    vstd::arithmetic::div_mod::lemma_mod_bound(k, spb);
    vstd::arithmetic::div_mod::lemma_div_pos_is_pos(k, spb);
    assert(spb * (k / spb) == j * spb) by (nonlinear_arith)
        requires
            j == k / spb,
    ;
    let at = after_samples(m, j * m.spb as nat);
    lemma_whole_bits(m, j);
    lemma_samples_add(m, j * m.spb as nat, r);
    if r > 0 {
        lemma_bit_progress(at, r);
    } else {
        assert(after_samples(at, 0) == at);
    }
    if j < m.q.len() {
        assert(at.q[0] == m.q[j as int]);
    }
}

proof fn lemma_samples_agree(m: TxModel, n: nat)
    requires
        counts_agree(m),
    ensures
        counts_agree(after_samples(m, n)),
        after_samples(m, n).total == m.total,
        after_samples(m, n).sent >= m.sent,
    decreases n,
{
    if n > 0 {
        lemma_samples_agree(m, (n - 1) as nat);
        lemma_sample_agrees(after_samples(m, (n - 1) as nat));
    }
}

/// Progress only grows while playing and never passes the number of
/// characters queued.
pub proof fn law_progress_only_grows(m: TxModel, n: nat)
    requires
        counts_agree(m),
    ensures
        m.sent <= after_samples(m, n).sent <= m.total,
        after_samples(m, n).total == m.total,
{
    lemma_samples_agree(m, n);
}

/// Once the whole queue has played, every character counts as sent, with
/// or without a code.
pub proof fn law_everything_is_sent(m: TxModel)
    requires
        counts_agree(m),
        m.spb >= 1,
        m.cur_left == 0,
    ensures
        after_samples(m, m.q.len() * m.spb as nat + 1).sent == m.total,
{
    let n = m.q.len() * m.spb as nat;
    lemma_whole_bits(m, m.q.len());
    lemma_samples_agree(m, n + 1);
    let end = after_samples(m, n + 1);
    assert(end == after_sample(after_samples(m, n)));
    assert(end.cur_done is None);
    assert(end.q.len() == 0);
}

/// The codes on the line for a text.
pub open spec fn text_codes(figs: bool, text: Seq<char>) -> Seq<u8>
    decreases text.len(),
{
    if text.len() == 0 {
        Seq::empty()
    } else {
        let c = ascii_upper(text[0]);
        char_codes(figs, c) + text_codes(shift_for(figs, c), text.skip(1))
    }
}

/// The codes of a character.
pub open spec fn char_codes(figs: bool, c: char) -> Seq<u8> {
    match baudot::encoded(c) {
        None => Seq::empty(),
        Some(b) => if shift_for(figs, c) != figs {
            seq![
                if shift_for(figs, c) {
                    FIGS
                } else {
                    LTRS
                },
                b.value,
            ]
        } else {
            seq![b.value]
        },
    }
}

/// What a receiver makes of some codes.
pub open spec fn received(figs: bool, codes: Seq<u8>) -> Seq<char>
    decreases codes.len(),
{
    if codes.len() == 0 {
        Seq::empty()
    } else {
        let rest = received(baudot::shift_after(figs, codes[0]), codes.skip(1));
        match baudot::decoded(figs, codes[0]) {
            Some(c) => seq![c] + rest,
            None => rest,
        }
    }
}

/// What of a text arrives: its characters in capitals, without those that
/// have no code and without carriage returns.
pub open spec fn transmissible(text: Seq<char>) -> Seq<char>
    decreases text.len(),
{
    if text.len() == 0 {
        Seq::empty()
    } else {
        let c = ascii_upper(text[0]);
        let rest = transmissible(text.skip(1));
        if baudot::encoded(c) is None || c == '\r' {
            rest
        } else {
            seq![c] + rest
        }
    }
}

/// A receiver in the same shift as the sender reads a text as it was sent.
pub proof fn law_text_round_trip(figs: bool, text: Seq<char>)
    ensures
        received(figs, text_codes(figs, text)) == transmissible(text),
    decreases text.len(),
{
    if text.len() > 0 {
        let c = ascii_upper(text[0]);
        let next = shift_for(figs, c);
        let rest = text_codes(next, text.skip(1));
        law_text_round_trip(next, text.skip(1));
        if let Some(b) = baudot::encoded(c) {
            baudot::law_code_round_trip(c, next);
            let own = seq![b.value] + rest;
            assert(own.skip(1) =~= rest);
            assert(received(next, own) == (if c == '\r' {
                received(next, rest)
            } else {
                seq![c] + received(next, rest)
            }));
            if next != figs {
                let shift = if next {
                    FIGS
                } else {
                    LTRS
                };
                let all = char_codes(figs, c) + rest;
                assert(all[0] == shift);
                assert(all.skip(1) =~= own);
                assert(baudot::decoded(figs, shift) is None);
                assert(received(figs, all) == received(next, own));
            } else {
                assert(char_codes(figs, c) + rest =~= own);
            }
        } else {
            assert(char_codes(figs, c) + rest =~= rest);
        }
    }
}

/// The bits of a run of codes, without marks for finished characters.
pub open spec fn line_bits(codes: Seq<u8>) -> Seq<bool>
    decreases codes.len(),
{
    if codes.len() == 0 {
        Seq::empty()
    } else {
        line_bits(codes.drop_last()) + framed(codes.last(), None).map_values(|b: TxBit| b.mark)
    }
}

proof fn lemma_line_bits_add(a: Seq<u8>, b: Seq<u8>)
    ensures
        line_bits(a + b) == line_bits(a) + line_bits(b),
    decreases b.len(),
{
    if b.len() == 0 {
        assert(a + b =~= a);
        assert(line_bits(a) + line_bits(b) =~= line_bits(a));
    } else {
        assert((a + b).drop_last() =~= a + b.drop_last());
        lemma_line_bits_add(a, b.drop_last());
        assert(line_bits(a + b) =~= line_bits(a) + line_bits(b));
    }
}

proof fn lemma_char_line_bits(figs: bool, c: char, index: usize)
    ensures
        char_bits(figs, c, index).map_values(|b: TxBit| b.mark) == line_bits(char_codes(figs, c)),
{
    reveal_with_fuel(line_bits, 3);
    let codes = char_codes(figs, c);
    if codes.len() == 2 {
        assert(codes.drop_last() =~= seq![codes[0]]);
        assert(seq![codes[0]].drop_last() =~= Seq::<u8>::empty());
    } else if codes.len() == 1 {
        assert(codes.drop_last() =~= Seq::<u8>::empty());
    }
    assert(char_bits(figs, c, index).map_values(|b: TxBit| b.mark) =~= line_bits(codes));
}

proof fn lemma_codes_regroup(a: Seq<u8>, b: Seq<u8>, c: Seq<u8>)
    ensures
        a + (b + c) == a + b + c,
        Seq::<u8>::empty() + b == b,
        b + Seq::<u8>::empty() == b,
{
    assert(a + (b + c) =~= a + b + c);
    assert(Seq::<u8>::empty() + b =~= b);
    assert(b + Seq::<u8>::empty() =~= b);
}

proof fn lemma_text_codes_first(figs: bool, text: Seq<char>)
    requires
        text.len() > 0,
    ensures
        ({
            let c = ascii_upper(text[0]);
            &&& text_codes(figs, text) == char_codes(figs, c) + text_codes(
                shift_for(figs, c),
                text.skip(1),
            )
            &&& shift_after_text(figs, text) == shift_after_text(shift_for(figs, c), text.skip(1))
        }),
{
}

/// Codes of a text, built from its end.
proof fn lemma_text_codes_push(figs: bool, text: Seq<char>, c: char)
    ensures
        text_codes(figs, text.push(c)) == text_codes(figs, text) + char_codes(
            shift_after_text(figs, text),
            ascii_upper(c),
        ),
        shift_after_text(figs, text.push(c)) == shift_for(
            shift_after_text(figs, text),
            ascii_upper(c),
        ),
    decreases text.len(),
{
    lemma_text_codes_first(figs, text.push(c));
    if text.len() == 0 {
        assert(text.push(c).skip(1) =~= Seq::<char>::empty());
        lemma_codes_regroup(Seq::empty(), char_codes(figs, ascii_upper(c)), Seq::empty());
    } else {
        let f = shift_for(figs, ascii_upper(text[0]));
        let rest = text.skip(1);
        assert(text.push(c).skip(1) =~= rest.push(c));
        lemma_text_codes_first(figs, text);
        lemma_text_codes_push(f, rest, c);
        lemma_codes_regroup(
            char_codes(figs, ascii_upper(text[0])),
            text_codes(f, rest),
            char_codes(shift_after_text(f, rest), ascii_upper(c)),
        );
    }
}

/// The shift that the line is in after a text.
pub open spec fn shift_after_text(figs: bool, text: Seq<char>) -> bool
    decreases text.len(),
{
    if text.len() == 0 {
        figs
    } else {
        shift_after_text(shift_for(figs, ascii_upper(text[0])), text.skip(1))
    }
}

/// The bits that a text adds to the queue are those of its codes, which by
/// [`law_text_round_trip`] read back as the text.
pub proof fn law_queue_carries_text(m: TxModel, text: Seq<char>)
    ensures
        push_chars(m, text).q.map_values(|b: TxBit| b.mark) == m.q.map_values(|b: TxBit| b.mark)
            + line_bits(text_codes(m.figs, text)),
        push_chars(m, text).figs == shift_after_text(m.figs, text),
        push_chars(m, text).total == m.total + text.len(),
    decreases text.len(),
{
    let marks = |b: TxBit| b.mark;
    if text.len() == 0 {
        assert(m.q.map_values(marks) + line_bits(text_codes(m.figs, text)) =~= m.q.map_values(marks));
    } else {
        let init = text.drop_last();
        let c = ascii_upper(text.last());
        law_queue_carries_text(m, init);
        assert(init.push(text.last()) =~= text);
        lemma_text_codes_push(m.figs, init, text.last());
        let p = push_chars(m, init);
        lemma_char_line_bits(p.figs, c, p.total as usize);
        lemma_line_bits_add(text_codes(m.figs, init), char_codes(p.figs, c));
        assert(push_chars(m, text).q.map_values(marks) =~= p.q.map_values(marks) + char_bits(
            p.figs,
            c,
            p.total as usize,
        ).map_values(marks));
        assert(push_chars(m, text).q.map_values(marks) =~= m.q.map_values(marks) + line_bits(
            text_codes(m.figs, text),
        ));
    }
}

proof fn lemma_code_bits(v: u8)
    by (bit_vector)
    ensures
        (v & 0x01 == 0x01) == (v % 2 == 1),
        (v & 0x02 == 0x02) == ((v / 2) % 2 == 1),
        (v & 0x04 == 0x04) == ((v / 4) % 2 == 1),
        (v & 0x08 == 0x08) == ((v / 8) % 2 == 1),
        (v & 0x10 == 0x10) == ((v / 16) % 2 == 1),
{
}

/// A code goes out as a space for the start, its five bits from the lowest
/// on with a mark for a one, and two marks for the stop. With the last of
/// them its character is complete.
pub proof fn law_code_on_the_line(v: u8, done: Option<usize>)
    ensures
        ({
            let f = framed(v, done);
            &&& f.len() == 8
            &&& !f[0].mark
            &&& f[1].mark <==> v & 0x01 == 0x01
            &&& f[2].mark <==> v & 0x02 == 0x02
            &&& f[3].mark <==> v & 0x04 == 0x04
            &&& f[4].mark <==> v & 0x08 == 0x08
            &&& f[5].mark <==> v & 0x10 == 0x10
            &&& f[6].mark && f[7].mark
            &&& f[7].char_done == done
            &&& forall|k: int| 0 <= k < 7 ==> (#[trigger] f[k]).char_done is None
        }),
{
    lemma_code_bits(v);
}

/// A character that needs the other shift has the shift's code in front, 27
/// for figures and 31 for letters, and the line stays in that shift. One
/// without a code adds nothing and leaves the shift alone.
pub proof fn law_shift_goes_in_front(figs: bool, c: char, index: usize)
    ensures
        baudot::encoded(c) is None ==> char_bits(figs, c, index).len() == 0 && shift_for(figs, c)
            == figs && char_codes(figs, c).len() == 0,
        baudot::encoded(c) matches Some(b) ==> {
            let other = b.needs_figs matches Some(f) && f != figs;
            &&& shift_for(figs, c) == (if other {
                !figs
            } else {
                figs
            })
            &&& char_codes(figs, c) == (if other {
                seq![
                    if figs {
                        31u8
                    } else {
                        27u8
                    },
                    b.value,
                ]
            } else {
                seq![b.value]
            })
            &&& char_bits(figs, c, index) == (if other {
                framed(
                    if figs {
                        31u8
                    } else {
                        27u8
                    },
                    None,
                ) + framed(b.value, Some(index))
            } else {
                framed(b.value, Some(index))
            })
        },
{
}

/// Each character of a text is counted, in capitals, and its bits follow
/// those that are queued. One without a code counts as sent at once, and
/// nothing else that is queued counts before it has been played.
pub proof fn law_characters_are_queued(m: TxModel, c: char)
    requires
        m.total < usize::MAX,
    ensures
        ({
            let after = push_chars(m, seq![c]);
            let known = baudot::encoded(ascii_upper(c)) is Some;
            &&& after.total == m.total + 1
            &&& after.q == m.q + char_bits(m.figs, ascii_upper(c), m.total as usize)
            &&& after.figs == shift_for(m.figs, ascii_upper(c))
            &&& known ==> after.sent == m.sent
            &&& !known && m.sent <= m.total ==> after.sent == m.total + 1
            &&& after.spb == m.spb && after.cur_left == m.cur_left && after.cur_mark == m.cur_mark
                && after.cur_done == m.cur_done
        }),
        push_chars(m, Seq::empty()) == m,
{
    assert(seq![c].drop_last() =~= Seq::<char>::empty());
    assert(push_chars(m, Seq::empty()) == m);
    assert(push_chars(m, seq![c]) == push_char(push_chars(m, seq![c].drop_last()), c));
}

/// A character counts as sent when the last sample of its last bit is over,
/// and not before: a sample that is not the first of a bit changes no count,
/// and the first of a bit completes what the bit before it completed.
pub proof fn law_characters_are_sent(m: TxModel)
    requires
        m.spb >= 1,
    ensures
        ({
            let after = after_sample(m);
            &&& m.cur_left > 0 ==> after.sent == m.sent && after.q == m.q && after.cur_left
                == m.cur_left - 1
            &&& m.cur_left == 0 && m.cur_done is None ==> after.sent == m.sent
            &&& m.cur_left == 0 && m.cur_done is Some && m.sent <= m.cur_done->0 ==> after.sent
                == m.cur_done->0 + 1
            &&& m.cur_left == 0 && m.q.len() > 0 ==> after.q == m.q.skip(1) && after.cur_mark
                == m.q[0].mark && after.cur_done == m.q[0].char_done
            &&& m.cur_left == 0 && m.q.len() == 0 ==> after.q == m.q && after.cur_mark
                && after.cur_done is None
            &&& m.cur_left == 0 ==> after.cur_left == m.spb - 1
            &&& after.total == m.total && after.figs == m.figs && after.spb == m.spb
        }),
{
}

} // verus!
