//! What ties the teleprinter modem to a session: which parts a change of
//! settings touches, and the received text's scrollback.
use crate::text::{self, char_bytes};
use std::collections::VecDeque;
use vstd::prelude::*;

verus! {

/// Bytes of received text that are kept.
pub const MAX_RX_TEXT_CHARS: usize = 20_000;

/// Which settings of the modem differ from those in force.
#[derive(Clone, Copy, Debug, PartialEq, Eq, Structural)]
pub struct SettingsChange {
    pub center: bool,
    pub baud: bool,
    pub shift: bool,
    pub reverse: bool,
    pub afc: bool,
}

/// What becomes of the transmitter.
#[derive(Clone, Copy, Debug, PartialEq, Eq, Structural)]
pub enum TxChange {
    Keep,
    /// New tones; the queued text stays.
    Retune,
    /// A new transmitter; the queued text is lost.
    Rebuild,
}

/// What a change of settings asks for.
#[derive(Clone, Copy, Debug, PartialEq, Eq, Structural)]
pub struct SettingsPlan {
    pub retune_rx: bool,
    pub set_reverse: bool,
    pub set_afc: bool,
    pub tx: TxChange,
}

pub open spec fn settings_plan(c: SettingsChange) -> SettingsPlan {
    SettingsPlan {
        retune_rx: c.center || c.baud || c.shift,
        set_reverse: c.reverse,
        set_afc: c.afc,
        tx: if c.baud {
            TxChange::Rebuild
        } else if c.center || c.shift {
            TxChange::Retune
        } else {
            TxChange::Keep
        },
    }
}

/// Only what changed is touched. A change of speed needs a new
/// transmitter.
pub fn set_settings(c: SettingsChange) -> (p: SettingsPlan)
    ensures
        p == settings_plan(c),
{
    SettingsPlan {
        retune_rx: c.center || c.baud || c.shift,
        set_reverse: c.reverse,
        set_afc: c.afc,
        tx: if c.baud {
            TxChange::Rebuild
        } else if c.center || c.shift {
            TxChange::Retune
        } else {
            TxChange::Keep
        },
    }
}

/// Queued text is lost only where the speed changes, and settings that did
/// not change touch nothing.
pub proof fn law_only_changes_apply(c: SettingsChange)
    ensures
        settings_plan(c).tx == TxChange::Rebuild <==> c.baud,
        !c.center && !c.baud && !c.shift ==> !settings_plan(c).retune_rx && settings_plan(c).tx
            == TxChange::Keep,
        settings_plan(c).set_reverse == c.reverse,
        settings_plan(c).set_afc == c.afc,
{
}

/// The longest end of a text that fits the scrollback.
pub open spec fn kept(s: Seq<char>) -> Seq<char>
    decreases s.len(),
{
    if text::byte_len(s) <= MAX_RX_TEXT_CHARS || s.len() == 0 {
        s
    } else {
        kept(s.skip(1))
    }
}

proof fn lemma_byte_len_first(s: Seq<char>)
    requires
        s.len() > 0,
    ensures
        text::byte_len(s) == text::utf8_len(s[0]) + text::byte_len(s.skip(1)),
    decreases s.len(),
{
    if s.len() > 1 {
        lemma_byte_len_first(s.drop_last());
        assert(s.drop_last().skip(1) =~= s.skip(1).drop_last());
    } else {
        assert(s.drop_last() =~= s.skip(1));
    }
}

proof fn lemma_byte_len_positive(s: Seq<char>)
    ensures
        text::byte_len(s) >= s.len(),
    decreases s.len(),
{
    if s.len() > 0 {
        lemma_byte_len_positive(s.drop_last());
    }
}

proof fn lemma_kept_step(s: Seq<char>, c: char)
    ensures
        kept(kept(s).push(c)) == kept(s.push(c)),
    decreases s.len(),
{
    if text::byte_len(s) > MAX_RX_TEXT_CHARS && s.len() > 0 {
        lemma_kept_step(s.skip(1), c);
        assert(s.push(c).drop_last() =~= s);
        assert(s.push(c).skip(1) =~= s.skip(1).push(c));
    }
}

proof fn lemma_kept_fits(s: Seq<char>)
    ensures
        text::byte_len(kept(s)) <= MAX_RX_TEXT_CHARS,
    decreases s.len(),
{
    if text::byte_len(s) > MAX_RX_TEXT_CHARS && s.len() > 0 {
        lemma_kept_fits(s.skip(1));
    }
}

/// The received text.
#[derive(Debug)]
pub struct RxText {
    pub chars: VecDeque<char>,
    /// Bytes that the text takes.
    pub bytes: usize,
}

impl RxText {
    pub open spec fn wf(self) -> bool {
        self.bytes == text::byte_len(self.chars@) && self.bytes <= MAX_RX_TEXT_CHARS
    }

    pub fn new() -> (t: Self)
        ensures
            t.wf(),
            t.chars@ == Seq::<char>::empty(),
    {
        RxText { chars: VecDeque::new(), bytes: 0 }
    }

    fn push(&mut self, c: char)
        requires
            old(self).wf(),
        ensures
            final(self).wf(),
            final(self).chars@ == kept(old(self).chars@.push(c)),
    {
        let n: usize = char_bytes(c);
        self.chars.push_back(c);
        self.bytes = self.bytes + n;
        let ghost all = self.chars@;
        assert(all.drop_last() =~= old(self).chars@);
        while self.bytes > MAX_RX_TEXT_CHARS
            invariant
                self.bytes == text::byte_len(self.chars@),
                kept(all) == kept(self.chars@),
            decreases self.chars@.len(),
        {
            let ghost s = self.chars@;
            proof {
                assert(s.len() > 0);
                lemma_byte_len_first(s);
                lemma_byte_len_positive(s.skip(1));
            }
            if let Some(first) = self.chars.pop_front() {
                assert(self.chars@ =~= s.skip(1));
                self.bytes = self.bytes - char_bytes(first);
            }
        }
    }

    /// Adds received text, dropping whole characters from the front as far
    /// as the scrollback overflows.
    pub fn append(&mut self, more: &str)
        requires
            old(self).wf(),
        ensures
            final(self).wf(),
            final(self).chars@ == kept(old(self).chars@ + more@),
    {
        proof {
            assert(old(self).chars@ + more@.take(0) =~= old(self).chars@);
        }
        for c in it: more.chars()
            invariant
                it.seq() == more@,
                self.wf(),
                self.chars@ == kept(old(self).chars@ + more@.take(it.index() as int)),
        {
            proof {
                let before = old(self).chars@ + more@.take(it.index() as int);
                lemma_kept_step(before, c);
                assert(old(self).chars@ + more@.take(it.index() + 1) =~= before.push(c));
            }
            self.push(c);
        }
        assert(more@.take(more@.len() as int) =~= more@);
    }

    /// The text.
    pub fn text(&self) -> (s: String)
        ensures
            s@ == self.chars@,
    {
        let mut s: String = String::new();
        let n: usize = self.chars.len();
        for i in 0..n
            invariant
                n == self.chars@.len(),
                s@ == self.chars@.take(i as int),
        {
            s.push(self.chars[i]);
            assert(self.chars@.take(i as int).push(self.chars@[i as int]) =~= self.chars@.take(
                i + 1,
            ));
        }
        assert(self.chars@.take(n as int) =~= self.chars@);
        s
    }

    pub fn clear(&mut self)
        ensures
            final(self).wf(),
            final(self).chars@ == Seq::<char>::empty(),
    {
        self.chars.clear();
        self.bytes = 0;
    }
}

/// The scrollback always ends with the newest text, never takes more than
/// its limit, and loses nothing that would still fit.
pub proof fn law_scrollback(before: Seq<char>, more: Seq<char>)
    ensures
        text::byte_len(kept(before + more)) <= MAX_RX_TEXT_CHARS,
        kept(before + more).is_suffix_of(before + more),
        text::byte_len(before + more) <= MAX_RX_TEXT_CHARS ==> kept(before + more) == before + more,
        kept(kept(before) + more) == kept(before + more),
{
    lemma_kept_fits(before + more);
    lemma_kept_is_suffix(before + more);
    lemma_kept_all(before, more);
}

proof fn lemma_kept_is_suffix(s: Seq<char>)
    ensures
        kept(s).is_suffix_of(s),
    decreases s.len(),
{
    if text::byte_len(s) > MAX_RX_TEXT_CHARS && s.len() > 0 {
        lemma_kept_is_suffix(s.skip(1));
        let k = kept(s.skip(1));
        assert(s.skip(1).subrange(s.len() - 1 - k.len(), s.len() - 1) =~= s.subrange(
            s.len() - k.len(),
            s.len() as int,
        ));
    } else {
        assert(s.subrange(0, s.len() as int) =~= s);
    }
}

proof fn lemma_kept_all(before: Seq<char>, more: Seq<char>)
    ensures
        kept(kept(before) + more) == kept(before + more),
    decreases more.len(),
{
    if more.len() == 0 {
        assert(before + more =~= before);
        assert(kept(before) + more =~= kept(before));
        lemma_kept_fits(before);
    } else {
        let m = more.drop_last();
        let c = more.last();
        lemma_kept_all(before, m);
        assert(kept(before) + more =~= (kept(before) + m).push(c));
        assert(before + more =~= (before + m).push(c));
        lemma_kept_step(kept(before) + m, c);
        lemma_kept_step(before + m, c);
    }
}

/// The receiver is tuned anew where the centre, the speed or the shift
/// changes, and the transmitter keeps its queue and only changes its tones
/// where the speed stays.
pub proof fn law_settings_in_force(c: SettingsChange)
    ensures
        settings_plan(c).retune_rx <==> c.center || c.baud || c.shift,
        settings_plan(c).tx == TxChange::Retune <==> !c.baud && (c.center || c.shift),
        settings_plan(c).tx == TxChange::Keep <==> !c.baud && !c.center && !c.shift,
{
}

/// The scrollback is the longest end of the text that takes no more than
/// 20,000 bytes: one character more would be too many.
pub proof fn law_scrollback_is_longest(s: Seq<char>)
    ensures
        ({
            let k = kept(s);
            &&& text::byte_len(k) <= 20_000
            &&& k == s.skip(s.len() - k.len())
            &&& k.len() < s.len() ==> text::byte_len(s.skip(s.len() - k.len() - 1)) > 20_000
        }),
    decreases s.len(),
{
    lemma_kept_fits(s);
    if text::byte_len(s) > 20_000 && s.len() > 0 {
        let t = s.skip(1);
        law_scrollback_is_longest(t);
        lemma_kept_is_suffix(t);
        let k = kept(s);
        assert(k == kept(t));
        assert(t.skip(t.len() - k.len()) =~= s.skip(s.len() - k.len()));
        if k.len() < t.len() {
            assert(t.skip(t.len() - k.len() - 1) =~= s.skip(s.len() - k.len() - 1));
        } else {
            assert(s.skip(0) =~= s);
        }
    } else {
        assert(s.skip(0) =~= s);
    }
}

} // verus!
