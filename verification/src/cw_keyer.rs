//! Settings of the radio's built-in CW keyer.
use std::sync::atomic::{AtomicU32, Ordering};
use vstd::prelude::*;

verus! {

pub const CW_KEYER_MODE_STRAIGHT: u32 = 0;

pub const CW_KEYER_MODE_IAMBIC_A: u32 = 1;

pub const CW_KEYER_MODE_IAMBIC_B: u32 = 2;

/// Keyer settings shared between the user interface and the sender threads.
pub struct CwKeyerAtomics {
    /// One of the `CW_KEYER_MODE_*` values.
    pub mode: AtomicU32,
    pub speed_wpm: AtomicU32,
    pub weight: AtomicU32,
    pub sidetone_volume: AtomicU32,
    pub sidetone_freq_hz: AtomicU32,
    pub hang_time_ms: AtomicU32,
}

/// One reading of the keyer settings, taken once per packet.
#[derive(Clone, Copy, Debug, PartialEq, Eq, Structural)]
pub struct CwKeyerValues {
    pub mode: u32,
    pub speed_wpm: u32,
    pub weight: u32,
    pub sidetone_volume: u32,
    pub sidetone_freq_hz: u32,
    pub hang_time_ms: u32,
}

impl Default for CwKeyerValues {
    fn default() -> (v: Self)
        ensures
            v.mode == CW_KEYER_MODE_IAMBIC_A,
            v.speed_wpm == 16,
            v.weight == 50,
            v.sidetone_volume == 50,
            v.sidetone_freq_hz == 800,
            v.hang_time_ms == 500,
    {
        CwKeyerValues {
            mode: CW_KEYER_MODE_IAMBIC_A,
            speed_wpm: 16,
            weight: 50,
            sidetone_volume: 50,
            sidetone_freq_hz: 800,
            hang_time_ms: 500,
        }
    }
}

/// `cell` was made to hold `v`.
pub open spec fn made_with(cell: AtomicU32, v: u32) -> bool {
    call_ensures(AtomicU32::new, (v,), cell)
}

/// The shared settings start out as [`CwKeyerValues::default`].
impl Default for CwKeyerAtomics {
    fn default() -> (a: Self)
        ensures
            made_with(a.mode, CW_KEYER_MODE_IAMBIC_A),
            made_with(a.speed_wpm, 16),
            made_with(a.weight, 50),
            made_with(a.sidetone_volume, 50),
            made_with(a.sidetone_freq_hz, 800),
            made_with(a.hang_time_ms, 500),
    {
        let v: CwKeyerValues = CwKeyerValues::default();
        CwKeyerAtomics {
            mode: AtomicU32::new(v.mode),
            speed_wpm: AtomicU32::new(v.speed_wpm),
            weight: AtomicU32::new(v.weight),
            sidetone_volume: AtomicU32::new(v.sidetone_volume),
            sidetone_freq_hz: AtomicU32::new(v.sidetone_freq_hz),
            hang_time_ms: AtomicU32::new(v.hang_time_ms),
        }
    }
}

/// The keyer's transmit lead time in milliseconds: 30, but never more than
/// 900 divided by the speed.
pub open spec fn ptt_delay(speed_wpm: u32) -> int {
    let speed: int = if speed_wpm == 0 { 1int } else { speed_wpm as int };
    if 900int / speed < 30 {
        900int / speed
    } else {
        30
    }
}

/// `v` is what a relaxed load of `cell` gave.
pub open spec fn read_from(cell: &AtomicU32, v: u32) -> bool {
    call_ensures(AtomicU32::load, (cell, Ordering::Relaxed), v)
}

impl CwKeyerValues {
    /// Reads every setting once, each from its own cell. Another thread may
    /// write the cells at any time, so which numbers come back is not said.
    pub fn load(atomics: &CwKeyerAtomics) -> (v: Self)
        ensures
            read_from(&atomics.mode, v.mode),
            read_from(&atomics.speed_wpm, v.speed_wpm),
            read_from(&atomics.weight, v.weight),
            read_from(&atomics.sidetone_volume, v.sidetone_volume),
            read_from(&atomics.sidetone_freq_hz, v.sidetone_freq_hz),
            read_from(&atomics.hang_time_ms, v.hang_time_ms),
    {
        CwKeyerValues {
            mode: atomics.mode.load(Ordering::Relaxed),
            speed_wpm: atomics.speed_wpm.load(Ordering::Relaxed),
            weight: atomics.weight.load(Ordering::Relaxed),
            sidetone_volume: atomics.sidetone_volume.load(Ordering::Relaxed),
            sidetone_freq_hz: atomics.sidetone_freq_hz.load(Ordering::Relaxed),
            hang_time_ms: atomics.hang_time_ms.load(Ordering::Relaxed),
        }
    }

    /// The lead-time byte that both protocols carry. The clamp keeps the
    /// gateware's iambic keyer sending separate elements at high speeds.
    pub fn ptt_delay_byte(&self) -> (b: u8)
        ensures
            b == ptt_delay(self.speed_wpm),
    {
        let speed: u32 = if self.speed_wpm == 0 {
            1
        } else {
            self.speed_wpm
        };
        let rfmax: u32 = 900 / speed;
        if rfmax < 30 {
            rfmax as u8
        } else {
            30
        }
    }
}

/// The lead time is the longest of up to 30 ms that, times the speed in
/// words per minute, does not pass 900.
pub proof fn law_lead_time(speed_wpm: u32)
    ensures
        ({
            let speed = if speed_wpm == 0 {
                1
            } else {
                speed_wpm as int
            };
            let t = ptt_delay(speed_wpm);
            &&& 0 <= t <= 30
            &&& t * speed <= 900
            &&& t == 30 || (t + 1) * speed > 900
        }),
{
    let speed: int = if speed_wpm == 0 {
        1
    } else {
        speed_wpm as int
    };
    let q = 900int / speed;
    vstd::arithmetic::div_mod::lemma_fundamental_div_mod(900, speed);
    vstd::arithmetic::div_mod::lemma_mod_bound(900, speed);
    vstd::arithmetic::div_mod::lemma_div_pos_is_pos(900, speed);
    assert(speed * q == q * speed && (q + 1) * speed == q * speed + speed) by (nonlinear_arith);
    if q >= 30 {
        assert(30 * speed <= q * speed) by (nonlinear_arith)
            requires
                q >= 30,
                speed >= 1,
        ;
    }
}

} // verus!
