//! What the receiving thread fills: the sample queues and the radio's
//! reported status.
use crate::queue::{self, push_audio_sample, push_sample, IqSample};
use std::collections::VecDeque;
use vstd::prelude::*;

verus! {

/// Capacity of the two PureSignal feedback queues.
pub const PS_FEEDBACK_BUFFER_CAPACITY: usize = 100_000;

/// Capacity of the queue of the radio's own microphone.
pub const RADIO_MIC_AUDIO_CAPACITY: usize = 24_000;

/// What a radio reports about itself.
#[derive(Clone, Copy, Debug, PartialEq, Eq, Structural)]
pub struct RadioStatus {
    pub tx_forward_power: u32,
    pub tx_reverse_power: u32,
    pub adc0_overload: bool,
    pub adc1_overload: bool,
    pub cw_ptt_active: bool,
    /// Bit 0 is the dot contact, bit 1 the dash contact.
    pub cw_paddle_contacts: u8,
    pub tx_fifo_underrun: bool,
    pub tx_fifo_overrun: bool,
}

/// The status before the radio has reported anything.
pub open spec fn nothing_reported() -> RadioStatus {
    RadioStatus {
        tx_forward_power: 0,
        tx_reverse_power: 0,
        adc0_overload: false,
        adc1_overload: false,
        cw_ptt_active: false,
        cw_paddle_contacts: 0,
        tx_fifo_underrun: false,
        tx_fifo_overrun: false,
    }
}

impl RadioStatus {
    pub fn new() -> (s: Self)
        ensures
            s == nothing_reported(),
    {
        RadioStatus {
            tx_forward_power: 0,
            tx_reverse_power: 0,
            adc0_overload: false,
            adc1_overload: false,
            cw_ptt_active: false,
            cw_paddle_contacts: 0,
            tx_fifo_underrun: false,
            tx_fifo_overrun: false,
        }
    }
}

/// The queues that received samples go to, and the status.
pub struct RxState {
    /// One queue for each receiver of the user.
    pub iq_buffers: Vec<VecDeque<IqSample>>,
    pub ps_rx_feedback_iq: VecDeque<IqSample>,
    pub ps_tx_feedback_iq: VecDeque<IqSample>,
    /// The first receiver's samples while diversity combines them.
    pub diversity_main_raw_iq: VecDeque<IqSample>,
    pub radio_mic_audio: VecDeque<i16>,
    pub status: RadioStatus,
}

/// The contents of an [`RxState`].
#[verifier::ext_equal]
pub struct RxModel {
    pub iq: Seq<Seq<IqSample>>,
    pub ps_rx: Seq<IqSample>,
    pub ps_tx: Seq<IqSample>,
    pub diversity_main: Seq<IqSample>,
    pub mic: Seq<i16>,
    pub status: RadioStatus,
}

impl View for RxState {
    type V = RxModel;

    open spec fn view(&self) -> RxModel {
        RxModel {
            iq: Seq::new(self.iq_buffers@.len(), |i: int| self.iq_buffers@[i]@),
            ps_rx: self.ps_rx_feedback_iq@,
            ps_tx: self.ps_tx_feedback_iq@,
            diversity_main: self.diversity_main_raw_iq@,
            mic: self.radio_mic_audio@,
            status: self.status,
        }
    }
}

/// The queue that a sample belongs to.
#[derive(Clone, Copy, Debug, PartialEq, Eq, Structural)]
pub enum Route {
    PsRx,
    PsTx,
    DiversityMain,
    Receiver(usize),
}

/// The contents after one sample was added to the queue of its route.
pub open spec fn routed(m: RxModel, r: Route, s: IqSample, capacity: nat) -> RxModel {
    match r {
        Route::PsRx => RxModel {
            ps_rx: queue::pushed(m.ps_rx, s, PS_FEEDBACK_BUFFER_CAPACITY as nat),
            ..m
        },
        Route::PsTx => RxModel {
            ps_tx: queue::pushed(m.ps_tx, s, PS_FEEDBACK_BUFFER_CAPACITY as nat),
            ..m
        },
        Route::DiversityMain => RxModel {
            diversity_main: queue::pushed(m.diversity_main, s, capacity),
            ..m
        },
        Route::Receiver(i) => RxModel {
            iq: m.iq.update(i as int, queue::pushed(m.iq[i as int], s, capacity)),
            ..m
        },
    }
}

impl RxState {
    /// Empty queues for `receivers` receivers.
    pub fn new(receivers: usize) -> (s: Self)
        ensures
            s@.iq == Seq::new(receivers as nat, |i: int| Seq::<IqSample>::empty()),
            s@.ps_rx == Seq::<IqSample>::empty(),
            s@.ps_tx == Seq::<IqSample>::empty(),
            s@.diversity_main == Seq::<IqSample>::empty(),
            s@.mic == Seq::<i16>::empty(),
            s@.status == nothing_reported(),
    {
        let mut iq_buffers: Vec<VecDeque<IqSample>> = Vec::new();
        for i in 0..receivers
            invariant
                iq_buffers@.len() == i,
                forall|j: int|
                    0 <= j < i ==> (#[trigger] iq_buffers@[j])@ == Seq::<IqSample>::empty(),
        {
            iq_buffers.push(VecDeque::new());
        }
        let s: RxState = RxState {
            iq_buffers,
            ps_rx_feedback_iq: VecDeque::new(),
            ps_tx_feedback_iq: VecDeque::new(),
            diversity_main_raw_iq: VecDeque::new(),
            radio_mic_audio: VecDeque::new(),
            status: RadioStatus::new(),
        };
        assert(s@.iq =~= Seq::new(receivers as nat, |i: int| Seq::<IqSample>::empty()));
        s
    }

    /// Adds a sample to the queue of its route.
    pub fn route(&mut self, r: Route, s: IqSample, capacity: usize)
        requires
            r matches Route::Receiver(i) ==> i < old(self)@.iq.len(),
        ensures
            final(self)@ == routed(old(self)@, r, s, capacity as nat),
            final(self).status == old(self).status,
    {
        match r {
            Route::PsRx => push_sample(
                &mut self.ps_rx_feedback_iq,
                s,
                PS_FEEDBACK_BUFFER_CAPACITY,
            ),
            Route::PsTx => push_sample(
                &mut self.ps_tx_feedback_iq,
                s,
                PS_FEEDBACK_BUFFER_CAPACITY,
            ),
            Route::DiversityMain => push_sample(&mut self.diversity_main_raw_iq, s, capacity),
            Route::Receiver(i) => push_sample(&mut self.iq_buffers[i], s, capacity),
        }
        assert(self@ =~= routed(old(self)@, r, s, capacity as nat));
    }

    /// Adds a sample of the radio's own microphone.
    pub fn push_mic(&mut self, s: i16)
        ensures
            final(self)@ == (RxModel {
                mic: queue::pushed(old(self)@.mic, s, RADIO_MIC_AUDIO_CAPACITY as nat),
                ..old(self)@
            }),
            final(self).status == old(self).status,
    {
        push_audio_sample(&mut self.radio_mic_audio, s, RADIO_MIC_AUDIO_CAPACITY);
        assert(self@ =~= RxModel {
            mic: queue::pushed(old(self)@.mic, s, RADIO_MIC_AUDIO_CAPACITY as nat),
            ..old(self)@
        });
    }
}

/// A sample goes to the queue of its route and to no other: the feedback
/// queues, of 100,000 samples each, the queue for combining, or a
/// receiver's own.
pub proof fn law_samples_go_by_their_route(
    m: RxModel,
    s: IqSample,
    capacity: nat,
    i: usize,
    j: int,
)
    requires
        i < m.iq.len(),
        0 <= j < m.iq.len(),
        j != i,
    ensures
        routed(m, Route::PsRx, s, capacity) == (RxModel {
            ps_rx: queue::push_all(m.ps_rx, seq![s], 100_000),
            ..m
        }),
        routed(m, Route::PsTx, s, capacity) == (RxModel {
            ps_tx: queue::push_all(m.ps_tx, seq![s], 100_000),
            ..m
        }),
        routed(m, Route::DiversityMain, s, capacity) == (RxModel {
            diversity_main: queue::push_all(m.diversity_main, seq![s], capacity),
            ..m
        }),
        ({
            let after = routed(m, Route::Receiver(i), s, capacity);
            &&& after.iq.len() == m.iq.len()
            &&& after.iq[i as int] == queue::push_all(m.iq[i as int], seq![s], capacity)
            &&& after.iq[j] == m.iq[j]
            &&& after.ps_rx == m.ps_rx && after.ps_tx == m.ps_tx && after.diversity_main
                == m.diversity_main && after.mic == m.mic && after.status == m.status
        }),
        RADIO_MIC_AUDIO_CAPACITY == 24_000,
{
    queue::law_one_sample(m.ps_rx, s, 100_000);
    queue::law_one_sample(m.ps_tx, s, 100_000);
    queue::law_one_sample(m.diversity_main, s, capacity);
    queue::law_one_sample(m.iq[i as int], s, capacity);
}

/// A status that has not been reported shows no power, no overload, no key
/// and no fault.
pub proof fn law_nothing_reported()
    ensures
        ({
            let s = nothing_reported();
            &&& s.tx_forward_power == 0 && s.tx_reverse_power == 0 && s.cw_paddle_contacts == 0
            &&& !s.adc0_overload && !s.adc1_overload && !s.cw_ptt_active && !s.tx_fifo_underrun
                && !s.tx_fifo_overrun
        }),
{
}

} // verus!
