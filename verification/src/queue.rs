//! Bounded sample queues: full ones drop their oldest sample.
use std::collections::VecDeque;
use vstd::prelude::*;

verus! {

/// One complex sample of 24-bit range.
#[derive(Clone, Copy, Debug, PartialEq, Eq, Structural)]
pub struct IqSample {
    pub i: i32,
    pub q: i32,
}

/// `q` with `s` added, after dropping the oldest entry of a full queue.
pub open spec fn pushed<T>(q: Seq<T>, s: T, capacity: nat) -> Seq<T> {
    if q.len() >= capacity && q.len() > 0 {
        q.skip(1).push(s)
    } else {
        q.push(s)
    }
}

/// `q` with all of `xs` added, one after the other.
pub open spec fn push_all<T>(q: Seq<T>, xs: Seq<T>, capacity: nat) -> Seq<T>
    decreases xs.len(),
{
    if xs.len() == 0 {
        q
    } else {
        pushed(push_all(q, xs.drop_last(), capacity), xs.last(), capacity)
    }
}

/// Adds a sample, dropping the oldest one where the queue is full.
pub fn push_sample(q: &mut VecDeque<IqSample>, s: IqSample, capacity: usize)
    ensures
        final(q)@ == pushed(old(q)@, s, capacity as nat),
{
    if q.len() >= capacity {
        q.pop_front();
        assert(old(q)@.len() > 0 ==> q@ =~= old(q)@.skip(1));
    }
    q.push_back(s);
}

/// Adds an audio sample, dropping the oldest one where the queue is full.
pub fn push_audio_sample(q: &mut VecDeque<i16>, s: i16, capacity: usize)
    ensures
        final(q)@ == pushed(old(q)@, s, capacity as nat),
{
    if q.len() >= capacity {
        q.pop_front();
        assert(old(q)@.len() > 0 ==> q@ =~= old(q)@.skip(1));
    }
    q.push_back(s);
}

/// A quarter of a second of samples, and never less than 4000.
pub open spec fn buffer_capacity(sample_rate_hz: u32) -> int {
    if sample_rate_hz / 4 < 4_000 {
        4_000
    } else {
        sample_rate_hz as int / 4
    }
}

pub fn iq_buffer_capacity_for_rate(sample_rate_hz: u32) -> (c: usize)
    ensures
        c == buffer_capacity(sample_rate_hz),
{
    let quarter: u32 = sample_rate_hz / 4;
    if quarter < 4_000 {
        4_000
    } else {
        quarter as usize
    }
}

/// Takes as many pairs as both queues can give, oldest first, and leaves
/// any surplus of either queue in place.
pub fn drain_iq_pairs(main: &mut VecDeque<IqSample>, aux: &mut VecDeque<IqSample>) -> (pairs: Vec<
    (IqSample, IqSample),
>)
    ensures
        pairs@.len() == (if old(main)@.len() < old(aux)@.len() {
            old(main)@.len()
        } else {
            old(aux)@.len()
        }),
        forall|k: int|
            0 <= k < pairs@.len() ==> #[trigger] pairs@[k] == (old(main)@[k], old(aux)@[k]),
        final(main)@ == old(main)@.skip(pairs@.len() as int),
        final(aux)@ == old(aux)@.skip(pairs@.len() as int),
{
    let mut pairs: Vec<(IqSample, IqSample)> = Vec::new();
    let n: usize = if main.len() < aux.len() {
        main.len()
    } else {
        aux.len()
    };
    for k in 0..n
        invariant
            n <= old(main)@.len(),
            n <= old(aux)@.len(),
            pairs@.len() == k,
            forall|j: int|
                0 <= j < k ==> #[trigger] pairs@[j] == (old(main)@[j], old(aux)@[j]),
            main@ == old(main)@.skip(k as int),
            aux@ == old(aux)@.skip(k as int),
    {
        let a: Option<IqSample> = main.pop_front();
        let b: Option<IqSample> = aux.pop_front();
        if let (Some(a), Some(b)) = (a, b) {
            pairs.push((a, b));
        }
        assert(main@ =~= old(main)@.skip(k + 1));
        assert(aux@ =~= old(aux)@.skip(k + 1));
    }
    pairs
}

/// The newest `n` entries of `s`.
pub open spec fn newest<T>(s: Seq<T>, n: nat) -> Seq<T> {
    if s.len() <= n {
        s
    } else {
        s.skip(s.len() - n)
    }
}

/// A queue that fits its capacity still fits it after any number of
/// samples were added, and holds exactly the newest of all samples.
pub proof fn law_queue_keeps_newest<T>(q: Seq<T>, xs: Seq<T>, capacity: nat)
    requires
        capacity >= 1,
        q.len() <= capacity,
    ensures
        push_all(q, xs, capacity).len() <= capacity,
        push_all(q, xs, capacity) == newest(q + xs, capacity),
    decreases xs.len(),
{
    if xs.len() == 0 {
        assert(q + xs =~= q);
    } else {
        let init = xs.drop_last();
        law_queue_keeps_newest(q, init, capacity);
        assert((q + xs).drop_last() =~= q + init);
        assert(push_all(q, xs, capacity) =~= newest(q + xs, capacity));
    }
}

/// Queues of equal length that get equally many samples stay equally long.
pub proof fn law_queues_in_step<S, T>(
    a: Seq<S>,
    xs: Seq<S>,
    b: Seq<T>,
    ys: Seq<T>,
    capacity: nat,
)
    requires
        a.len() == b.len(),
        xs.len() == ys.len(),
    ensures
        push_all(a, xs, capacity).len() == push_all(b, ys, capacity).len(),
    decreases xs.len(),
{
    if xs.len() > 0 {
        law_queues_in_step(a, xs.drop_last(), b, ys.drop_last(), capacity);
    }
}

/// Adding one more sample to a run of samples.
pub proof fn lemma_push_all_step<T>(q: Seq<T>, xs: Seq<T>, n: int, capacity: nat)
    requires
        0 <= n < xs.len(),
    ensures
        push_all(q, xs.take(n + 1), capacity) == pushed(
            push_all(q, xs.take(n), capacity),
            xs[n],
            capacity,
        ),
{
    assert(xs.take(n + 1).drop_last() =~= xs.take(n));
}

/// After samples were added, the queue ends with them, and the old entries
/// stand in front as far as there is room.
pub proof fn law_queue_ends_with_new<T>(q: Seq<T>, xs: Seq<T>, capacity: nat)
    requires
        capacity >= 1,
        q.len() <= capacity,
    ensures
        push_all(q, xs, capacity).len() == (if q.len() + xs.len() < capacity {
            q.len() + xs.len()
        } else {
            capacity
        }),
        forall|k: int|
            #![trigger push_all(q, xs, capacity)[k]]
            0 <= k < push_all(q, xs, capacity).len() ==> push_all(q, xs, capacity)[k] == (q + xs)[k
                + (q.len() + xs.len() - push_all(q, xs, capacity).len())],
{
    law_queue_keeps_newest(q, xs, capacity);
}

/// The capacity is a quarter of a second, and at least 4000 samples.
pub proof fn law_capacity_is_a_quarter_second(rate: u32)
    ensures
        buffer_capacity(rate) >= 4_000,
        rate >= 16_000 ==> 4 * buffer_capacity(rate) <= rate < 4 * buffer_capacity(rate) + 4,
        rate < 16_000 ==> buffer_capacity(rate) == 4_000,
{
}

/// One sample more stands at the end; a full queue loses its first for it.
pub proof fn law_one_sample<T>(q: Seq<T>, s: T, capacity: nat)
    ensures
        push_all(q, seq![s], capacity) == pushed(q, s, capacity),
        pushed(q, s, capacity).last() == s,
        q.len() < capacity ==> pushed(q, s, capacity) == q.push(s),
        q.len() >= capacity && q.len() > 0 ==> pushed(q, s, capacity) == q.skip(1).push(s),
{
    assert(seq![s].drop_last() =~= Seq::<T>::empty());
    assert(push_all(q, seq![s].drop_last(), capacity) == q);
}

} // verus!
