//! A cascaded integrator-comb decimator on wrapping integers. The
//! integrators may overflow freely: the combs cancel every wraparound.
use vstd::prelude::*;

verus! {

pub const CIC_STAGES: usize = 5;

/// The decimator.
#[derive(Clone, Copy, Debug)]
pub struct CicDecimator {
    pub integrators: [i64; CIC_STAGES],
    pub combs: [i64; CIC_STAGES],
    pub count: u32,
    pub decimation: u32,
}

/// The contents of a [`CicDecimator`].
#[verifier::ext_equal]
pub struct CicModel {
    pub integrators: Seq<i64>,
    pub combs: Seq<i64>,
    pub count: u32,
    pub decimation: u32,
}

impl View for CicDecimator {
    type V = CicModel;

    open spec fn view(&self) -> CicModel {
        CicModel {
            integrators: self.integrators@,
            combs: self.combs@,
            count: self.count,
            decimation: self.decimation,
        }
    }
}

/// A decimator that has seen no sample.
pub open spec fn at_rest(decimation: u32) -> CicModel {
    CicModel {
        integrators: Seq::new(5, |k: int| 0i64),
        combs: Seq::new(5, |k: int| 0i64),
        count: 0,
        decimation,
    }
}

/// A number reduced to the range of a 64-bit integer.
pub open spec fn wrap(n: int) -> i64 {
    ((n + 0x8000_0000_0000_0000) % 0x1_0000_0000_0000_0000 - 0x8000_0000_0000_0000) as i64
}

/// The integrators after one more sample: each adds what the one before it
/// holds now.
pub open spec fn integrated(s: Seq<i64>, x: int, k: int) -> i64
    decreases k,
{
    if k <= 0 {
        wrap(s[0] + x)
    } else {
        wrap(s[k] + integrated(s, x, k - 1))
    }
}

/// What reaches comb `k`: the difference of what reached the one before it
/// now and at the last output.
pub open spec fn combed(combs: Seq<i64>, x: i64, k: int) -> i64
    decreases k,
{
    if k <= 0 {
        x
    } else {
        wrap(combed(combs, x, k - 1) - combs[k - 1])
    }
}

pub open spec fn integrators_after(m: CicModel, x: i64) -> Seq<i64> {
    Seq::new(5, |k: int| integrated(m.integrators, x as int, k))
}

/// Whether this sample completes an output.
pub open spec fn output_due(m: CicModel) -> bool {
    m.count + 1 >= m.decimation
}

/// The decimator after one more sample.
pub open spec fn after_sample(m: CicModel, x: i64) -> CicModel {
    let top = integrators_after(m, x)[4];
    CicModel {
        integrators: integrators_after(m, x),
        combs: if output_due(m) {
            Seq::new(5, |k: int| combed(m.combs, top, k))
        } else {
            m.combs
        },
        count: if output_due(m) {
            0
        } else {
            (m.count + 1) as u32
        },
        ..m
    }
}

/// The output of one more sample.
pub open spec fn output(m: CicModel, x: i64) -> Option<i64> {
    if output_due(m) {
        Some(combed(m.combs, integrators_after(m, x)[4], 5))
    } else {
        None
    }
}

fn wrapping_sum(a: i64, b: i64) -> (c: i64)
    ensures
        c == wrap(a + b),
{
    a.wrapping_add(b)
}

fn wrapping_difference(a: i64, b: i64) -> (c: i64)
    ensures
        c == wrap(a - b),
{
    a.wrapping_sub(b)
}

impl CicDecimator {
    pub open spec fn wf(self) -> bool {
        self.count < self.decimation || self.count == 0
    }

    pub fn new(decimation: u32) -> (c: Self)
        ensures
            c.wf(),
            c@ == at_rest(decimation),
    {
        let c: CicDecimator = CicDecimator {
            integrators: [0i64; CIC_STAGES],
            combs: [0i64; CIC_STAGES],
            count: 0,
            decimation,
        };
        assert(c@ =~= at_rest(decimation));
        c
    }

    /// Takes in one sample; every `decimation` samples there is an output.
    pub fn push(&mut self, x: i64) -> (out: Option<i64>)
        requires
            old(self).wf(),
        ensures
            final(self).wf(),
            final(self)@ == after_sample(old(self)@, x),
            out == output(old(self)@, x),
    {
        let mut v: i64 = x;
        for k in 0..CIC_STAGES
            invariant
                self.combs == old(self).combs,
                self.count == old(self).count,
                self.decimation == old(self).decimation,
                k > 0 ==> v == integrated(old(self).integrators@, x as int, k - 1),
                k == 0 ==> v == x,
                forall|j: int|
                    0 <= j < k ==> self.integrators@[j] == integrated(
                        old(self).integrators@,
                        x as int,
                        j,
                    ),
                forall|j: int| k <= j < 5 ==> self.integrators@[j] == old(self).integrators@[j],
        {
            v = wrapping_sum(self.integrators[k], v);
            self.integrators[k] = v;
        }
        assert(self.integrators@ =~= integrators_after(old(self)@, x));
        self.count = self.count + 1;
        if self.count < self.decimation {
            assert(self@ =~= after_sample(old(self)@, x));
            return None;
        }
        self.count = 0;
        let ghost top = v;
        for k in 0..CIC_STAGES
            invariant
                self.integrators@ == integrators_after(old(self)@, x),
                self.count == 0,
                self.decimation == old(self).decimation,
                v == combed(old(self).combs@, top, k as int),
                forall|j: int|
                    0 <= j < k ==> self.combs@[j] == combed(old(self).combs@, top, j),
                forall|j: int| k <= j < 5 ==> self.combs@[j] == old(self).combs@[j],
        {
            let difference: i64 = wrapping_difference(v, self.combs[k]);
            self.combs[k] = v;
            v = difference;
        }
        assert(self@ =~= after_sample(old(self)@, x));
        Some(v)
    }
}

/// A decimator after a run of samples.
pub open spec fn after_block(m: CicModel, x: Seq<i64>) -> CicModel
    decreases x.len(),
{
    if x.len() == 0 {
        m
    } else {
        after_sample(after_block(m, x.drop_last()), x.last())
    }
}

/// The outputs of a run of samples.
pub open spec fn block_outputs(m: CicModel, x: Seq<i64>) -> Seq<i64>
    decreases x.len(),
{
    if x.len() == 0 {
        Seq::empty()
    } else {
        match output(after_block(m, x.drop_last()), x.last()) {
            Some(y) => block_outputs(m, x.drop_last()).push(y),
            None => block_outputs(m, x.drop_last()),
        }
    }
}

/// A new decimator after a run of samples.
pub open spec fn after_all(decimation: u32, x: Seq<i64>) -> CicModel {
    after_block(at_rest(decimation), x)
}

/// The sample of moment `n`, counted from 1; there is silence before.
pub open spec fn sample_at(x: Seq<i64>, n: int) -> int {
    if 1 <= n <= x.len() {
        x[n - 1] as int
    } else {
        0
    }
}

/// The sum of the last `r` samples, taken `k` times over.
pub open spec fn moving_sum(x: Seq<i64>, r: nat, k: nat, n: int) -> int
    decreases k, 0nat,
{
    if k == 0 {
        sample_at(x, n)
    } else {
        window_sum(x, r, (k - 1) as nat, n, r)
    }
}

/// The sum of the last `m` values of the `k`-fold moving sum.
pub open spec fn window_sum(x: Seq<i64>, r: nat, k: nat, n: int, m: nat) -> int
    decreases k, m,
{
    if m == 0 {
        0
    } else {
        window_sum(x, r, k, n, (m - 1) as nat) + moving_sum(x, r, k, n - (m - 1))
    }
}

/// The `k`-th integrator on unbounded integers.
pub open spec fn running_sum(x: Seq<i64>, k: nat, n: int) -> int
    decreases k, n,
{
    if k == 0 {
        sample_at(x, n)
    } else if n <= 0 {
        0
    } else {
        running_sum(x, k, n - 1) + running_sum(x, (k - 1) as nat, n)
    }
}

/// The `j`-th comb on unbounded integers, behind `k` integrators.
pub open spec fn difference(x: Seq<i64>, r: nat, j: nat, k: nat, n: int) -> int
    decreases j,
{
    if j == 0 {
        running_sum(x, k, n)
    } else {
        difference(x, r, (j - 1) as nat, k, n) - difference(x, r, (j - 1) as nat, k, n - r)
    }
}

proof fn lemma_wrap_sum(a: int, b: int)
    ensures
        wrap(wrap(a) + wrap(b)) == wrap(a + b),
        wrap(wrap(a) - wrap(b)) == wrap(a - b),
        wrap(wrap(a) + b) == wrap(a + b),
{
}

proof fn lemma_silence(x: Seq<i64>, r: nat, j: nat, k: nat, n: int)
    requires
        n <= 0,
    ensures
        difference(x, r, j, k, n) == 0,
    decreases j,
{
    if j > 0 {
        lemma_silence(x, r, (j - 1) as nat, k, n);
        lemma_silence(x, r, (j - 1) as nat, k, n - r);
    }
}

/// What one more integrator adds, one step of time takes away.
proof fn lemma_step_undoes_integrator(x: Seq<i64>, r: nat, j: nat, k: nat, n: int)
    ensures
        difference(x, r, j, k + 1, n) - difference(x, r, j, k + 1, n - 1) == difference(
            x,
            r,
            j,
            k,
            n,
        ),
    decreases j,
{
    if j == 0 {
        if n <= 0 {
            assert(running_sum(x, k, n) == 0);
        }
    } else {
        lemma_step_undoes_integrator(x, r, (j - 1) as nat, k, n);
        lemma_step_undoes_integrator(x, r, (j - 1) as nat, k, n - r);
        assert(n - r - 1 == n - 1 - r);
    }
}

proof fn lemma_window(x: Seq<i64>, r: nat, k: nat, n: int, m: nat)
    ensures
        difference(x, r, k, k + 1, n) - difference(x, r, k, k + 1, n - m) == window_sum(
            x,
            r,
            k,
            n,
            m,
        ),
    decreases k, m,
{
    if m > 0 {
        lemma_window(x, r, k, n, (m - 1) as nat);
        lemma_step_undoes_integrator(x, r, k, k, n - (m - 1));
        lemma_combs_are_moving_sums(x, r, k, n - (m - 1));
    }
}

proof fn lemma_combs_are_moving_sums(x: Seq<i64>, r: nat, k: nat, n: int)
    ensures
        difference(x, r, k, k, n) == moving_sum(x, r, k, n),
    decreases k, 0nat,
{
    if k > 0 {
        lemma_window(x, r, (k - 1) as nat, n, r);
    }
}

/// What is summed up to moment `n` does not depend on later samples.
proof fn lemma_earlier_sum(x: Seq<i64>, v: i64, k: nat, n: int)
    requires
        n <= x.len(),
    ensures
        running_sum(x.push(v), k, n) == running_sum(x, k, n),
    decreases k, n,
{
    if k > 0 && n > 0 {
        lemma_earlier_sum(x, v, k, n - 1);
        lemma_earlier_sum(x, v, (k - 1) as nat, n);
    }
}

proof fn lemma_earlier_difference(x: Seq<i64>, v: i64, r: nat, j: nat, k: nat, n: int)
    requires
        n <= x.len(),
    ensures
        difference(x.push(v), r, j, k, n) == difference(x, r, j, k, n),
    decreases j,
{
    if j == 0 {
        lemma_earlier_sum(x, v, k, n);
    } else {
        lemma_earlier_difference(x, v, r, (j - 1) as nat, k, n);
        lemma_earlier_difference(x, v, r, (j - 1) as nat, k, n - r);
    }
}

/// That a decimator holds, reduced to 64 bits, what the one on unbounded
/// integers holds.
spec fn follows(m: CicModel, x: Seq<i64>) -> bool {
    &&& m.decimation >= 1
    &&& m.integrators.len() == 5
    &&& m.combs.len() == 5
    &&& m.count < m.decimation
    &&& m.count == x.len() % m.decimation as nat
    &&& forall|k: int|
        0 <= k < 5 ==> #[trigger] m.integrators[k] == wrap(
            running_sum(x, (k + 1) as nat, x.len() as int),
        )
    &&& forall|j: int|
        0 <= j < 5 ==> #[trigger] m.combs[j] == wrap(
            difference(x, m.decimation as nat, j as nat, 5, x.len() - m.count),
        )
}

proof fn lemma_integrated(m: CicModel, x: Seq<i64>, v: i64, k: int)
    requires
        follows(m, x),
        0 <= k < 5,
    ensures
        integrated(m.integrators, v as int, k) == wrap(
            running_sum(x.push(v), (k + 1) as nat, x.len() as int + 1),
        ),
    decreases k,
{
    let y = x.push(v);
    let n = x.len() as int;
    lemma_earlier_sum(x, v, (k + 1) as nat, n);
    lemma_wrap_sum(running_sum(y, (k + 1) as nat, n), running_sum(y, k as nat, n + 1));
    assert(m.integrators[k] == wrap(running_sum(x, (k + 1) as nat, n)));
    if k > 0 {
        lemma_integrated(m, x, v, k - 1);
    } else {
        assert(running_sum(y, 0, n + 1) == v);
    }
}

proof fn lemma_combed(m: CicModel, x: Seq<i64>, v: i64, j: int)
    requires
        follows(m, x),
        output_due(m),
        0 <= j <= 5,
    ensures
        combed(m.combs, integrators_after(m, v)[4], j) == wrap(
            difference(x.push(v), m.decimation as nat, j as nat, 5, x.len() as int + 1),
        ),
    decreases j,
{
    let y = x.push(v);
    let n = x.len() as int + 1;
    let r = m.decimation as nat;
    if j == 0 {
        lemma_integrated(m, x, v, 4);
    } else {
        let i = (j - 1) as nat;
        lemma_combed(m, x, v, j - 1);
        assert(x.len() - m.count == n - r);
        lemma_earlier_difference(x, v, r, i, 5, n - r);
        assert(m.combs[j - 1] == wrap(difference(x, r, i, 5, x.len() - m.count)));
        lemma_wrap_sum(difference(y, r, i, 5, n), difference(y, r, i, 5, n - r));
    }
}

proof fn lemma_count_step(n: int, r: int)
    requires
        n >= 0,
        r >= 1,
    ensures
        (n % r) + 1 < r ==> (n + 1) % r == (n % r) + 1,
        (n % r) + 1 >= r ==> (n + 1) % r == 0,
{
    vstd::arithmetic::div_mod::lemma_fundamental_div_mod(n, r);
    vstd::arithmetic::div_mod::lemma_mod_bound(n, r);
    let q = n / r;
    if (n % r) + 1 < r {
        assert(n + 1 == q * r + (n % r + 1)) by (nonlinear_arith)
            requires
                n == r * q + n % r,
        ;
        vstd::arithmetic::div_mod::lemma_fundamental_div_mod_converse(n + 1, r, q, n % r + 1);
    } else {
        assert(n + 1 == (q + 1) * r + 0) by (nonlinear_arith)
            requires
                n == r * q + n % r,
                n % r + 1 == r,
        ;
        vstd::arithmetic::div_mod::lemma_fundamental_div_mod_converse(n + 1, r, q + 1, 0);
    }
}

proof fn lemma_follows_step(m: CicModel, x: Seq<i64>, v: i64)
    requires
        follows(m, x),
    ensures
        follows(after_sample(m, v), x.push(v)),
        output_due(m) <==> (x.len() as int + 1) % m.decimation as int == 0,
{
    let y = x.push(v);
    let next = after_sample(m, v);
    let r = m.decimation as nat;
    lemma_count_step(x.len() as int, r as int);
    assert(next.count == y.len() % r);
    assert forall|k: int| 0 <= k < 5 implies #[trigger] next.integrators[k] == wrap(
        running_sum(y, (k + 1) as nat, y.len() as int),
    ) by {
        lemma_integrated(m, x, v, k);
    }
    assert forall|j: int| 0 <= j < 5 implies #[trigger] next.combs[j] == wrap(
        difference(y, r, j as nat, 5, y.len() - next.count),
    ) by {
        if output_due(m) {
            lemma_combed(m, x, v, j);
        } else {
            lemma_earlier_difference(x, v, r, j as nat, 5, x.len() - m.count);
            assert(m.combs[j] == wrap(difference(x, r, j as nat, 5, x.len() - m.count)));
        }
    }
}

proof fn lemma_follows(decimation: u32, x: Seq<i64>)
    requires
        decimation >= 1,
    ensures
        follows(after_all(decimation, x), x),
        after_all(decimation, x).decimation == decimation,
    decreases x.len(),
{
    if x.len() == 0 {
        let m = at_rest(decimation);
        assert(0nat % (decimation as nat) == 0) by (nonlinear_arith)
            requires
                decimation >= 1,
        ;
        assert forall|j: int| 0 <= j < 5 implies #[trigger] m.combs[j] == wrap(
            difference(x, decimation as nat, j as nat, 5, x.len() - m.count),
        ) by {
            lemma_silence(x, decimation as nat, j as nat, 5, 0);
        }
    } else {
        lemma_follows(decimation, x.drop_last());
        lemma_follows_step(after_all(decimation, x.drop_last()), x.drop_last(), x.last());
        assert(x.drop_last().push(x.last()) =~= x);
    }
}

/// The combs cancel every wraparound of the integrators: after any run of
/// samples `x`, the next one `v` gives an output exactly on each multiple
/// of the decimation, and the output is the five-fold moving sum of the
/// samples, reduced to 64 bits.
pub proof fn law_wraparound_cancels(decimation: u32, x: Seq<i64>, v: i64)
    requires
        decimation >= 1,
    ensures
        output(after_all(decimation, x), v) == (if (x.len() as int + 1) % decimation as int == 0 {
            Some(wrap(moving_sum(x.push(v), decimation as nat, 5, x.len() as int + 1)))
        } else {
            None
        }),
{
    let m = after_all(decimation, x);
    lemma_follows(decimation, x);
    lemma_follows_step(m, x, v);
    if output_due(m) {
        lemma_combed(m, x, v, 5);
        lemma_combs_are_moving_sums(x.push(v), decimation as nat, 5, x.len() as int + 1);
    }
}

/// That no sample is larger than `peak`.
pub open spec fn bounded(x: Seq<i64>, peak: int) -> bool {
    forall|i: int| 0 <= i < x.len() ==> -peak <= #[trigger] x[i] <= peak
}

/// The gain of `k` moving sums over `r` samples.
pub open spec fn gain(r: nat, k: nat) -> nat
    decreases k,
{
    if k == 0 {
        1
    } else {
        r * gain(r, (k - 1) as nat)
    }
}

proof fn lemma_window_bound(x: Seq<i64>, r: nat, k: nat, n: int, m: nat, peak: int)
    requires
        bounded(x, peak),
        peak >= 0,
    ensures
        -(m * (gain(r, k) * peak)) <= window_sum(x, r, k, n, m) <= m * (gain(r, k) * peak),
    decreases k, m,
{
    let g = gain(r, k) * peak;
    if m > 0 {
        lemma_window_bound(x, r, k, n, (m - 1) as nat, peak);
        lemma_moving_sum_bound(x, r, k, n - (m - 1), peak);
        assert(m * g == (m - 1) * g + g) by (nonlinear_arith);
    } else {
        assert(0 * g == 0) by (nonlinear_arith);
    }
}

proof fn lemma_moving_sum_bound(x: Seq<i64>, r: nat, k: nat, n: int, peak: int)
    requires
        bounded(x, peak),
        peak >= 0,
    ensures
        -(gain(r, k) * peak) <= moving_sum(x, r, k, n) <= gain(r, k) * peak,
    decreases k, 0nat,
{
    if k > 0 {
        let g = gain(r, (k - 1) as nat);
        lemma_window_bound(x, r, (k - 1) as nat, n, r, peak);
        assert(r * (g * peak) == (r * g) * peak) by (nonlinear_arith);
    } else {
        assert(1 * peak == peak);
    }
}

/// However long the decimator runs, and whatever bias its input has, an
/// output is exactly the five-fold moving sum as long as the largest such
/// sum fits in 64 bits; no output is then larger than the filter's gain
/// times the largest sample.
pub proof fn law_output_is_exact(decimation: u32, x: Seq<i64>, v: i64, peak: int)
    requires
        decimation >= 1,
        peak >= 0,
        bounded(x.push(v), peak),
        gain(decimation as nat, 5) * peak <= i64::MAX,
    ensures
        -(gain(decimation as nat, 5) * peak) <= moving_sum(
            x.push(v),
            decimation as nat,
            5,
            x.len() as int + 1,
        ) <= gain(decimation as nat, 5) * peak,
        output(after_all(decimation, x), v) == (if (x.len() as int + 1) % decimation as int == 0 {
            Some(moving_sum(x.push(v), decimation as nat, 5, x.len() as int + 1) as i64)
        } else {
            None
        }),
{
    law_wraparound_cancels(decimation, x, v);
    lemma_moving_sum_bound(x.push(v), decimation as nat, 5, x.len() as int + 1, peak);
}

/// It does not matter how a run of samples is cut into blocks: the outputs
/// are the same, in the same order, and so is the decimator afterwards.
pub proof fn law_blocks_join(m: CicModel, a: Seq<i64>, b: Seq<i64>)
    ensures
        block_outputs(m, a + b) == block_outputs(m, a) + block_outputs(after_block(m, a), b),
        after_block(m, a + b) == after_block(after_block(m, a), b),
    decreases b.len(),
{
    let here = block_outputs(m, a);
    if b.len() == 0 {
        assert(a + b =~= a);
        assert(here + Seq::<i64>::empty() =~= here);
    } else {
        let init = b.drop_last();
        assert((a + b).drop_last() =~= a + init);
        law_blocks_join(m, a, init);
        let rest = block_outputs(after_block(m, a), init);
        if let Some(y) = output(after_block(after_block(m, a), init), b.last()) {
            assert((here + rest).push(y) =~= here + rest.push(y));
        }
    }
}

proof fn lemma_quotient_step(n: int, r: int)
    requires
        n >= 0,
        r >= 1,
    ensures
        (n + 1) / r == (if (n + 1) % r == 0 {
            n / r + 1
        } else {
            n / r
        }),
{
    vstd::arithmetic::div_mod::lemma_fundamental_div_mod(n, r);
    vstd::arithmetic::div_mod::lemma_fundamental_div_mod(n + 1, r);
    vstd::arithmetic::div_mod::lemma_mod_bound(n, r);
    lemma_count_step(n, r);
    let p = n / r;
    let q = (n + 1) / r;
    if (n + 1) % r == 0 {
        assert(r * q == r * (p + 1)) by (nonlinear_arith)
            requires
                n == r * p + (r - 1),
                n + 1 == r * q,
        ;
        assert(q == p + 1) by (nonlinear_arith)
            requires
                r * q == r * (p + 1),
                r >= 1,
        ;
    } else {
        assert(q == p) by (nonlinear_arith)
            requires
                r * q == r * p,
                r >= 1,
        ;
    }
}

/// A new decimator gives one output for every `decimation` samples, no more
/// and no fewer.
pub proof fn law_output_count(decimation: u32, x: Seq<i64>)
    requires
        decimation >= 1,
    ensures
        block_outputs(at_rest(decimation), x).len() == x.len() / decimation as nat,
    decreases x.len(),
{
    let r = decimation as int;
    if x.len() == 0 {
        vstd::arithmetic::div_mod::lemma_basic_div(0, r);
    } else {
        let init = x.drop_last();
        law_output_count(decimation, init);
        lemma_follows(decimation, init);
        lemma_follows_step(after_all(decimation, init), init, x.last());
        lemma_quotient_step(init.len() as int, r);
    }
}

/// However long the decimator runs, and whatever bias its input has, no
/// output is larger than the filter's gain times the largest sample.
pub proof fn law_output_is_bounded(decimation: u32, x: Seq<i64>, peak: int)
    requires
        decimation >= 1,
        peak >= 0,
        bounded(x, peak),
        gain(decimation as nat, 5) * peak <= i64::MAX,
    ensures
        bounded(block_outputs(at_rest(decimation), x), gain(decimation as nat, 5) * peak),
    decreases x.len(),
{
    if x.len() > 0 {
        let init = x.drop_last();
        assert(init.push(x.last()) =~= x);
        law_output_is_bounded(decimation, init, peak);
        law_output_is_exact(decimation, init, x.last(), peak);
    }
}

} // verus!
