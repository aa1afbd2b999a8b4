use vstd::prelude::*;

use crate::stat::{Stat, STAT_COUNT};

verus! {

/// The largest value a single weight can take.
pub const MAX_WEIGHT: u64 = 0xFFFF_FFFF;

/// Sum of the first `k` weights of `w`.
pub open spec fn prefix_sum(w: Seq<u32>, k: int) -> int
    decreases k,
{
    if k <= 0 {
        0
    } else {
        prefix_sum(w, k - 1) + w[k - 1]
    }
}

/// Sum of all weights of `w`.
pub open spec fn total_of(w: Seq<u32>) -> int {
    prefix_sum(w, w.len() as int)
}

/// A table in which every stat has weight zero.
pub open spec fn zero_weights() -> Seq<u32> {
    Seq::new(STAT_COUNT as nat, |i: int| 0u32)
}

/// The greatest index `i < k` whose exclusive prefix sum, scaled by `den`,
/// is below `target`; `None` when there is none.
pub open spec fn last_below(w: Seq<u32>, k: int, target: int, den: int) -> Option<int>
    decreases k,
{
    if k <= 0 {
        None
    } else if prefix_sum(w, k - 1) * den < target {
        Some(k - 1)
    } else {
        last_below(w, k - 1, target, den)
    }
}

/// The index drawn by the fraction `num / den`: none when the fraction
/// exceeds one, else the greatest index whose exclusive prefix sum is below
/// `num / den` times the total weight.
pub open spec fn pick(w: Seq<u32>, num: int, den: int) -> Option<int> {
    if num > den {
        None
    } else {
        last_below(w, w.len() as int, num * total_of(w), den)
    }
}

/// The ordinal of a drawn stat, if any.
pub open spec fn index_of(r: Option<Stat>) -> Option<int> {
    match r {
        Some(s) => Some(s.spec_index()),
        None => None,
    }
}

/// The weights `w` after setting each `(stat, weight)` pair of `pairs`, in
/// order: a stat listed more than once ends with its last weight.
pub open spec fn apply_pairs(w: Seq<u32>, pairs: Seq<(Stat, u32)>) -> Seq<u32>
    decreases pairs.len(),
{
    if pairs.len() == 0 {
        w
    } else {
        apply_pairs(w, pairs.drop_last()).update(pairs.last().0.spec_index(), pairs.last().1)
    }
}

proof fn lemma_prefix_sum_bounds(w: Seq<u32>, k: int)
    requires
        0 <= k <= w.len(),
    ensures
        0 <= prefix_sum(w, k) <= k * MAX_WEIGHT,
    decreases k,
{
    if k > 0 {
        lemma_prefix_sum_bounds(w, k - 1);
    }
}

proof fn lemma_prefix_sum_update(w: Seq<u32>, i: int, v: u32, k: int)
    requires
        0 <= i < w.len(),
        0 <= k <= w.len(),
    ensures
        prefix_sum(w.update(i, v), k) == prefix_sum(w, k) + if i < k { v - w[i] } else { 0 },
    decreases k,
{
    if k > 0 {
        lemma_prefix_sum_update(w, i, v, k - 1);
    }
}

proof fn lemma_prefix_sum_monotone(w: Seq<u32>, j: int, k: int)
    requires
        0 <= j <= k <= w.len(),
    ensures
        prefix_sum(w, j) <= prefix_sum(w, k),
    decreases k - j,
{
    if j < k {
        lemma_prefix_sum_monotone(w, j, k - 1);
    }
}

proof fn lemma_last_below_props(w: Seq<u32>, k: int, target: int, den: int)
    requires
        0 <= k <= w.len(),
    ensures
        match last_below(w, k, target, den) {
            Some(i) => {
                &&& 0 <= i < k
                &&& prefix_sum(w, i) * den < target
                &&& forall|j: int| i < j < k ==> prefix_sum(w, j) * den >= target
            },
            None => forall|j: int| 0 <= j < k ==> prefix_sum(w, j) * den >= target,
        },
    decreases k,
{
    if k > 0 {
        lemma_last_below_props(w, k - 1, target, den);
    }
}

proof fn lemma_last_below_is(w: Seq<u32>, k: int, target: int, den: int, i: int)
    requires
        0 <= i < k <= w.len(),
        prefix_sum(w, i) * den < target,
        forall|j: int| i < j < k ==> prefix_sum(w, j) * den >= target,
    ensures
        last_below(w, k, target, den) == Some(i),
    decreases k,
{
    if k - 1 > i {
        lemma_last_below_is(w, k - 1, target, den, i);
    }
}

/// A drawn index with a fraction of at most one has a positive weight.
proof fn lemma_pick_positive(w: Seq<u32>, num: int, den: int)
    requires
        den > 0,
        num >= 0,
        w.len() > 0,
    ensures
        pick(w, num, den) matches Some(i) ==> 0 <= i < w.len() && w[i] > 0,
        total_of(w) == 0 ==> pick(w, num, den) is None,
{
    let n = w.len() as int;
    let t = total_of(w);
    let target = num * t;
    lemma_prefix_sum_bounds(w, n);
    lemma_last_below_props(w, n, target, den);
    if num <= den {
        if let Some(i) = last_below(w, n, target, den) {
            lemma_prefix_sum_bounds(w, i);
            if i == n - 1 {
                if prefix_sum(w, i) >= t {
                    assert(prefix_sum(w, i) * den >= t * den) by (nonlinear_arith)
                        requires prefix_sum(w, i) >= t, den > 0;
                    assert(t * den >= num * t) by (nonlinear_arith)
                        requires num <= den, t >= 0;
                }
            } else {
                if prefix_sum(w, i + 1) <= prefix_sum(w, i) {
                    assert(prefix_sum(w, i + 1) * den <= prefix_sum(w, i) * den) by (nonlinear_arith)
                        requires prefix_sum(w, i + 1) <= prefix_sum(w, i), den > 0;
                }
            }
        }
        if t == 0 {
            if let Some(i) = last_below(w, n, target, den) {
                assert(target == 0);
                assert(prefix_sum(w, i) * den >= 0) by (nonlinear_arith)
                    requires prefix_sum(w, i) >= 0, den > 0;
            }
        }
    }
}

proof fn lemma_prefix_sum_zero(k: int)
    requires
        0 <= k <= STAT_COUNT,
    ensures
        prefix_sum(zero_weights(), k) == 0,
    decreases k,
{
    if k > 0 {
        lemma_prefix_sum_zero(k - 1);
    }
}

proof fn lemma_prefix_sum_flat(w: Seq<u32>, a: int, k: int)
    requires
        0 <= a <= k <= w.len(),
        forall|j: int| a <= j < k ==> w[j] == 0,
    ensures
        prefix_sum(w, k) == prefix_sum(w, a),
    decreases k - a,
{
    if a < k {
        lemma_prefix_sum_flat(w, a, k - 1);
    }
}

/// With a positive total, a fraction above zero and at most one over the
/// total draws the lowest-index stat with positive weight.
pub proof fn lemma_low_fraction_draws_first(w: Seq<u32>, i: int, num: int, den: int)
    requires
        w.len() == STAT_COUNT,
        0 <= i < w.len(),
        w[i] > 0,
        forall|j: int| 0 <= j < i ==> w[j] == 0,
        den > 0,
        0 < num,
        num * total_of(w) <= den,
    ensures
        pick(w, num, den) == Some(i),
{
    let n = w.len() as int;
    let t = total_of(w);
    lemma_prefix_sum_flat(w, 0, i);
    lemma_prefix_sum_monotone(w, i + 1, n);
    assert(num <= den) by (nonlinear_arith)
        requires num * t <= den, t >= 1, num > 0;
    assert(num * t > 0) by (nonlinear_arith)
        requires t >= 1, num > 0;
    assert forall|j: int| i < j < n implies prefix_sum(w, j) * den >= num * t by {
        lemma_prefix_sum_monotone(w, i + 1, j);
        assert(prefix_sum(w, j) * den >= den) by (nonlinear_arith)
            requires prefix_sum(w, j) >= 1, den > 0;
    }
    lemma_last_below_is(w, n, num * t, den, i);
}

/// With a positive total, a fraction of at most one and above one minus
/// one over the total draws the highest-index stat with positive weight.
pub proof fn lemma_high_fraction_draws_last(w: Seq<u32>, h: int, num: int, den: int)
    requires
        w.len() == STAT_COUNT,
        0 <= h < w.len(),
        w[h] > 0,
        forall|j: int| h < j < w.len() ==> w[j] == 0,
        den > 0,
        num <= den,
        num * total_of(w) > (total_of(w) - 1) * den,
    ensures
        pick(w, num, den) == Some(h),
{
    let n = w.len() as int;
    let t = total_of(w);
    lemma_prefix_sum_flat(w, h + 1, n);
    lemma_prefix_sum_bounds(w, h);
    assert(prefix_sum(w, h) * den <= (t - 1) * den) by (nonlinear_arith)
        requires prefix_sum(w, h) <= t - 1, den > 0;
    assert forall|j: int| h < j < n implies prefix_sum(w, j) * den >= num * t by {
        lemma_prefix_sum_flat(w, h + 1, j);
        assert(t * den >= num * t) by (nonlinear_arith)
            requires num <= den, t >= 0;
    }
    lemma_last_below_is(w, n, num * t, den, h);
}

/// Setting the weight of a stat whose weight is zero and then removing it
/// gives back the weights and the total that were there before.
pub proof fn lemma_set_then_remove(w: Seq<u32>, stat: Stat, weight: u32)
    requires
        w.len() == STAT_COUNT,
        w[stat.spec_index()] == 0,
    ensures
        w.update(stat.spec_index(), weight).update(stat.spec_index(), 0u32) == w,
        total_of(w.update(stat.spec_index(), weight).update(stat.spec_index(), 0u32)) == total_of(w),
{
    assert(w.update(stat.spec_index(), weight).update(stat.spec_index(), 0u32) =~= w);
}

/// Relies on rand::random, which is `thread_rng().gen()`: a value drawn
/// uniformly over all of `u32` by the thread-local generator.
#[verifier::external_body]
fn random_u32() -> (r: u32) {
    rand::random::<u32>()
}

/// The denominator of the fractions drawn by `choose_rand`.
pub const DRAW_SCALE: u64 = 0x1_0000_0000;

/// A weight per stat, with the sum of all weights kept alongside.
#[derive(Clone, Copy, Debug)]
pub struct WeightContainer {
    weight: [u32; STAT_COUNT],
    tot_weight: u64,
}

impl View for WeightContainer {
    type V = Seq<u32>;

    /// The weights, indexed by `Stat::spec_index`.
    closed spec fn view(&self) -> Seq<u32> {
        self.weight@
    }
}

impl WeightContainer {
    /// The cached total equals the sum of the weights.
    pub closed spec fn wf(&self) -> bool {
        &&& self@.len() == STAT_COUNT
        &&& self.tot_weight as int == total_of(self@)
    }

    /// A well-formed container holds one weight per stat, and its total
    /// fits the cached `u64`.
    pub proof fn lemma_wf_bounds(&self)
        requires
            self.wf(),
        ensures
            self@.len() == STAT_COUNT,
            0 <= total_of(self@) <= STAT_COUNT * MAX_WEIGHT,
    {
        lemma_prefix_sum_bounds(self@, STAT_COUNT as int);
    }

    /// A container in which every stat has weight zero.
    pub fn new() -> (r: WeightContainer)
        ensures
            r.wf(),
            r@ == zero_weights(),
    {
        let r = WeightContainer { weight: [0u32; STAT_COUNT], tot_weight: 0 };
        proof {
            assert(r@ =~= zero_weights());
            lemma_prefix_sum_zero(STAT_COUNT as int);
        }
        r
    }

    /// Replaces the weight of `stat`, adjusting the total by the difference.
    pub fn set(&mut self, stat: Stat, weight: u32)
        requires
            old(self).wf(),
        ensures
            final(self).wf(),
            final(self)@ == old(self)@.update(stat.spec_index(), weight),
    {
        let i = stat.index();
        let prev = self.weight[i];
        proof {
            lemma_prefix_sum_update(self@, i as int, weight, STAT_COUNT as int);
            lemma_prefix_sum_update(self@, i as int, 0u32, STAT_COUNT as int);
            lemma_prefix_sum_bounds(self@.update(i as int, weight), STAT_COUNT as int);
            lemma_prefix_sum_bounds(self@.update(i as int, 0u32), STAT_COUNT as int);
        }
        self.tot_weight = self.tot_weight - prev as u64 + weight as u64;
        self.weight[i] = weight;
    }

    /// Sets each `(stat, weight)` pair of `pairs`, in order.
    pub fn set_all(&mut self, pairs: &Vec<(Stat, u32)>)
        requires
            old(self).wf(),
        ensures
            final(self).wf(),
            final(self)@ == apply_pairs(old(self)@, pairs@),
    {
        let ghost start = self@;
        let mut i: usize = 0;
        while i < pairs.len()
            invariant
                self.wf(),
                0 <= i <= pairs@.len(),
                self@ == apply_pairs(start, pairs@.subrange(0, i as int)),
            decreases pairs@.len() - i,
        {
            let (stat, weight) = pairs[i];
            proof {
                assert(pairs@.subrange(0, i as int + 1).drop_last() =~= pairs@.subrange(0, i as int));
            }
            self.set(stat, weight);
            i = i + 1;
        }
        proof {
            assert(pairs@.subrange(0, i as int) =~= pairs@);
        }
    }

    /// Sets the weight of `stat` to zero.
    pub fn remove(&mut self, stat: Stat)
        requires
            old(self).wf(),
        ensures
            final(self).wf(),
            final(self)@ == old(self)@.update(stat.spec_index(), 0u32),
    {
        self.set(stat, 0);
    }

    /// Draws a stat by the fraction `num / den`: the stat whose slice of
    /// `[0, total)`, laid out in stat order with one slice per weight, holds
    /// `num / den * total`. Gives none when the fraction exceeds one or no
    /// stat qualifies, as when every weight is zero.
    pub fn choose_fraction(&self, num: u64, den: u64) -> (r: Option<Stat>)
        requires
            self.wf(),
            den > 0,
        ensures
            index_of(r) == pick(self@, num as int, den as int),
            num > den ==> r is None,
            total_of(self@) == 0 ==> r is None,
            r matches Some(s) ==> self@[s.spec_index()] > 0,
    {
        proof {
            lemma_pick_positive(self@, num as int, den as int);
        }
        if num > den {
            return None;
        }
        proof {
            lemma_prefix_sum_bounds(self@, STAT_COUNT as int);
            assert(num * self.tot_weight <= 0xFFFF_FFFF_FFFF_FFFF * (18 * MAX_WEIGHT)) by (nonlinear_arith)
                requires num <= 0xFFFF_FFFF_FFFF_FFFFu64, self.tot_weight <= 18 * MAX_WEIGHT;
        }
        let target: u128 = (num as u128) * (self.tot_weight as u128);
        let mut cum: u64 = 0;
        let mut best: Option<usize> = None;
        let mut i: usize = 0;
        while i < STAT_COUNT
            invariant
                self.wf(),
                0 <= i <= STAT_COUNT,
                den > 0,
                target as int == num * total_of(self@),
                cum as int == prefix_sum(self@, i as int),
                match best {
                    Some(b) => b < i && last_below(self@, i as int, target as int, den as int) == Some(b as int),
                    None => last_below(self@, i as int, target as int, den as int) is None,
                },
            decreases STAT_COUNT - i,
        {
            proof {
                lemma_prefix_sum_bounds(self@, i as int + 1);
                assert(cum * den <= (18 * MAX_WEIGHT) * 0xFFFF_FFFF_FFFF_FFFF) by (nonlinear_arith)
                    requires cum <= 18 * MAX_WEIGHT, den <= 0xFFFF_FFFF_FFFF_FFFFu64;
            }
            if (cum as u128) * (den as u128) < target {
                best = Some(i);
            }
            cum = cum + self.weight[i] as u64;
            i = i + 1;
        }
        match best {
            Some(b) => Stat::from_index(b),
            None => None,
        }
    }

    /// Draws a stat at random, each with probability proportional to its
    /// weight: a fraction in `[0, 1)` is drawn uniformly in steps of one over
    /// `DRAW_SCALE` and handed to `choose_fraction`.
    pub fn choose_rand(&self) -> (r: Option<Stat>)
        requires
            self.wf(),
        ensures
            exists|n: int| 0 <= n < DRAW_SCALE && index_of(r) == #[trigger] pick(self@, n, DRAW_SCALE as int),
            total_of(self@) == 0 ==> r is None,
            r matches Some(s) ==> self@[s.spec_index()] > 0,
    {
        let n = random_u32();
        let r = self.choose_fraction(n as u64, DRAW_SCALE);
        assert(index_of(r) == pick(self@, n as int, DRAW_SCALE as int));
        r
    }

    /// The weight of `stat`.
    pub fn get_weight(&self, stat: Stat) -> (r: u32)
        requires
            self.wf(),
        ensures
            r == self@[stat.spec_index()],
    {
        self.weight[stat.index()]
    }

    /// The sum of all weights.
    pub fn get_tot_weight(&self) -> (r: u64)
        requires
            self.wf(),
        ensures
            r as int == total_of(self@),
    {
        self.tot_weight
    }
}

impl Default for WeightContainer {
    /// A container in which every stat has weight zero.
    fn default() -> (r: WeightContainer)
        ensures
            r.wf(),
            r@ == zero_weights(),
    {
        WeightContainer::new()
    }
}

} // verus!
