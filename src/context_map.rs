//! Context maps for steering: a ring of `resolution` direction slots, slot
//! `i` pointing at angle `2 pi i / resolution`, each holding a weight.
//!
//! Weights are held as order keys: integers that order as the weights do,
//! with 0 for a zero weight. The host computes the weights (lengths, dot
//! products, falloff curves) and the vectors; this module does everything
//! that only compares, picks and wraps.
use vstd::prelude::*;
use vstd::arithmetic::div_mod::{
    lemma_fundamental_div_mod, lemma_fundamental_div_mod_converse,
};

verus! {

/// A weight, as an order key.
pub type Weight = i32;

/// The slot that a direction falls in, given its angle counted in slot
/// widths and rounded to a whole number: that number modulo the resolution.
pub open spec fn slot_spec(steps: int, resolution: nat) -> int {
    steps % (resolution as int)
}

/// Slot-wise maximum of the weights `w` and a stimulus `s`.
pub open spec fn combined(w: Seq<Weight>, s: Seq<Weight>) -> Seq<Weight> {
    Seq::new(w.len(), |k: int| if s[k] > w[k] { s[k] } else { w[k] })
}

/// Whether `r` is the first slot holding the greatest weight of `w`.
pub open spec fn is_max_index(w: Seq<Weight>, r: int) -> bool {
    &&& 0 <= r < w.len()
    &&& forall|k: int| 0 <= k < w.len() ==> w[k] <= w[r]
    &&& forall|k: int| 0 <= k < r ==> w[k] < w[r]
}

/// The interests `i`, with every slot whose danger in `d` exceeds
/// `threshold` set to zero.
pub open spec fn masked(i: Seq<Weight>, d: Seq<Weight>, threshold: Weight) -> Seq<Weight> {
    Seq::new(i.len(), |k: int| if d[k] > threshold { 0 } else { i[k] })
}

/// A ring of direction slots and their weights.
#[derive(Clone, Debug, Default)]
pub struct ContextMap {
    pub weights: Vec<Weight>,
}

impl ContextMap {
    /// A map of `resolution` slots, all zero.
    pub fn new(resolution: usize) -> (r: ContextMap)
        ensures
            r.weights@ == Seq::new(resolution as nat, |_k: int| 0 as Weight),
    {
        let mut weights: Vec<Weight> = Vec::new();
        let mut k: usize = 0;
        while k < resolution
            invariant
                k <= resolution,
                weights@ == Seq::new(k as nat, |_k: int| 0 as Weight),
            decreases resolution - k,
        {
            weights.push(0);
            k = k + 1;
            assert(weights@ =~= Seq::new(k as nat, |_k: int| 0 as Weight));
        }
        ContextMap { weights }
    }

    /// The number of slots.
    pub fn resolution(&self) -> (r: usize)
        ensures
            r == self.weights@.len(),
    {
        self.weights.len()
    }

    /// The slot of a direction whose angle, counted in slot widths and
    /// rounded, is `steps`; negative counts wrap around.
    pub fn angle_to_index(&self, steps: i64) -> (r: usize)
        requires
            self.weights@.len() > 0,
        ensures
            r < self.weights@.len(),
            r as int == slot_spec(steps as int, self.weights@.len()),
    {
        let n = self.weights.len();
        let nn = n as u128;
        if steps >= 0 {
            (steps as u128 % nn) as usize
        } else {
            let m = (-(steps + 1)) as u128;
            let r = n - 1 - (m % nn) as usize;
            proof {
                let ni = n as int;
                let mi = m as int;
                lemma_fundamental_div_mod(mi, ni);
                assert((-(mi / ni) - 1) * ni + (ni - 1 - mi % ni) == -mi - 1) by (nonlinear_arith)
                    requires
                        mi == ni * (mi / ni) + mi % ni,
                ;
                lemma_fundamental_div_mod_converse(steps as int, ni, -(mi / ni) - 1, r as int);
            }
            r
        }
    }

    /// Sets slot `index` to `weight`, whatever it held: the last write of a
    /// tick wins.
    pub fn set(&mut self, index: usize, weight: Weight)
        requires
            index < old(self).weights@.len(),
        ensures
            final(self).weights@ == old(self).weights@.update(index as int, weight),
    {
        self.weights.set(index, weight);
    }

    /// Combines a stimulus, already weighted for each slot, into the map:
    /// each slot keeps the greater of its weight and the stimulus's.
    pub fn add_map(&mut self, stimulus: &Vec<Weight>)
        requires
            stimulus@.len() == old(self).weights@.len(),
        ensures
            final(self).weights@ == combined(old(self).weights@, stimulus@),
    {
        let ghost w0 = self.weights@;
        let n = self.weights.len();
        let mut i: usize = 0;
        while i < n
            invariant
                n == w0.len(),
                stimulus@.len() == n,
                i <= n,
                self.weights@.len() == n,
                forall|k: int| 0 <= k < i ==> self.weights@[k] == combined(w0, stimulus@)[k],
                forall|k: int| i <= k < n ==> self.weights@[k] == w0[k],
            decreases n - i,
        {
            if stimulus[i] > self.weights[i] {
                self.weights.set(i, stimulus[i]);
            }
            i = i + 1;
        }
        assert(self.weights@ =~= combined(w0, stimulus@));
    }

    /// Sets every slot to zero.
    pub fn clear(&mut self)
        ensures
            final(self).weights@ == Seq::new(old(self).weights@.len(), |_k: int| 0 as Weight),
    {
        let n = self.weights.len();
        let mut i: usize = 0;
        while i < n
            invariant
                i <= n,
                self.weights@.len() == n,
                n == old(self).weights@.len(),
                forall|k: int| 0 <= k < i ==> self.weights@[k] == 0,
            decreases n - i,
        {
            self.weights.set(i, 0);
            i = i + 1;
        }
        assert(self.weights@ =~= Seq::new(n as nat, |_k: int| 0 as Weight));
    }

    /// The slot with the greatest weight; among equal greatest weights the
    /// first one wins.
    pub fn max_index(&self) -> (r: usize)
        requires
            self.weights@.len() > 0,
        ensures
            is_max_index(self.weights@, r as int),
    {
        let w = &self.weights;
        let mut index: usize = 0;
        let mut i: usize = 1;
        while i < w.len()
            invariant
                1 <= i <= w@.len(),
                is_max_index(w@.take(i as int), index as int),
            decreases w@.len() - i,
        {
            if w[i] > w[index] {
                index = i;
            }
            i = i + 1;
        }
        assert(w@.take(w@.len() as int) =~= w@);
        index
    }

    /// The slot with the greatest weight, and that weight: the vector the
    /// host draws is that slot's direction scaled by the weight.
    pub fn max_slot(&self) -> (r: (usize, Weight))
        requires
            self.weights@.len() > 0,
        ensures
            is_max_index(self.weights@, r.0 as int),
            r.1 == self.weights@[r.0 as int],
    {
        let i = self.max_index();
        (i, self.weights[i])
    }
}

/// An agent's two maps: directions it is drawn to and directions to avoid.
#[derive(Clone, Debug, Default)]
pub struct ContextMapAI {
    pub interests: ContextMap,
    pub dangers: ContextMap,
}

impl ContextMapAI {
    /// Two zeroed maps of `resolution` slots.
    pub fn new(resolution: usize) -> (r: ContextMapAI)
        ensures
            r.interests.weights@ == Seq::new(resolution as nat, |_k: int| 0 as Weight),
            r.dangers.weights@ == Seq::new(resolution as nat, |_k: int| 0 as Weight),
    {
        ContextMapAI { interests: ContextMap::new(resolution), dangers: ContextMap::new(resolution) }
    }

    /// Zeroes both maps, as each tick starts.
    pub fn clear(&mut self)
        ensures
            final(self).interests.weights@ == Seq::new(
                old(self).interests.weights@.len(),
                |_k: int| 0 as Weight,
            ),
            final(self).dangers.weights@ == Seq::new(
                old(self).dangers.weights@.len(),
                |_k: int| 0 as Weight,
            ),
    {
        self.interests.clear();
        self.dangers.clear();
    }

    /// The interests left once every slot whose danger exceeds `threshold`
    /// is dropped; the host then steers along their blended direction.
    pub fn masked_interests(&self, threshold: Weight) -> (r: ContextMap)
        requires
            self.interests.weights@.len() == self.dangers.weights@.len(),
        ensures
            r.weights@ == masked(self.interests.weights@, self.dangers.weights@, threshold),
    {
        let n = self.interests.weights.len();
        let mut weights: Vec<Weight> = Vec::new();
        let mut i: usize = 0;
        while i < n
            invariant
                n == self.interests.weights@.len(),
                n == self.dangers.weights@.len(),
                i <= n,
                weights@ == masked(self.interests.weights@, self.dangers.weights@, threshold).take(
                    i as int,
                ),
            decreases n - i,
        {
            if self.dangers.weights[i] > threshold {
                weights.push(0);
            } else {
                weights.push(self.interests.weights[i]);
            }
            i = i + 1;
            assert(weights@ =~= masked(self.interests.weights@, self.dangers.weights@, threshold).take(
                i as int,
            ));
        }
        assert(weights@ =~= masked(self.interests.weights@, self.dangers.weights@, threshold));
        ContextMap { weights }
    }
}

/// A full turn adds `resolution` slot widths to an angle and lands in the
/// same slot.
pub proof fn lemma_index_periodic(steps: int, resolution: nat)
    requires
        resolution > 0,
    ensures
        slot_spec(steps + resolution, resolution) == slot_spec(steps, resolution),
        0 <= slot_spec(steps, resolution) < resolution,
{
    let n = resolution as int;
    lemma_fundamental_div_mod(steps, n);
    assert(steps + n == (steps / n + 1) * n + steps % n) by (nonlinear_arith)
        requires
            steps == n * (steps / n) + steps % n,
    ;
    lemma_fundamental_div_mod_converse(steps + n, n, steps / n + 1, steps % n);
}

/// Combining the same stimulus twice leaves the weights as combining it
/// once.
pub proof fn lemma_add_map_idempotent(w: Seq<Weight>, s: Seq<Weight>)
    requires
        s.len() == w.len(),
    ensures
        combined(combined(w, s), s) == combined(w, s),
{
    assert(combined(combined(w, s), s) =~= combined(w, s));
}

/// When only slot `i` holds a weight, and it is positive, the greatest
/// weight is at `i`.
pub proof fn lemma_single_slot_max(w: Seq<Weight>, i: int, r: int)
    requires
        0 <= i < w.len(),
        w[i] > 0,
        forall|k: int| 0 <= k < w.len() && k != i ==> w[k] == 0,
        is_max_index(w, r),
    ensures
        r == i,
{
    if r != i {
        assert(w[i] <= w[r]);
    }
}

/// Masking removes every slot whose danger exceeds the threshold and keeps
/// the others.
pub proof fn lemma_masked_slots(i: Seq<Weight>, d: Seq<Weight>, threshold: Weight, k: int)
    requires
        i.len() == d.len(),
        0 <= k < i.len(),
    ensures
        d[k] > threshold ==> masked(i, d, threshold)[k] == 0,
        d[k] <= threshold ==> masked(i, d, threshold)[k] == i[k],
{
}

} // verus!
