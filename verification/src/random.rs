//! Random numbers behind a substitutable source: production draws from the
//! process entropy source, tests install a fixed sequence so every outcome is
//! reproducible.  Weighted selection over the draws is verified code.

use vstd::prelude::*;

verus! {

/// Relies on rand's `RngExt::random_range` over `0..n`: the result lies in
/// the half-open range.  `random_range` panics only on an empty range, which
/// the precondition excludes; `rand::rng` panics only if the operating
/// system's entropy source fails during initial seeding.
#[verifier::external_body]
fn entropy_below(n: u64) -> (r: u64)
    requires
        n > 0,
    ensures
        r < n,
{
    let mut rng = rand::rng();
    rand::RngExt::random_range(&mut rng, 0..n)
}

/// A source of bounded random numbers: either the process entropy source, or
/// a fixed sequence of values that is consumed cyclically.
pub struct RandomSource {
    use_entropy: bool,
    sequence: Vec<u64>,
    next_index: usize,
}

impl RandomSource {
    pub closed spec fn wf(&self) -> bool {
        self.sequence.len() > 0 ==> self.next_index < self.sequence.len()
    }

    pub closed spec fn is_fixed(&self) -> bool {
        !self.use_entropy
    }

    /// The value the next fixed draw is computed from.
    pub closed spec fn spec_next_raw(&self) -> u64 {
        if self.sequence.len() == 0 {
            0u64
        } else {
            self.sequence@[self.next_index as int]
        }
    }

    /// The source after one fixed draw: the cursor advances cyclically.
    pub closed spec fn spec_advanced(&self) -> RandomSource {
        if self.sequence.len() == 0 {
            *self
        } else {
            RandomSource {
                next_index: if self.next_index + 1 == self.sequence.len() {
                    0usize
                } else {
                    (self.next_index + 1) as usize
                },
                ..*self
            }
        }
    }

    /// A source backed by the process entropy source.
    pub fn entropy() -> (r: RandomSource)
        ensures
            r.wf(),
            !r.is_fixed(),
    {
        RandomSource { use_entropy: true, sequence: Vec::new(), next_index: 0 }
    }

    /// A source that replays the given values cyclically; an empty sequence
    /// yields zero forever.
    pub fn fixed(values: Vec<u64>) -> (r: RandomSource)
        ensures
            r.wf(),
            r.is_fixed(),
            r.spec_sequence() == values@,
            r.spec_next_index() == 0,
    {
        RandomSource { use_entropy: false, sequence: values, next_index: 0 }
    }

    pub closed spec fn spec_sequence(&self) -> Seq<u64> {
        self.sequence@
    }

    pub closed spec fn spec_next_index(&self) -> int {
        self.next_index as int
    }

    /// Draws a value below `n`.  For a fixed source the draw and the new
    /// state are exact; for an entropy source only the bound holds.
    pub fn next_below(&mut self, n: u64) -> (r: u64)
        requires
            old(self).wf(),
            n > 0,
        ensures
            final(self).wf(),
            r < n,
            final(self).is_fixed() == old(self).is_fixed(),
            old(self).is_fixed() ==> r == old(self).spec_next_raw() % n
                && *final(self) == old(self).spec_advanced(),
            !old(self).is_fixed() ==> *final(self) == *old(self),
    {
        if self.use_entropy {
            entropy_below(n)
        } else {
            if self.sequence.len() == 0 {
                0 % n
            } else {
                let raw = self.sequence[self.next_index];
                self.next_index = self.next_index + 1;
                if self.next_index == self.sequence.len() {
                    self.next_index = 0;
                }
                raw % n
            }
        }
    }
}

/// The sum of a sequence of weights.
pub open spec fn weight_sum(s: Seq<u64>) -> int
    decreases s.len(),
{
    if s.len() == 0 {
        0
    } else {
        s[0] + weight_sum(s.skip(1))
    }
}

/// Appending one weight adds it to the sum.
pub proof fn lemma_weight_sum_push(s: Seq<u64>, w: u64)
    ensures
        weight_sum(s.push(w)) == weight_sum(s) + w,
    decreases s.len(),
{
    if s.len() == 0 {
        assert(s.push(w).skip(1) =~= Seq::<u64>::empty());
        assert(s.push(w)[0] == w);
        assert(weight_sum(s.push(w)) == w + weight_sum(s.push(w).skip(1)));
    } else {
        assert(s.push(w).skip(1) =~= s.skip(1).push(w));
        lemma_weight_sum_push(s.skip(1), w);
        assert(s.push(w)[0] == s[0]);
        assert(weight_sum(s.push(w)) == s[0] + weight_sum(s.skip(1).push(w)));
    }
}

/// Every weight is at most the sum of its whole sequence.
pub proof fn lemma_weight_sum_bounds(s: Seq<u64>, i: int)
    requires
        0 <= i < s.len(),
    ensures
        weight_sum(s) >= weight_sum(s.take(i)) + s[i],
        weight_sum(s.take(i)) >= 0,
    decreases s.len(),
{
    if i == 0 {
        assert(s.take(0) =~= Seq::<u64>::empty());
        lemma_weight_sum_nonneg(s.skip(1));
    } else {
        lemma_weight_sum_bounds(s.skip(1), i - 1);
        assert(s.take(i).skip(1) =~= s.skip(1).take(i - 1));
    }
}

/// A sum of weights is never negative.
pub proof fn lemma_weight_sum_nonneg(s: Seq<u64>)
    ensures
        weight_sum(s) >= 0,
    decreases s.len(),
{
    if s.len() > 0 {
        lemma_weight_sum_nonneg(s.skip(1));
    }
}

/// Picks the entry of `weights` whose cumulative interval contains `r`: the
/// chosen index is the unique `idx` with
/// `weight_sum(prefix idx) <= r < weight_sum(prefix idx + 1)`.  The chosen
/// entry always has positive weight.
pub fn weighted_pick(weights: &Vec<u64>, r: u64) -> (idx: usize)
    requires
        r < weight_sum(weights@),
        weight_sum(weights@) <= u64::MAX,
    ensures
        idx < weights.len(),
        weights@[idx as int] > 0,
        weight_sum(weights@.take(idx as int)) <= r,
        r < weight_sum(weights@.take(idx as int)) + weights@[idx as int],
{
    let mut acc: u64 = 0;
    let mut i: usize = 0;
    loop
        invariant
            i < weights.len(),
            r < weight_sum(weights@),
            weight_sum(weights@) <= u64::MAX,
            acc == weight_sum(weights@.take(i as int)),
            acc <= r,
        decreases weights.len() - i,
    {
        proof {
            lemma_weight_sum_bounds(weights@, i as int);
            assert(weights@.take(i as int).push(weights@[i as int]) =~= weights@.take(
                i as int + 1,
            ));
            lemma_weight_sum_push(weights@.take(i as int), weights@[i as int]);
        }
        let w = weights[i];
        if r < acc + w {
            return i;
        }
        acc = acc + w;
        i = i + 1;
        proof {
            if i == weights.len() {
                assert(weights@.take(i as int) =~= weights@);
            }
        }
    }
}

} // verus!
