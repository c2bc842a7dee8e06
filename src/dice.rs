//! The random source behind cell placement.

use rand::rngs::StdRng;
use rand::Rng;
use rand::SeedableRng;
use vstd::prelude::*;

verus! {

#[verifier::external_type_specification]
#[verifier::external_body]
pub struct ExStdRng(rand::rngs::StdRng);

/// Relies on rand's `Rng::gen_range`: a uniform value of the half-open range
/// `0..n`, which panics on an empty range.
#[verifier::external_body]
fn draw_below(rng: &mut StdRng, n: usize) -> (r: usize)
    requires
        0 < n,
    ensures
        r < n,
{
    rng.gen_range(0..n)
}

/// Relies on rand's `SeedableRng::seed_from_u64`, which builds a generator
/// from a seed and never fails.
#[verifier::external_body]
fn seeded_rng(seed: u64) -> StdRng {
    StdRng::seed_from_u64(seed)
}

/// A source of uniform draws from `0..n`.
///
/// A scripted source first hands out its script, each value taken modulo
/// the bound of the draw, and then falls back to its generator.
pub struct Dice {
    rng: StdRng,
    script: Vec<usize>,
    next: usize,
}

impl Dice {
    /// The scripted values that the next draws will use, in order.
    pub closed spec fn pending(&self) -> Seq<usize> {
        if self.next <= self.script@.len() {
            self.script@.skip(self.next as int)
        } else {
            Seq::empty()
        }
    }

    /// A source driven by the given generator alone.
    pub fn from_rng(rng: StdRng) -> (r: Dice)
        ensures
            r.pending() == Seq::<usize>::empty(),
    {
        let r = Dice { rng, script: Vec::new(), next: 0 };
        assert(r.pending() =~= Seq::<usize>::empty());
        r
    }

    /// A deterministic source seeded with `seed`.
    pub fn seeded(seed: u64) -> (r: Dice)
        ensures
            r.pending() == Seq::<usize>::empty(),
    {
        Dice::from_rng(seeded_rng(seed))
    }

    /// A source that hands out `script` before it draws from a generator
    /// seeded with `seed`.
    pub fn scripted(seed: u64, script: Vec<usize>) -> (r: Dice)
        ensures
            r.pending() == script@,
    {
        let r = Dice { rng: seeded_rng(seed), script, next: 0 };
        assert(r.pending() =~= script@);
        r
    }

    /// A draw from `0..n`.
    pub fn below(&mut self, n: usize) -> (r: usize)
        requires
            0 < n,
        ensures
            r < n,
            old(self).pending().len() > 0 ==> r == old(self).pending()[0] % n
                && final(self).pending() == old(self).pending().drop_first(),
            old(self).pending().len() == 0 ==> final(self).pending() == old(self).pending(),
    {
        if self.next < self.script.len() {
            let v = self.script[self.next];
            self.next = self.next + 1;
            assert(final(self).pending() =~= old(self).pending().drop_first());
            v % n
        } else {
            let r = draw_below(&mut self.rng, n);
            assert(final(self).pending() =~= old(self).pending());
            r
        }
    }
}

} // verus!
