//! Pseudo-random sequence generation by the Lehmer method: a linear
//! congruential recurrence over a small modulus, reduced to the caller's
//! range.  The recurrence itself is fully specified, so a generated
//! sequence is provably the Lehmer stream of its seed.

use crate::smo_engine::rng::random_below;
use vstd::prelude::*;

verus! {

/// Multiplier of the Lehmer recurrence.
pub const A: usize = 25173;

/// Increment of the Lehmer recurrence.
pub const B: usize = 13849;

/// Modulus of the Lehmer recurrence.
pub const C: usize = 65536;

/// Pseudo-random number generator state: the previous value of the
/// recurrence, always reduced below the modulus.
pub struct Rng {
    prev: usize,
}

impl Rng {
    /// The current state of the recurrence.
    pub closed spec fn current(self) -> int {
        self.prev as int
    }

    /// The state stays below the modulus.
    pub open spec fn inv(self) -> bool {
        0 <= self.current() < C
    }

    /// One step of the Lehmer recurrence.
    pub open spec fn step(prev: int) -> int {
        (A * prev + B) % (C as int)
    }

    /// A generator whose state is the given seed, reduced below the
    /// modulus.
    pub fn new(seed: usize) -> (r: Rng)
        ensures
            r.inv(),
            r.current() == (seed as int) % (C as int),
    {
        Rng { prev: seed % C }
    }

    /// Advances the recurrence once and returns the new state reduced to
    /// `[0, max)`.
    pub fn next(&mut self, max: usize) -> (r: usize)
        requires
            max > 0,
            old(self).inv(),
        ensures
            final(self).inv(),
            final(self).current() == Rng::step(old(self).current()),
            r == Rng::step(old(self).current()) % (max as int),
            r < max,
    {
        let next = (A * self.prev + B) % C;
        self.prev = next;
        next % max
    }
}

/// The state of the recurrence after `n` steps from `seed`.
pub open spec fn lemer_state(seed: int, n: nat) -> int
    decreases n,
{
    if n == 0 {
        seed
    } else {
        Rng::step(lemer_state(seed, (n - 1) as nat))
    }
}

/// The first `n` values of the Lehmer stream of `seed`, each reduced below
/// one hundred.
pub open spec fn lemer_output(seed: int, n: nat) -> Seq<u32>
    decreases n,
{
    if n == 0 {
        Seq::empty()
    } else {
        lemer_output(seed, (n - 1) as nat).push((lemer_state(seed, n) % 100) as u32)
    }
}

/// Generates `size` pseudo-random values in `[0, 100)` by the Lehmer
/// method: the result is the Lehmer stream of some seed drawn from the
/// process-wide random source.
pub fn generate(size: usize) -> (r: Vec<u32>)
    ensures
        r@.len() == size,
        forall|i: int| 0 <= i < size ==> r@[i] < 100,
        exists|seed: int|
            #![trigger lemer_output(seed, r@.len())]
            0 <= seed < C && r@ == lemer_output(seed, r@.len()),
{
    let seed = random_below(65536) as usize;
    let mut rng = Rng::new(seed);
    let ghost seed0 = rng.current();

    let mut numbers: Vec<u32> = Vec::with_capacity(size);
    let mut k: usize = 0;
    while k < size
        invariant
            rng.inv(),
            k <= size,
            numbers@.len() == k,
            0 <= seed0 < C,
            rng.current() == lemer_state(seed0, k as nat),
            numbers@ == lemer_output(seed0, k as nat),
        decreases size - k,
    {
        let v = rng.next(100);
        numbers.push(v as u32);
        k = k + 1;
        proof {
            assert(lemer_state(seed0, k as nat) == Rng::step(lemer_state(seed0, (k - 1) as nat)));
            assert(numbers@ =~= lemer_output(seed0, k as nat));
        }
    }
    proof {
        assert(forall|i: int| 0 <= i < size ==> #[trigger] numbers@[i] < 100) by {
            lemma_lemer_output_bounded(seed0, size as nat);
        }
    }
    numbers
}

/// Every value of a Lehmer stream is below one hundred.
proof fn lemma_lemer_output_bounded(seed: int, n: nat)
    ensures
        lemer_output(seed, n).len() == n,
        forall|i: int| 0 <= i < n ==> #[trigger] lemer_output(seed, n)[i] < 100,
    decreases n,
{
    if n > 0 {
        lemma_lemer_output_bounded(seed, (n - 1) as nat);
    }
}

} // verus!
