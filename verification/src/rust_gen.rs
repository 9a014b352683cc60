//! Sequence generation straight from the process-wide random source.

use crate::smo_engine::rng::random_below;
use vstd::prelude::*;

verus! {

/// Generates `size` random values, each in `[1, 99]`.
pub fn generate(size: usize) -> (r: Vec<u8>)
    ensures
        r@.len() == size,
        forall|i: int| 0 <= i < size ==> 1 <= (#[trigger] r@[i]) < 100,
{
    let mut numbers: Vec<u8> = Vec::with_capacity(size);
    let mut k: usize = 0;
    while k < size
        invariant
            k <= size,
            numbers@.len() == k,
            forall|i: int| 0 <= i < k ==> 1 <= (#[trigger] numbers@[i]) < 100,
        decreases size - k,
    {
        let draw = random_below(99);
        numbers.push((draw as u8) + 1);
        k = k + 1;
    }
    numbers
}

} // verus!
