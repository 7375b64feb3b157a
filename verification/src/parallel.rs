//! The units of work of a gate, run in parallel by `rayon`.
//!
//! Every unit reads the old amplitude vector, which is shared and not
//! written, and hands back the new amplitudes of its own group, so no two
//! units touch the same memory.

use crate::apply::pair_outcome;
use crate::apply::pair_update;
use crate::apply::quad_outcome;
use crate::apply::quad_update;
use crate::gate::Gate1;
use crate::gate::Gate2;
use crate::scalar::prune_threshold_value;
use crate::store::Amplitudes;
use num_complex::Complex64;
use rayon::iter::IntoParallelIterator;
use rayon::iter::ParallelIterator;
use vstd::arithmetic::power2::pow2;
use vstd::prelude::*;

verus! {

/// rayon's parallel map over the index range `0..len`, collected into a
/// vector: the result has one element for each index, in index order, and
/// the element at `i` is what [`pair_update`](crate::apply::pair_update) handed back for `i`.
#[verifier::external_body]
pub(crate) fn par_pair_updates(
    v: &Amplitudes,
    g: &Gate1,
    target: usize,
    n: usize,
    threshold: Complex64,
) -> (out: Vec<Option<(Complex64, Complex64)>>)
    requires
        n < usize::BITS,
        target < n,
        v@.len() == pow2(n as nat),
        threshold == prune_threshold_value(),
    ensures
        out@.len() == v@.len(),
        forall|i: usize|
            i < out@.len() ==> pair_outcome(v@, g@, target, i, #[trigger] out@[i as int]),
{
    (0..v.len()).into_par_iter().map(|i| pair_update(v, g, target, n, threshold, i)).collect()
}

/// rayon's parallel map over the index range `0..len`, collected into a
/// vector: the result has one element for each index, in index order, and
/// the element at `i` is what [`quad_update`](crate::apply::quad_update) handed back for `i`.
#[verifier::external_body]
pub(crate) fn par_quad_updates(
    v: &Amplitudes,
    g: &Gate2,
    control: usize,
    target: usize,
    n: usize,
    threshold: Complex64,
) -> (out: Vec<Option<[Complex64; 4]>>)
    requires
        n < usize::BITS,
        target < n,
        control < n,
        control != target,
        v@.len() == pow2(n as nat),
        threshold == prune_threshold_value(),
    ensures
        out@.len() == v@.len(),
        forall|i: usize|
            i < out@.len() ==> quad_outcome(v@, g@, control, target, i, #[trigger] out@[i as int]),
{
    (0..v.len()).into_par_iter().map(
        |i| quad_update(v, g, control, target, n, threshold, i),
    ).collect()
}

} // verus!
