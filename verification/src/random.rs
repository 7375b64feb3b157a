//! The source of the draws that decide measurements: the standard
//! generator of the `rand` crate.

use num_complex::Complex64;
use rand::rngs::StdRng;
use rand::Rng;
use vstd::prelude::*;

verus! {

/// `rand::rngs::StdRng`, of whose state the verifier sees nothing.
#[verifier::external_type_specification]
#[verifier::external_body]
pub struct ExStdRng(StdRng);

/// Whether `u` is a draw that took the generator from the state `before`
/// to the state `after`.
pub uninterp spec fn draw_seen(before: StdRng, u: Complex64, after: StdRng) -> bool;

/// `Rng::gen` for a double: a draw from the standard distribution, which is
/// uniform on the unit interval with one left out. It comes back as a
/// real. It depends on chance, so nothing is claimed of its value: only
/// that it was drawn, and took the generator from its state before the call
/// to its state after.
#[verifier::external_body]
pub(crate) fn draw_unit(rng: &mut StdRng) -> (u: Complex64)
    ensures
        draw_seen(*old(rng), u, *final(rng)),
{
    Complex64::new(rng.gen(), 0u8.into())
}

} // verus!
