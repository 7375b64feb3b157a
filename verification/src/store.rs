//! The amplitude vector of a register, kept in an `ndarray` array.

use ndarray::Array1;
use num_complex::Complex64;
use vstd::prelude::*;

verus! {

/// A one-dimensional `ndarray` array of amplitudes, index-significant.
#[verifier::external_body]
pub struct Amplitudes {
    cells: Array1<Complex64>,
}

/// The amplitudes that the array holds, in index order.
pub uninterp spec fn amplitudes_of(a: Amplitudes) -> Seq<Complex64>;

impl View for Amplitudes {
    type V = Seq<Complex64>;

    open spec fn view(&self) -> Seq<Complex64> {
        amplitudes_of(*self)
    }
}

impl Amplitudes {
    /// `Array1::from_vec`: the array holds the elements of `v` in their
    /// order.
    #[verifier::external_body]
    pub(crate) fn from_vec(v: Vec<Complex64>) -> (a: Self)
        ensures
            amplitudes_of(a) == v@,
    {
        Amplitudes { cells: Array1::from_vec(v) }
    }

    /// `ArrayBase::len`: the number of elements.
    #[verifier::external_body]
    pub(crate) fn len(&self) -> (n: usize)
        ensures
            n == amplitudes_of(*self).len(),
    {
        self.cells.len()
    }

    /// Indexing by a position, which panics outside the array: the
    /// element at `i`.
    #[verifier::external_body]
    pub(crate) fn get(&self, i: usize) -> (x: Complex64)
        requires
            i < amplitudes_of(*self).len(),
        ensures
            x == amplitudes_of(*self)[i as int],
    {
        self.cells[i]
    }

    /// `ArrayBase::to_vec`: the elements in index order.
    #[verifier::external_body]
    pub(crate) fn to_vec(&self) -> (v: Vec<Complex64>)
        ensures
            v@ == amplitudes_of(*self),
    {
        self.cells.to_vec()
    }
}

} // verus!
