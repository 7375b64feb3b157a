//! Approximate equality of states.
//!
//! Two states are close when they have the same length and, at every
//! index, the magnitude of the difference of their amplitudes is below the
//! closeness tolerance.

use crate::qreg::QReg;
use crate::scalar::closeness_tolerance;
use crate::scalar::closeness_tolerance_value;
use crate::scalar::cx_sub;
use crate::scalar::difference_of;
use crate::scalar::magnitude;
use crate::scalar::magnitude_seen;
use crate::scalar::real_below;
use crate::scalar::real_lt;
use num_complex::Complex64;
use vstd::prelude::*;

verus! {

/// Whether `d` is a distance that was computed between `x` and `y`: a
/// magnitude of their difference.
pub open spec fn distance_seen(x: Complex64, y: Complex64, d: Complex64) -> bool {
    magnitude_seen(difference_of(x, y), d)
}

/// Whether `distances` shows that `a` and `b`, of equal length, are close:
/// it holds, index by index, a distance that was computed between their
/// amplitudes, and each is below the closeness tolerance.
pub open spec fn shown_close(
    a: Seq<Complex64>,
    b: Seq<Complex64>,
    distances: Seq<Complex64>,
) -> bool {
    &&& distances.len() == a.len()
    &&& forall|i: int|
        0 <= i < a.len() ==> distance_seen(a[i], b[i], #[trigger] distances[i]) && real_below(
            distances[i],
            closeness_tolerance_value(),
        )
}

/// Whether the distance `d`, computed between the amplitudes at index `i`,
/// shows that `a` and `b` are not close: it is not below the closeness
/// tolerance.
pub open spec fn shown_apart(a: Seq<Complex64>, b: Seq<Complex64>, i: int, d: Complex64) -> bool {
    &&& 0 <= i < a.len()
    &&& distance_seen(a[i], b[i], d)
    &&& !real_below(d, closeness_tolerance_value())
}

/// Whether `r` says rightly that `a` and `b` are close. States of unequal
/// length are not. States of equal length are close if a distance below the
/// tolerance was computed at every index, and not close if a distance not
/// below it was computed at some index.
pub open spec fn closeness_decided(r: bool, a: Seq<Complex64>, b: Seq<Complex64>) -> bool {
    if a.len() != b.len() {
        !r
    } else if r {
        exists|distances: Seq<Complex64>| #[trigger] shown_close(a, b, distances)
    } else {
        exists|i: int, d: Complex64| #[trigger] shown_apart(a, b, i, d)
    }
}

/// Whether a distance between two amplitudes counts as none: it is below
/// the closeness tolerance.
pub fn within_tolerance(distance: Complex64) -> (r: bool)
    ensures
        r == real_below(distance, closeness_tolerance_value()),
{
    real_lt(distance, closeness_tolerance())
}

impl QReg {
    /// Whether this state is close to another.
    pub fn isclose(&self, other: &QReg) -> (r: bool)
        ensures
            closeness_decided(r, self@, other@),
    {
        let amplitudes = other.amplitudes();
        self.isclose_slice(amplitudes.as_slice())
    }

    /// Whether this state is close to a sequence of amplitudes.
    pub fn isclose_slice(&self, other: &[Complex64]) -> (r: bool)
        ensures
            closeness_decided(r, self@, other@),
    {
        let len = self.len();
        if len != other.len() {
            return false;
        }
        let ghost mut found: Seq<Complex64> = Seq::empty();
        let mut i: usize = 0;
        while i < len
            invariant
                len == self@.len(),
                len == other@.len(),
                i <= len,
                found.len() == i,
                forall|k: int|
                    0 <= k < i ==> distance_seen(self@[k], other@[k], #[trigger] found[k])
                        && real_below(found[k], closeness_tolerance_value()),
            decreases len - i,
        {
            let distance = magnitude(cx_sub(self.amp(i), other[i]));
            if !within_tolerance(distance) {
                assert(shown_apart(self@, other@, i as int, distance));
                return false;
            }
            proof {
                found = found.push(distance);
            }
            i = i + 1;
        }
        assert(shown_close(self@, other@, found));
        true
    }
}

} // verus!
