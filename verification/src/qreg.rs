//! The quantum register: its amplitude vector, and the norm that every
//! constructor and every measurement brings back to one.

use crate::bits::is_register_length;
use crate::bits::register_width;
use crate::error::failure;
use crate::error::QError;
use crate::scalar::cx_add;
use crate::scalar::cx_div_real;
use crate::scalar::degeneracy_threshold;
use crate::scalar::degeneracy_threshold_value;
use crate::scalar::norm_sqr;
use crate::scalar::norm_sqr_of;
use crate::scalar::quotient_by_real;
use crate::scalar::real_below;
use crate::scalar::real_lt;
use crate::scalar::real_sqrt;
use crate::scalar::sqrt_of;
use crate::scalar::sum_of;
use crate::scalar::zero;
use crate::scalar::zero_value;
use crate::store::Amplitudes;
use num_complex::Complex64;
use vstd::arithmetic::power2::pow2;
use vstd::prelude::*;

verus! {

/// The squared magnitudes of the first `k` amplitudes of `v`, added one by
/// one in index order, starting from zero.
pub open spec fn norm_sqr_sum(v: Seq<Complex64>, k: nat) -> Complex64
    decreases k,
{
    if k == 0 {
        zero_value()
    } else {
        sum_of(norm_sqr_sum(v, (k - 1) as nat), norm_sqr_of(v[k - 1]))
    }
}

/// The L2 norm of `v`: the square root of the sum of the squared
/// magnitudes.
pub open spec fn l2_norm(v: Seq<Complex64>) -> Complex64 {
    sqrt_of(norm_sqr_sum(v, v.len()))
}

/// Whether `v` cannot be normalized: its norm is not above the degeneracy
/// threshold.
pub open spec fn is_degenerate(v: Seq<Complex64>) -> bool {
    !real_below(degeneracy_threshold_value(), l2_norm(v))
}

/// Why no register can be made of `v`, if none can: its length is not that
/// of a register, or it is degenerate.
pub open spec fn construction_error(v: Seq<Complex64>) -> Option<QError> {
    if !is_register_length(v.len()) {
        Some(QError::InvalidLength)
    } else if is_degenerate(v) {
        Some(QError::DegenerateState)
    } else {
        None
    }
}

/// Every amplitude of `v` divided by the norm of `v`.
pub open spec fn normalized(v: Seq<Complex64>) -> Seq<Complex64> {
    Seq::new(v.len(), |i: int| quotient_by_real(v[i], l2_norm(v)))
}

/// The L2 norm of the amplitudes in `v`.
pub(crate) fn norm_of(v: &Amplitudes) -> (r: Complex64)
    ensures
        r == l2_norm(v@),
{
    let len = v.len();
    let mut acc = zero();
    let mut i: usize = 0;
    while i < len
        invariant
            len == v@.len(),
            i <= len,
            acc == norm_sqr_sum(v@, i as nat),
        decreases len - i,
    {
        acc = cx_add(acc, norm_sqr(v.get(i)));
        i = i + 1;
    }
    real_sqrt(acc)
}

/// The amplitudes of `v` divided by their norm, unless `v` is degenerate.
pub(crate) fn normalized_copy(v: &Amplitudes) -> (r: Result<Vec<Complex64>, QError>)
    ensures
        match r {
            Ok(w) => !is_degenerate(v@) && w@ == normalized(v@),
            Err(e) => is_degenerate(v@) && e == QError::DegenerateState,
        },
{
    let norm = norm_of(v);
    if !real_lt(degeneracy_threshold(), norm) {
        return Err(QError::DegenerateState);
    }
    let len = v.len();
    let mut out: Vec<Complex64> = Vec::with_capacity(len);
    let mut i: usize = 0;
    while i < len
        invariant
            len == v@.len(),
            i <= len,
            norm == l2_norm(v@),
            out@.len() == i,
            forall|k: int| 0 <= k < i ==> out@[k] == quotient_by_real(v@[k], norm),
        decreases len - i,
    {
        out.push(cx_div_real(v.get(i), norm));
        i = i + 1;
    }
    assert(out@ =~= normalized(v@));
    Ok(out)
}

/// A register of `n` qubits: two to the `n` amplitudes. The amplitude at
/// index `i` belongs to the basis state in which qubit `b` has the value of
/// bit `b` of `i`.
pub struct QReg {
    v: Amplitudes,
    n: usize,
}

impl View for QReg {
    type V = Seq<Complex64>;

    /// The amplitudes, in index order.
    closed spec fn view(&self) -> Seq<Complex64> {
        self.v@
    }
}

impl QReg {
    /// The number of qubits.
    pub closed spec fn qubits(&self) -> nat {
        self.n as nat
    }

    /// What holds of every register: it has two to the `qubits()`
    /// amplitudes, and that number fits in a machine word.
    #[verifier::type_invariant]
    pub closed spec fn wf(&self) -> bool {
        &&& self.n < usize::BITS
        &&& self.v@.len() == pow2(self.n as nat)
    }

    /// The shape that [`QReg::wf`] fixes, for those who cannot see inside.
    pub proof fn lemma_shape(&self)
        requires
            self.wf(),
        ensures
            self.qubits() < usize::BITS,
            self@.len() == pow2(self.qubits()),
            is_register_length(self@.len()),
    {
    }

    /// Two registers of the same length have the same number of qubits.
    pub proof fn lemma_same_width(&self, other: &QReg)
        requires
            self.wf(),
            other.wf(),
            self@.len() == other@.len(),
        ensures
            self.qubits() == other.qubits(),
    {
        vstd::arithmetic::power2::lemma_pow2_pos(self.n as nat);
        crate::bits::lemma_pow2_between(self.n as nat, other.n as nat);
    }

    /// A register of two to the `n` amplitudes has `n` qubits.
    pub proof fn lemma_width_of(&self, n: nat)
        requires
            self.wf(),
            self@.len() == pow2(n),
        ensures
            self.qubits() == n,
    {
        vstd::arithmetic::power2::lemma_pow2_pos(n);
        crate::bits::lemma_pow2_between(self.n as nat, n);
    }

    /// Put `v` in the place of the amplitudes.
    pub(crate) fn replace(&mut self, v: Vec<Complex64>)
        requires
            v@.len() == old(self)@.len(),
        ensures
            final(self).wf(),
            final(self)@ == v@,
            final(self).qubits() == old(self).qubits(),
    {
        proof {
            use_type_invariant(&*self);
        }
        self.v = Amplitudes::from_vec(v);
    }

    /// Put the array `a` in the place of the amplitudes.
    pub(crate) fn replace_store(&mut self, a: Amplitudes)
        requires
            a@.len() == old(self)@.len(),
        ensures
            final(self).wf(),
            final(self)@ == a@,
            final(self).qubits() == old(self).qubits(),
    {
        proof {
            use_type_invariant(&*self);
        }
        self.v = a;
    }

    /// The array that holds the amplitudes.
    pub(crate) fn store(&self) -> (a: &Amplitudes)
        ensures
            a@ == self@,
    {
        &self.v
    }

    /// The amplitude at index `i`.
    pub(crate) fn amp(&self, i: usize) -> (x: Complex64)
        requires
            i < self@.len(),
        ensures
            x == self@[i as int],
    {
        self.v.get(i)
    }

    /// A register from a vector of amplitudes, which is normalized. The
    /// length of the vector must be a power of two, and its norm above the
    /// degeneracy threshold.
    pub fn new(register: Vec<Complex64>) -> (r: Result<Self, QError>)
        ensures
            failure(r) == construction_error(register@),
            r matches Ok(q) ==> q.wf() && q@ == normalized(register@),
    {
        Self::from_array(Amplitudes::from_vec(register))
    }

    /// A register from an array of amplitudes, which is normalized.
    pub(crate) fn from_array(raw: Amplitudes) -> (r: Result<Self, QError>)
        ensures
            failure(r) == construction_error(raw@),
            r matches Ok(q) ==> q.wf() && q@ == normalized(raw@),
    {
        let n = match register_width(raw.len()) {
            Ok(n) => n,
            Err(e) => {
                return Err(e);
            },
        };
        match normalized_copy(&raw) {
            Ok(w) => Ok(QReg { v: Amplitudes::from_vec(w), n }),
            Err(e) => Err(e),
        }
    }

    /// The number of qubits.
    pub fn n(&self) -> (n: usize)
        ensures
            n == self.qubits(),
            self@.len() == pow2(n as nat),
            n < usize::BITS,
    {
        proof {
            use_type_invariant(self);
        }
        self.n
    }

    /// The number of amplitudes.
    pub fn len(&self) -> (len: usize)
        ensures
            len == self@.len(),
            len == pow2(self.qubits()),
    {
        proof {
            use_type_invariant(self);
        }
        self.v.len()
    }

    /// The amplitudes, in index order.
    pub fn amplitudes(&self) -> (v: Vec<Complex64>)
        ensures
            v@ == self@,
    {
        self.v.to_vec()
    }

    /// The L2 norm of the state vector, as a real.
    pub fn norm(&self) -> (r: Complex64)
        ensures
            r == l2_norm(self@),
    {
        norm_of(&self.v)
    }

    /// Divide every amplitude by the norm. A degenerate state is refused
    /// and left as it is.
    pub fn normalize(&mut self) -> (r: Result<(), QError>)
        ensures
            final(self).wf(),
            final(self).qubits() == old(self).qubits(),
            failure(r) == (if is_degenerate(old(self)@) {
                Some(QError::DegenerateState)
            } else {
                None
            }),
            r is Err ==> final(self)@ == old(self)@,
            r is Ok ==> final(self)@ == normalized(old(self)@),
    {
        proof {
            use_type_invariant(&*self);
        }
        match normalized_copy(&self.v) {
            Ok(w) => {
                self.v = Amplitudes::from_vec(w);
                Ok(())
            },
            Err(e) => Err(e),
        }
    }
}

impl Clone for QReg {
    /// A register with the same amplitudes.
    fn clone(&self) -> (r: Self)
        ensures
            r.wf(),
            r@ == self@,
            r.qubits() == self.qubits(),
    {
        proof {
            use_type_invariant(self);
        }
        QReg { v: Amplitudes::from_vec(self.v.to_vec()), n: self.n }
    }
}

} // verus!
