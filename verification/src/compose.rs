//! Registers built from two registers: the superposition sum, the
//! difference, and the tensor product. Each builds a new register and leaves
//! its operands alone.

use crate::bits::bit_set;
use crate::bits::lemma_shift_is_pow2;
use crate::error::failure;
use crate::error::QError;
use crate::qreg::is_degenerate;
use crate::qreg::normalized;
use crate::qreg::QReg;
use crate::scalar::cx_add;
use crate::scalar::cx_mul;
use crate::scalar::cx_sub;
use crate::scalar::difference_of;
use crate::scalar::inv_sqrt2;
use crate::scalar::inv_sqrt2_value;
use crate::scalar::product_of;
use crate::scalar::sum_of;
use crate::store::Amplitudes;
use num_complex::Complex64;
use vstd::arithmetic::div_mod::lemma_fundamental_div_mod_converse;
use vstd::arithmetic::power2::lemma_pow2_adds;
use vstd::arithmetic::power2::pow2;
use vstd::bits::lemma_usize_pow2_no_overflow;
use vstd::bits::lemma_usize_shl_is_mul;
use vstd::prelude::*;

verus! {

/// The elementwise sum of `a` and `b`, each element scaled by one over the
/// square root of two.
pub open spec fn superposed(a: Seq<Complex64>, b: Seq<Complex64>) -> Seq<Complex64> {
    Seq::new(a.len(), |i: int| product_of(sum_of(a[i], b[i]), inv_sqrt2_value()))
}

/// The elementwise difference of `a` and `b`, each element scaled by one
/// over the square root of two.
pub open spec fn opposed(a: Seq<Complex64>, b: Seq<Complex64>) -> Seq<Complex64> {
    Seq::new(a.len(), |i: int| product_of(difference_of(a[i], b[i]), inv_sqrt2_value()))
}

/// The Kronecker product of `a` and `b`: the element at `i * b.len() + j`
/// is the product of `a[i]` and `b[j]`.
pub open spec fn tensored(a: Seq<Complex64>, b: Seq<Complex64>) -> Seq<Complex64> {
    Seq::new(
        a.len() * b.len(),
        |x: int| product_of(a[x / (b.len() as int)], b[x % (b.len() as int)]),
    )
}

/// Why the sum or difference of `a` and `b` is refused, if it is: the two
/// differ in length, or `combined`, their sum or difference before
/// normalization, is degenerate.
pub open spec fn pairing_error(
    a: Seq<Complex64>,
    b: Seq<Complex64>,
    combined: Seq<Complex64>,
) -> Option<QError> {
    if a.len() != b.len() {
        Some(QError::LengthMismatch)
    } else if is_degenerate(combined) {
        Some(QError::DegenerateState)
    } else {
        None
    }
}

/// Why a tensor product of `qubits` qubits is refused, if it is: its
/// length does not fit in a machine word, or `product`, the product before
/// normalization, is degenerate.
pub open spec fn tensor_error(qubits: nat, product: Seq<Complex64>) -> Option<QError> {
    if qubits >= usize::BITS {
        Some(QError::InvalidLength)
    } else if is_degenerate(product) {
        Some(QError::DegenerateState)
    } else {
        None
    }
}

/// The index of a tensor product concatenates the indices of its operands:
/// with a right operand of two to the `nb` amplitudes, the index
/// `i * 2^nb + j` has the bits of `j` in its `nb` low places and the bits
/// of `i` above them.
pub proof fn lemma_tensor_index_bits(i: usize, j: usize, nb: usize, k: usize)
    requires
        nb < usize::BITS,
        k < usize::BITS,
        j < pow2(nb as nat),
        i * pow2(nb as nat) + j <= usize::MAX,
    ensures
        k < nb ==> bit_set((i * pow2(nb as nat) + j) as usize, k) == bit_set(j, k),
        k >= nb ==> bit_set((i * pow2(nb as nat) + j) as usize, k) == bit_set(
            i,
            (k - nb) as usize,
        ),
{
    lemma_shift_is_pow2(nb);
    assert(i * pow2(nb as nat) <= usize::MAX);
    lemma_usize_shl_is_mul(i, nb);
    let high = i << nb;
    let x = (high + j) as usize;
    assert(high >> nb == i) by {
        vstd::bits::lemma_usize_shr_is_div(high, nb);
        vstd::arithmetic::div_mod::lemma_div_by_multiple(i as int, pow2(nb as nat) as int);
    }
    assert(x == high | j && (if k < nb {
        ((x >> k) & 1 == 1) == ((j >> k) & 1 == 1)
    } else {
        ((x >> k) & 1 == 1) == ((i >> ((k - nb) as usize)) & 1 == 1)
    })) by (bit_vector)
        requires
            nb < usize::BITS,
            k < usize::BITS,
            j < (1usize << nb),
            high == i << nb,
            high >> nb == i,
            x == (high + j) as usize,
    ;
}

/// The Kronecker product of two amplitude vectors.
pub(crate) fn kron(a: &Amplitudes, b: &Amplitudes) -> (r: Amplitudes)
    requires
        a@.len() * b@.len() <= usize::MAX,
    ensures
        r@ == tensored(a@, b@),
{
    let la = a.len();
    let lb = b.len();
    let mut out: Vec<Complex64> = Vec::new();
    let mut i: usize = 0;
    while i < la
        invariant
            la == a@.len(),
            lb == b@.len(),
            la * lb <= usize::MAX,
            i <= la,
            out@.len() == i * lb,
            forall|x: int|
                0 <= x < out@.len() ==> out@[x] == product_of(
                    a@[x / (lb as int)],
                    b@[x % (lb as int)],
                ),
        decreases la - i,
    {
        let left = a.get(i);
        let mut j: usize = 0;
        while j < lb
            invariant
                la == a@.len(),
                lb == b@.len(),
                i < la,
                j <= lb,
                left == a@[i as int],
                out@.len() == i * lb + j,
                forall|x: int|
                    0 <= x < out@.len() ==> out@[x] == product_of(
                        a@[x / (lb as int)],
                        b@[x % (lb as int)],
                    ),
            decreases lb - j,
        {
            proof {
                lemma_fundamental_div_mod_converse(
                    (i * lb + j) as int,
                    lb as int,
                    i as int,
                    j as int,
                );
            }
            out.push(cx_mul(left, b.get(j)));
            j = j + 1;
        }
        assert((i + 1) * lb == i * lb + lb) by (nonlinear_arith);
        i = i + 1;
    }
    assert(out@ =~= tensored(a@, b@));
    Amplitudes::from_vec(out)
}

/// The superposition of two registers of equal length: their sum,
/// scaled by one over the square root of two and normalized.
impl core::ops::Add for QReg {
    type Output = Result<QReg, QError>;

    fn add(self, other: QReg) -> (r: Result<QReg, QError>)
        ensures
            failure(r) == pairing_error(self@, other@, superposed(self@, other@)),
            r matches Ok(q) ==> q.wf() && q.qubits() == self.qubits() && q@ == normalized(
                superposed(self@, other@),
            ),
    {
        proof {
            use_type_invariant(&self);
            use_type_invariant(&other);
            self.lemma_shape();
        }
        let len = self.len();
        if len != other.len() {
            return Err(QError::LengthMismatch);
        }
        let scale = inv_sqrt2();
        let mut out: Vec<Complex64> = Vec::with_capacity(len);
        let mut i: usize = 0;
        while i < len
            invariant
                len == self@.len(),
                len == other@.len(),
                scale == inv_sqrt2_value(),
                i <= len,
                out@.len() == i,
                forall|k: int| 0 <= k < i ==> out@[k] == superposed(self@, other@)[k],
            decreases len - i,
        {
            out.push(cx_mul(cx_add(self.amp(i), other.amp(i)), scale));
            i = i + 1;
        }
        assert(out@ =~= superposed(self@, other@));
        let r = QReg::from_array(Amplitudes::from_vec(out));
        proof {
            if r is Ok {
                r->Ok_0.lemma_same_width(&self);
            }
        }
        r
    }
}

impl vstd::std_specs::ops::AddSpecImpl for QReg {
    open spec fn obeys_add_spec() -> bool {
        false
    }

    open spec fn add_req(self, other: QReg) -> bool {
        true
    }

    open spec fn add_spec(self, other: QReg) -> Result<QReg, QError> {
        arbitrary()
    }
}

/// The difference of two registers of equal length, scaled by one over
/// the square root of two and normalized.
impl core::ops::Sub for QReg {
    type Output = Result<QReg, QError>;

    fn sub(self, other: QReg) -> (r: Result<QReg, QError>)
        ensures
            failure(r) == pairing_error(self@, other@, opposed(self@, other@)),
            r matches Ok(q) ==> q.wf() && q.qubits() == self.qubits() && q@ == normalized(
                opposed(self@, other@),
            ),
    {
        proof {
            use_type_invariant(&self);
            use_type_invariant(&other);
            self.lemma_shape();
        }
        let len = self.len();
        if len != other.len() {
            return Err(QError::LengthMismatch);
        }
        let scale = inv_sqrt2();
        let mut out: Vec<Complex64> = Vec::with_capacity(len);
        let mut i: usize = 0;
        while i < len
            invariant
                len == self@.len(),
                len == other@.len(),
                scale == inv_sqrt2_value(),
                i <= len,
                out@.len() == i,
                forall|k: int| 0 <= k < i ==> out@[k] == opposed(self@, other@)[k],
            decreases len - i,
        {
            out.push(cx_mul(cx_sub(self.amp(i), other.amp(i)), scale));
            i = i + 1;
        }
        assert(out@ =~= opposed(self@, other@));
        let r = QReg::from_array(Amplitudes::from_vec(out));
        proof {
            if r is Ok {
                r->Ok_0.lemma_same_width(&self);
            }
        }
        r
    }
}

impl vstd::std_specs::ops::SubSpecImpl for QReg {
    open spec fn obeys_sub_spec() -> bool {
        false
    }

    open spec fn sub_req(self, other: QReg) -> bool {
        true
    }

    open spec fn sub_spec(self, other: QReg) -> Result<QReg, QError> {
        arbitrary()
    }
}

/// The tensor product of two registers, normalized. Its low qubits are
/// those of `other`, its high qubits those of `self`. It is refused when
/// its length does not fit in a machine word.
impl core::ops::Mul for QReg {
    type Output = Result<QReg, QError>;

    fn mul(self, other: QReg) -> (r: Result<QReg, QError>)
        ensures
            failure(r) == tensor_error(self.qubits() + other.qubits(), tensored(self@, other@)),
            r matches Ok(q) ==> q.wf() && q.qubits() == self.qubits() + other.qubits() && q@
                == normalized(tensored(self@, other@)),
    {
        proof {
            use_type_invariant(&self);
            use_type_invariant(&other);
            self.lemma_shape();
            other.lemma_shape();
        }
        let na = self.n();
        let nb = other.n();
        if na + nb >= usize::BITS as usize {
            return Err(QError::InvalidLength);
        }
        proof {
            lemma_pow2_adds(na as nat, nb as nat);
            lemma_usize_pow2_no_overflow((na + nb) as nat);
        }
        let product = kron(self.store(), other.store());
        let r = QReg::from_array(product);
        proof {
            if r is Ok {
                r->Ok_0.lemma_width_of((na + nb) as nat);
            }
        }
        r
    }
}

impl vstd::std_specs::ops::MulSpecImpl for QReg {
    open spec fn obeys_mul_spec() -> bool {
        false
    }

    open spec fn mul_req(self, other: QReg) -> bool {
        true
    }

    open spec fn mul_spec(self, other: QReg) -> Result<QReg, QError> {
        arbitrary()
    }
}

} // verus!
