//! Registers from a basis specification: a string over `0`, `1`, `+`, `-`,
//! one character for each qubit, the leftmost for the highest qubit.

use crate::compose::kron;
use crate::compose::tensored;
use crate::error::failure;
use crate::error::QError;
use crate::qreg::is_degenerate;
use crate::qreg::normalized;
use crate::qreg::QReg;
use crate::scalar::amplitude;
use crate::scalar::inv_sqrt2;
use crate::scalar::inv_sqrt2_value;
use crate::scalar::neg_inv_sqrt2;
use crate::scalar::neg_inv_sqrt2_value;
use crate::scalar::one_value;
use crate::scalar::zero_value;
use crate::store::Amplitudes;
use num_complex::Complex64;
use vstd::arithmetic::power2::lemma2_to64;
use vstd::arithmetic::power2::lemma_pow2_unfold;
use vstd::arithmetic::power2::pow2;
use vstd::bits::lemma_usize_pow2_no_overflow;
use vstd::prelude::*;
use vstd::string::StrSliceExecFns;

verus! {

/// Whether `c` names a single-qubit state.
pub open spec fn is_symbol(c: char) -> bool {
    c == '0' || c == '1' || c == '+' || c == '-'
}

/// The two amplitudes of the single-qubit state that `c` names.
pub open spec fn symbol_vector(c: char) -> Seq<Complex64> {
    if c == '0' {
        seq![one_value(), zero_value()]
    } else if c == '1' {
        seq![zero_value(), one_value()]
    } else if c == '+' {
        seq![inv_sqrt2_value(), inv_sqrt2_value()]
    } else {
        seq![inv_sqrt2_value(), neg_inv_sqrt2_value()]
    }
}

/// The amplitudes that a specification stands for, before normalization:
/// the vector of its first character, tensored with the vector of the rest.
pub open spec fn basis_vector(s: Seq<char>) -> Seq<Complex64>
    decreases s.len(),
{
    if s.len() == 0 {
        seq![one_value()]
    } else {
        tensored(symbol_vector(s[0]), basis_vector(s.drop_first()))
    }
}

/// Why a specification is refused, if it is: it is empty, it holds a
/// character that names no state, it has more characters than a machine
/// word has bits, or its vector is degenerate.
pub open spec fn ket_error(s: Seq<char>) -> Option<QError> {
    if s.len() == 0 {
        Some(QError::EmptyKet)
    } else if exists|i: int| 0 <= i < s.len() && !is_symbol(s[i]) {
        Some(QError::UnknownSymbol)
    } else if s.len() >= usize::BITS {
        Some(QError::InvalidLength)
    } else if is_degenerate(basis_vector(s)) {
        Some(QError::DegenerateState)
    } else {
        None
    }
}

/// The vector of a specification of `k` characters has two to the `k`
/// amplitudes.
pub proof fn lemma_basis_vector_len(s: Seq<char>)
    ensures
        basis_vector(s).len() == pow2(s.len()),
    decreases s.len(),
{
    lemma2_to64();
    if s.len() > 0 {
        lemma_basis_vector_len(s.drop_first());
        lemma_pow2_unfold(s.len());
        assert(symbol_vector(s[0]).len() == 2);
    }
}

fn symbol_amplitudes(c: char) -> (r: Amplitudes)
    requires
        is_symbol(c),
    ensures
        r@ == symbol_vector(c),
{
    let mut v: Vec<Complex64> = Vec::with_capacity(2);
    if c == '0' {
        v.push(amplitude(1, 0));
        v.push(amplitude(0, 0));
    } else if c == '1' {
        v.push(amplitude(0, 0));
        v.push(amplitude(1, 0));
    } else if c == '+' {
        v.push(inv_sqrt2());
        v.push(inv_sqrt2());
    } else {
        v.push(inv_sqrt2());
        v.push(neg_inv_sqrt2());
    }
    assert(v@ =~= symbol_vector(c));
    Amplitudes::from_vec(v)
}

/// The register that the specification `vecstring` stands for: `0` and `1`
/// are the basis values of a qubit, `+` and `-` their normalized sum and
/// difference. The rightmost character is qubit 0.
pub fn ket(vecstring: &str) -> (r: Result<QReg, QError>)
    ensures
        failure(r) == ket_error(vecstring@),
        r matches Ok(q) ==> q.wf() && q.qubits() == vecstring@.len() && q@ == normalized(
            basis_vector(vecstring@),
        ),
{
    let n = vecstring.unicode_len();
    if n == 0 {
        return Err(QError::EmptyKet);
    }
    let mut i: usize = 0;
    while i < n
        invariant
            n == vecstring@.len(),
            i <= n,
            forall|k: int| 0 <= k < i ==> is_symbol(vecstring@[k]),
        decreases n - i,
    {
        let c = vecstring.get_char(i);
        if !(c == '0' || c == '1' || c == '+' || c == '-') {
            return Err(QError::UnknownSymbol);
        }
        i = i + 1;
    }
    if n >= usize::BITS as usize {
        return Err(QError::InvalidLength);
    }
    let mut unit: Vec<Complex64> = Vec::with_capacity(1);
    unit.push(amplitude(1, 0));
    let mut register = Amplitudes::from_vec(unit);
    let mut k: usize = n;
    proof {
        assert(vecstring@.subrange(n as int, n as int) =~= Seq::<char>::empty());
        assert(register@ =~= basis_vector(Seq::<char>::empty()));
    }
    while k > 0
        invariant
            n == vecstring@.len(),
            n < usize::BITS,
            k <= n,
            forall|j: int| 0 <= j < n ==> is_symbol(vecstring@[j]),
            register@ == basis_vector(vecstring@.subrange(k as int, n as int)),
        decreases k,
    {
        let c = vecstring.get_char(k - 1);
        let single = symbol_amplitudes(c);
        proof {
            let rest = vecstring@.subrange(k as int, n as int);
            let whole = vecstring@.subrange(k - 1, n as int);
            assert(whole.drop_first() =~= rest);
            assert(whole[0] == c);
            lemma_basis_vector_len(rest);
            lemma_pow2_unfold((n - k + 1) as nat);
            lemma_usize_pow2_no_overflow((n - k + 1) as nat);
        }
        register = kron(&single, &register);
        k = k - 1;
    }
    proof {
        assert(vecstring@.subrange(0, n as int) =~= vecstring@);
        lemma_basis_vector_len(vecstring@);
    }
    let r = QReg::from_array(register);
    proof {
        if r is Ok {
            r->Ok_0.lemma_width_of(n as nat);
        }
    }
    r
}

} // verus!
