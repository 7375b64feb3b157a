//! Basis-state indices seen as bit strings: bit `b` of an index is the value
//! of qubit `b` in that basis state.

use crate::error::failure;
use crate::error::QError;
use vstd::arithmetic::div_mod::lemma_div_denominator;
use vstd::arithmetic::div_mod::lemma_fundamental_div_mod;
use vstd::arithmetic::logarithm::lemma_log0;
use vstd::arithmetic::logarithm::lemma_log_s;
use vstd::arithmetic::logarithm::log;
use vstd::arithmetic::power2::lemma2_to64;
use vstd::arithmetic::power2::lemma_pow2_pos;
use vstd::arithmetic::power2::lemma_pow2_strictly_increases;
use vstd::arithmetic::power2::lemma_pow2_unfold;
use vstd::arithmetic::power2::pow2;
use vstd::bits::lemma_usize_shl_is_mul;
use vstd::prelude::*;

verus! {

/// The index that differs from `i` in bit `b` and in no other bit.
pub open spec fn flipped(i: usize, b: usize) -> usize {
    i ^ (1usize << b)
}

/// Whether bit `b` of `i` is one.
pub open spec fn bit_set(i: usize, b: usize) -> bool {
    (i >> b) & 1 == 1
}

/// Whether `len` is the length of a register: a power of two, one at least.
pub open spec fn is_register_length(len: nat) -> bool {
    exists|n: nat| len == pow2(n)
}

/// `pow2` is above every machine word from the word's width on.
pub proof fn lemma_pow2_bounds_width(n: nat)
    requires
        pow2(n) <= usize::MAX,
    ensures
        n < usize::BITS,
{
    if n >= usize::BITS {
        lemma2_to64();
        if n > usize::BITS {
            lemma_pow2_strictly_increases(usize::BITS as nat, n);
        }
    }
}

/// A one shifted left by `n` is two to the `n`.
pub proof fn lemma_shift_is_pow2(n: usize)
    requires
        n < usize::BITS,
    ensures
        (1usize << n) == pow2(n as nat),
{
    vstd::bits::lemma_usize_pow2_no_overflow(n as nat);
    lemma_usize_shl_is_mul(1usize, n);
}

/// Only one exponent fits a length between two neighbouring powers of two.
pub proof fn lemma_pow2_between(n: nat, m: nat)
    requires
        pow2(n) <= pow2(m) < 2 * pow2(n),
    ensures
        m == n,
{
    lemma_pow2_unfold(n + 1);
    if m < n {
        lemma_pow2_strictly_increases(m, n);
    }
    if m > n {
        if m > n + 1 {
            lemma_pow2_strictly_increases(n + 1, m);
        }
    }
}

/// The number of qubits of a state vector of length `vl`: the logarithm of
/// `vl` to the base two, rounded down. There is none for length zero.
pub fn nqubits(vl: usize) -> (r: Result<usize, QError>)
    ensures
        failure(r) == (if vl == 0 {
            Some(QError::InvalidLength)
        } else {
            None
        }),
        r matches Ok(n) ==> n == log(2, vl as int) && pow2(n as nat) <= vl < 2 * pow2(n as nat),
{
    if vl == 0 {
        return Err(QError::InvalidLength);
    }
    let mut n: usize = 0;
    let mut rest: usize = vl;
    proof {
        lemma2_to64();
    }
    while rest > 1
        invariant
            rest >= 1,
            rest == vl as nat / pow2(n as nat),
            pow2(n as nat) <= vl,
            n + log(2, rest as int) == log(2, vl as int),
        decreases rest,
    {
        proof {
            lemma_pow2_pos(n as nat);
            lemma_pow2_unfold((n + 1) as nat);
            lemma_div_denominator(vl as int, pow2(n as nat) as int, 2);
            lemma_pow2_bounds_width(n as nat);
            lemma_log_s(2, rest as int);
            let d = pow2((n + 1) as nat) as int;
            lemma_fundamental_div_mod(vl as int, d);
            assert(vl as int / d >= 1);
            assert(d * (vl as int / d) >= d) by (nonlinear_arith)
                requires
                    vl as int / d >= 1,
                    d > 0,
            ;
        }
        rest = rest / 2;
        n = n + 1;
    }
    proof {
        let d = pow2(n as nat) as int;
        lemma_pow2_pos(n as nat);
        lemma_fundamental_div_mod(vl as int, d);
        lemma_log0(2, rest as int);
    }
    Ok(n)
}

/// The number of qubits of a register of `len` amplitudes, when `len` is
/// the length of a register.
pub fn register_width(len: usize) -> (r: Result<usize, QError>)
    ensures
        failure(r) == (if is_register_length(len as nat) {
            None
        } else {
            Some(QError::InvalidLength)
        }),
        r matches Ok(n) ==> len == pow2(n as nat) && n < usize::BITS,
{
    match nqubits(len) {
        Err(e) => {
            proof {
                assert forall|n: nat| len != pow2(n) by {
                    lemma_pow2_pos(n);
                }
            }
            Err(e)
        },
        Ok(n) => {
            proof {
                lemma_pow2_bounds_width(n as nat);
                lemma_shift_is_pow2(n);
            }
            if (1usize << n) == len {
                Ok(n)
            } else {
                proof {
                    assert forall|m: nat| len != pow2(m) by {
                        if len == pow2(m) {
                            lemma_pow2_between(n as nat, m);
                        }
                    }
                }
                Err(QError::InvalidLength)
            }
        },
    }
}

/// Flip bit `b` in index `i`.
pub fn conjugate_index(i: usize, b: usize) -> (j: usize)
    requires
        b < usize::BITS,
    ensures
        j == flipped(i, b),
{
    i ^ (1usize << b)
}

/// Whether bit `b` of index `i` is one.
pub fn bit_of(i: usize, b: usize) -> (r: bool)
    requires
        b < usize::BITS,
    ensures
        r == bit_set(i, b),
{
    (i >> b) & 1 == 1
}

/// Flipping a bit twice gives the index back, and once never does.
pub proof fn lemma_flip_involution(i: usize, b: usize)
    requires
        b < usize::BITS,
    ensures
        flipped(flipped(i, b), b) == i,
        flipped(i, b) != i,
{
    assert((i ^ (1usize << b)) ^ (1usize << b) == i) by (bit_vector);
    assert((i ^ (1usize << b)) != i) by (bit_vector)
        requires
            b < usize::BITS,
    ;
}

/// Flipping bit `b` changes bit `b` and leaves every other bit.
pub proof fn lemma_flip_bits(i: usize, b: usize, c: usize)
    requires
        b < usize::BITS,
        c < usize::BITS,
    ensures
        bit_set(flipped(i, b), c) == (if c == b {
            !bit_set(i, c)
        } else {
            bit_set(i, c)
        }),
{
    assert((((i ^ (1usize << b)) >> c) & 1 == 1) == (if c == b {
        !((i >> c) & 1 == 1)
    } else {
        (i >> c) & 1 == 1
    })) by (bit_vector)
        requires
            b < usize::BITS,
            c < usize::BITS,
    ;
}

/// Of an index and its flip, the smaller is the one whose bit is zero.
pub proof fn lemma_flip_order(i: usize, b: usize)
    requires
        b < usize::BITS,
    ensures
        i < flipped(i, b) <==> !bit_set(i, b),
{
    assert((i < (i ^ (1usize << b))) <==> !((i >> b) & 1 == 1)) by (bit_vector)
        requires
            b < usize::BITS,
    ;
}

/// Flips of two bits can be made in either order.
pub proof fn lemma_flip_commutes(i: usize, a: usize, b: usize)
    ensures
        flipped(flipped(i, a), b) == flipped(flipped(i, b), a),
{
    assert((i ^ (1usize << a)) ^ (1usize << b) == (i ^ (1usize << b)) ^ (1usize << a))
        by (bit_vector);
}

/// Flipping one of the `n` qubits of a register keeps the index inside it.
pub proof fn lemma_flip_in_range(i: usize, b: usize, n: usize)
    requires
        n < usize::BITS,
        b < n,
        i < pow2(n as nat),
    ensures
        flipped(i, b) < pow2(n as nat),
{
    lemma_shift_is_pow2(n);
    assert((i ^ (1usize << b)) < (1usize << n)) by (bit_vector)
        requires
            n < usize::BITS,
            b < n,
            i < (1usize << n),
    ;
}

} // verus!
