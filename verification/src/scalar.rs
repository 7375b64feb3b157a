//! Amplitude arithmetic.
//!
//! An amplitude is a `Complex64` of the `num_complex` crate: two IEEE 754
//! doubles. The verifier sees no structure in such a value and does not
//! reason about doubles. What it knows of an operation is either nothing,
//! or that its result is the value that this module names after it: the
//! names below have no definition, and nothing is assumed of them but that
//! equal operands give equal results. Only operations that IEEE 754 fixes
//! bit for bit are named (up to the payload of a result that is not a
//! number). What std computes with a precision that it leaves open, a
//! magnitude, a logarithm or a power, has no name: two calls on one operand
//! may differ. Of such a result the verifier knows only that it was seen for
//! its operand, a relation with no definition either.
//!
//! A real number (a norm, a probability, a threshold, a draw) travels as an
//! amplitude whose imaginary part is zero, and the operations on reals read
//! the real part only.
//!
//! The constants at the end are built from whole numbers by named
//! operations, since the quotient of two doubles and the square root of a
//! double are correctly rounded: one over ten to the eighth, computed so,
//! is the double nearest to 1e-8.

use num_complex::Complex64;
use vstd::prelude::*;

verus! {

/// `num_complex::Complex`, of whose two parts the verifier sees nothing.
#[verifier::external_type_specification]
#[verifier::external_body]
#[verifier::reject_recursive_types(T)]
pub struct ExComplex<T>(num_complex::Complex<T>);

/// The amplitude whose real and imaginary parts are the whole numbers `re`
/// and `im`.
pub uninterp spec fn amplitude_value(re: int, im: int) -> Complex64;

/// The sum of two amplitudes: the sums of their real and of their imaginary
/// parts.
pub uninterp spec fn sum_of(a: Complex64, b: Complex64) -> Complex64;

/// The difference of two amplitudes: the differences of their real and of
/// their imaginary parts.
pub uninterp spec fn difference_of(a: Complex64, b: Complex64) -> Complex64;

/// The product of two amplitudes `(a, b)` and `(c, d)`: the real part
/// `a * c - b * d`, the imaginary part `a * d + b * c`.
pub uninterp spec fn product_of(a: Complex64, b: Complex64) -> Complex64;

/// Both parts of `a` divided by the real part of `r`.
pub uninterp spec fn quotient_by_real(a: Complex64, r: Complex64) -> Complex64;

/// The squared magnitude of `a`, as a real: the square of its real part
/// plus the square of its imaginary part.
pub uninterp spec fn norm_sqr_of(a: Complex64) -> Complex64;

/// The square root of the real part of `r`, as a real.
pub uninterp spec fn sqrt_of(r: Complex64) -> Complex64;

/// The whole number nearest to the real part of `r`, halves away from
/// zero, as a real.
pub uninterp spec fn rounded_of(r: Complex64) -> Complex64;

/// Whether the real part of `a` is less than the real part of `b`.
pub uninterp spec fn real_below(a: Complex64, b: Complex64) -> bool;

/// Whether the real parts of `a` and `b` are equal as doubles.
pub uninterp spec fn real_equal(a: Complex64, b: Complex64) -> bool;

/// The real part of `a`, as a real.
pub uninterp spec fn real_part_of(a: Complex64) -> Complex64;

/// The imaginary part of `a`, as a real.
pub uninterp spec fn imag_part_of(a: Complex64) -> Complex64;

/// The absolute value of the real part of `r`, as a real.
pub uninterp spec fn abs_of(r: Complex64) -> Complex64;

/// The least whole number not below the real part of `r`, as a real.
pub uninterp spec fn ceil_of(r: Complex64) -> Complex64;

/// The real part of `r` cast to a 32-bit integer.
pub uninterp spec fn truncated_of(r: Complex64) -> i32;

/// The text that `Display` writes for the real part of `r`.
pub uninterp spec fn real_text_of(r: Complex64) -> Seq<char>;

/// Whether `m` is a magnitude that was computed for `a`.
pub uninterp spec fn magnitude_seen(a: Complex64, m: Complex64) -> bool;

/// Whether `l` is a base-10 logarithm that was computed for the real part
/// of `r`.
pub uninterp spec fn log10_seen(r: Complex64, l: Complex64) -> bool;

/// Whether `p` is a value that was computed for the real part of `base`
/// raised to the power `k`.
pub uninterp spec fn powi_seen(base: Complex64, k: i32, p: Complex64) -> bool;

/// `Complex64::new` on two 32-bit integers, each converted to a double,
/// which loses nothing. The result is a function of the two integers.
#[verifier::external_body]
pub(crate) fn amplitude(re: i32, im: i32) -> (a: Complex64)
    ensures
        a == amplitude_value(re as int, im as int),
{
    Complex64::new(re.into(), im.into())
}

/// `Complex64 + Complex64`: two additions of doubles, so the result is a
/// function of the operands.
#[verifier::external_body]
pub(crate) fn cx_add(a: Complex64, b: Complex64) -> (c: Complex64)
    ensures
        c == sum_of(a, b),
{
    a + b
}

/// `Complex64 - Complex64`: two subtractions of doubles, so the result is
/// a function of the operands.
#[verifier::external_body]
pub(crate) fn cx_sub(a: Complex64, b: Complex64) -> (c: Complex64)
    ensures
        c == difference_of(a, b),
{
    a - b
}

/// `Complex64 * Complex64`: four multiplications, a subtraction and an
/// addition of doubles, so the result is a function of the operands.
#[verifier::external_body]
pub(crate) fn cx_mul(a: Complex64, b: Complex64) -> (c: Complex64)
    ensures
        c == product_of(a, b),
{
    a * b
}

/// `Complex64 / f64` with the real part of `r` as the divisor: two
/// divisions of doubles, so the result is a function of the operands. A
/// division of doubles by zero does not panic.
#[verifier::external_body]
pub(crate) fn cx_div_real(a: Complex64, r: Complex64) -> (c: Complex64)
    ensures
        c == quotient_by_real(a, r),
{
    a / r.re
}

/// `Complex64::norm_sqr`: two multiplications and an addition of doubles,
/// so the result is a function of the operand.
#[verifier::external_body]
pub(crate) fn norm_sqr(a: Complex64) -> (r: Complex64)
    ensures
        r == norm_sqr_of(a),
{
    Complex64::from(a.norm_sqr())
}

/// `Complex64::norm`, the magnitude of `a`, as a real. It is computed by
/// `hypot`, whose precision std leaves open, so the result is not claimed
/// to be a function of the operand: only that it was seen for it.
#[verifier::external_body]
pub(crate) fn magnitude(a: Complex64) -> (m: Complex64)
    ensures
        magnitude_seen(a, m),
{
    Complex64::from(a.norm())
}

/// The field `re` of `a`, as a real: a function of the operand.
#[verifier::external_body]
pub(crate) fn real_part(a: Complex64) -> (r: Complex64)
    ensures
        r == real_part_of(a),
{
    Complex64::from(a.re)
}

/// The field `im` of `a`, as a real: a function of the operand.
#[verifier::external_body]
pub(crate) fn imag_part(a: Complex64) -> (r: Complex64)
    ensures
        r == imag_part_of(a),
{
    Complex64::from(a.im)
}

/// `f64::sqrt` of the real part of `r`, which is correctly rounded, so the
/// result is a function of the operand.
#[verifier::external_body]
pub(crate) fn real_sqrt(r: Complex64) -> (s: Complex64)
    ensures
        s == sqrt_of(r),
{
    Complex64::from(r.re.sqrt())
}

/// `f64::round` of the real part of `r`, which is exact, so the result is
/// a function of the operand.
#[verifier::external_body]
pub(crate) fn real_round(r: Complex64) -> (s: Complex64)
    ensures
        s == rounded_of(r),
{
    Complex64::from(r.re.round())
}

/// `<` on the real parts, which is false whenever either is not a number.
#[verifier::external_body]
pub(crate) fn real_lt(a: Complex64, b: Complex64) -> (r: bool)
    ensures
        r == real_below(a, b),
{
    a.re < b.re
}

/// `==` on the real parts, which is false whenever either is not a number.
#[verifier::external_body]
pub(crate) fn real_eq(a: Complex64, b: Complex64) -> (r: bool)
    ensures
        r == real_equal(a, b),
{
    a.re == b.re
}

/// `f64::abs` of the real part of `r`, as a real. It clears the sign, so
/// the result is a function of the operand.
#[verifier::external_body]
pub(crate) fn real_abs(r: Complex64) -> (s: Complex64)
    ensures
        s == abs_of(r),
{
    Complex64::from(r.re.abs())
}

/// `f64::ceil` of the real part of `r`, as a real, which is exact, so the
/// result is a function of the operand.
#[verifier::external_body]
pub(crate) fn real_ceil(r: Complex64) -> (s: Complex64)
    ensures
        s == ceil_of(r),
{
    Complex64::from(r.re.ceil())
}

/// `f64::log10` of the real part of `r`, as a real. std leaves its
/// precision open, so the result is not claimed to be a function of the
/// operand: only that it was seen for it.
#[verifier::external_body]
pub(crate) fn real_log10(r: Complex64) -> (l: Complex64)
    ensures
        log10_seen(r, l),
{
    Complex64::from(r.re.log10())
}

/// `f64::powi` of the real part of `base`, as a real. std leaves its
/// precision open, so the result is not claimed to be a function of the
/// operands: only that it was seen for them.
#[verifier::external_body]
pub(crate) fn real_powi(base: Complex64, k: i32) -> (p: Complex64)
    ensures
        powi_seen(base, k, p),
{
    Complex64::from(base.re.powi(k))
}

/// The cast of the real part of `r` to a 32-bit integer: towards zero, to
/// the nearest bound for what lies outside, to zero for what is not a
/// number. It never panics, and the result is a function of the operand.
#[verifier::external_body]
pub(crate) fn real_to_i32(r: Complex64) -> (k: i32)
    ensures
        k == truncated_of(r),
{
    r.re as i32
}

/// The real part of `r` as `Display` writes a double: a text that depends
/// on the double alone.
#[verifier::external_body]
pub(crate) fn real_text(r: Complex64) -> (s: String)
    ensures
        s@ == real_text_of(r),
{
    format!("{}", r.re)
}

/// Whether `mags` holds, index by index, a magnitude that was computed for
/// the amplitude of `v` at that index.
pub open spec fn magnitudes_seen(v: Seq<Complex64>, mags: Seq<Complex64>) -> bool {
    &&& mags.len() == v.len()
    &&& forall|i: int| 0 <= i < v.len() ==> magnitude_seen(v[i], #[trigger] mags[i])
}

/// Zero.
pub open spec fn zero_value() -> Complex64 {
    amplitude_value(0, 0)
}

/// One.
pub open spec fn one_value() -> Complex64 {
    amplitude_value(1, 0)
}

/// One over the square root of two: the square root of one half.
pub open spec fn inv_sqrt2_value() -> Complex64 {
    sqrt_of(quotient_by_real(one_value(), amplitude_value(2, 0)))
}

/// Minus one over the square root of two: zero less the above.
pub open spec fn neg_inv_sqrt2_value() -> Complex64 {
    difference_of(zero_value(), inv_sqrt2_value())
}

/// The pruning threshold, one over ten to the eighth (1e-8): a group of
/// amplitudes whose magnitudes sum to less is left alone by a gate, and an
/// amplitude whose magnitude is not above it is left out of the rendering.
pub open spec fn prune_threshold_value() -> Complex64 {
    quotient_by_real(one_value(), amplitude_value(100_000_000, 0))
}

/// The degeneracy threshold, one over ten to the tenth (1e-10): a state
/// can be normalized only if its norm is above it.
pub open spec fn degeneracy_threshold_value() -> Complex64 {
    quotient_by_real(
        one_value(),
        product_of(amplitude_value(100_000, 0), amplitude_value(100_000, 0)),
    )
}

/// The closeness tolerance, one over ten to the fifth (1e-5): two
/// amplitudes are close when the magnitude of their difference is below it.
pub open spec fn closeness_tolerance_value() -> Complex64 {
    quotient_by_real(one_value(), amplitude_value(100_000, 0))
}

/// Zero.
pub fn zero() -> (a: Complex64)
    ensures
        a == zero_value(),
{
    amplitude(0, 0)
}

/// One.
pub fn one() -> (a: Complex64)
    ensures
        a == one_value(),
{
    amplitude(1, 0)
}

/// One over the square root of two.
pub fn inv_sqrt2() -> (a: Complex64)
    ensures
        a == inv_sqrt2_value(),
{
    real_sqrt(cx_div_real(amplitude(1, 0), amplitude(2, 0)))
}

/// Minus one over the square root of two.
pub fn neg_inv_sqrt2() -> (a: Complex64)
    ensures
        a == neg_inv_sqrt2_value(),
{
    cx_sub(amplitude(0, 0), inv_sqrt2())
}

/// The pruning threshold.
pub fn prune_threshold() -> (a: Complex64)
    ensures
        a == prune_threshold_value(),
{
    cx_div_real(amplitude(1, 0), amplitude(100_000_000, 0))
}

/// The degeneracy threshold.
pub fn degeneracy_threshold() -> (a: Complex64)
    ensures
        a == degeneracy_threshold_value(),
{
    cx_div_real(amplitude(1, 0), cx_mul(amplitude(100_000, 0), amplitude(100_000, 0)))
}

/// The closeness tolerance.
pub fn closeness_tolerance() -> (a: Complex64)
    ensures
        a == closeness_tolerance_value(),
{
    cx_div_real(amplitude(1, 0), amplitude(100_000, 0))
}

} // verus!
