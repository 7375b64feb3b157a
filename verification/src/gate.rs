//! Gate matrices and the named gates.
//!
//! A matrix is written row by row. A single-qubit gate acts on the pair of
//! amplitudes whose indices differ in the target bit, the one with the bit
//! at zero first. A two-qubit gate acts on the four amplitudes whose indices
//! differ in the target and control bits, in the order: both zero, target
//! one, control one, both one.

use crate::scalar::amplitude;
use crate::scalar::amplitude_value;
use crate::scalar::cx_add;
use crate::scalar::cx_mul;
use crate::scalar::inv_sqrt2;
use crate::scalar::inv_sqrt2_value;
use crate::scalar::neg_inv_sqrt2;
use crate::scalar::neg_inv_sqrt2_value;
use crate::scalar::one_value;
use crate::scalar::product_of;
use crate::scalar::sum_of;
use crate::scalar::zero_value;
use num_complex::Complex64;
use vstd::prelude::*;

verus! {

/// The matrix of a single-qubit gate: two rows of two entries.
#[derive(Clone, Copy)]
pub struct Gate1 {
    pub m: [[Complex64; 2]; 2],
}

/// The matrix of a two-qubit gate: four rows of four entries.
#[derive(Clone, Copy)]
pub struct Gate2 {
    pub m: [[Complex64; 4]; 4],
}

/// Row `r` of a two-by-two matrix applied to the column vector `(qi, qj)`:
/// the first product plus the second.
pub open spec fn pair_row_image(
    g: Seq<Seq<Complex64>>,
    r: int,
    qi: Complex64,
    qj: Complex64,
) -> Complex64 {
    sum_of(product_of(g[r][0], qi), product_of(g[r][1], qj))
}

/// A two-by-two matrix applied to the column vector `(qi, qj)`.
pub open spec fn pair_image(g: Seq<Seq<Complex64>>, qi: Complex64, qj: Complex64) -> (
    Complex64,
    Complex64,
) {
    (pair_row_image(g, 0, qi, qj), pair_row_image(g, 1, qi, qj))
}

/// Row `r` of a four-by-four matrix applied to the column vector `q`: the
/// four products, added from the left.
pub open spec fn quad_row_image(g: Seq<Seq<Complex64>>, r: int, q: Seq<Complex64>) -> Complex64 {
    sum_of(
        sum_of(
            sum_of(product_of(g[r][0], q[0]), product_of(g[r][1], q[1])),
            product_of(g[r][2], q[2]),
        ),
        product_of(g[r][3], q[3]),
    )
}

/// A four-by-four matrix applied to the column vector `q` of four
/// amplitudes.
pub open spec fn quad_image(g: Seq<Seq<Complex64>>, q: Seq<Complex64>) -> Seq<Complex64> {
    seq![
        quad_row_image(g, 0, q),
        quad_row_image(g, 1, q),
        quad_row_image(g, 2, q),
        quad_row_image(g, 3, q),
    ]
}

impl View for Gate1 {
    type V = Seq<Seq<Complex64>>;

    /// The rows of the matrix.
    open spec fn view(&self) -> Seq<Seq<Complex64>> {
        seq![self.m@[0]@, self.m@[1]@]
    }
}

impl View for Gate2 {
    type V = Seq<Seq<Complex64>>;

    /// The rows of the matrix.
    open spec fn view(&self) -> Seq<Seq<Complex64>> {
        seq![self.m@[0]@, self.m@[1]@, self.m@[2]@, self.m@[3]@]
    }
}

impl Gate1 {
    /// The matrix applied to the column vector `(qi, qj)`.
    pub fn apply(&self, qi: Complex64, qj: Complex64) -> (r: (Complex64, Complex64))
        ensures
            r == pair_image(self@, qi, qj),
    {
        let m = &self.m;
        (
            cx_add(cx_mul(m[0][0], qi), cx_mul(m[0][1], qj)),
            cx_add(cx_mul(m[1][0], qi), cx_mul(m[1][1], qj)),
        )
    }
}

impl Gate2 {
    fn apply_row(&self, r: usize, q: &[Complex64; 4]) -> (x: Complex64)
        requires
            r < 4,
        ensures
            x == quad_row_image(self@, r as int, q@),
    {
        let row = &self.m[r];
        cx_add(
            cx_add(cx_add(cx_mul(row[0], q[0]), cx_mul(row[1], q[1])), cx_mul(row[2], q[2])),
            cx_mul(row[3], q[3]),
        )
    }

    /// The matrix applied to the column vector `q`.
    pub fn apply(&self, q: &[Complex64; 4]) -> (r: [Complex64; 4])
        ensures
            r@ == quad_image(self@, q@),
    {
        let r = [
            self.apply_row(0, q),
            self.apply_row(1, q),
            self.apply_row(2, q),
            self.apply_row(3, q),
        ];
        assert(r@ =~= quad_image(self@, q@));
        r
    }
}

/// The identity on one qubit.
pub open spec fn identity() -> Seq<Seq<Complex64>> {
    seq![seq![one_value(), zero_value()], seq![zero_value(), one_value()]]
}

/// Pauli-X: the two amplitudes of a pair change places.
pub open spec fn pauli_x() -> Seq<Seq<Complex64>> {
    seq![seq![zero_value(), one_value()], seq![one_value(), zero_value()]]
}

/// Pauli-Y.
pub open spec fn pauli_y() -> Seq<Seq<Complex64>> {
    seq![seq![zero_value(), amplitude_value(0, -1)], seq![amplitude_value(0, 1), zero_value()]]
}

/// Pauli-Z: the sign of the second amplitude of a pair changes.
pub open spec fn pauli_z() -> Seq<Seq<Complex64>> {
    seq![seq![one_value(), zero_value()], seq![zero_value(), amplitude_value(-1, 0)]]
}

/// Hadamard.
pub open spec fn hadamard() -> Seq<Seq<Complex64>> {
    seq![
        seq![inv_sqrt2_value(), inv_sqrt2_value()],
        seq![inv_sqrt2_value(), neg_inv_sqrt2_value()],
    ]
}

/// The phase gate S.
pub open spec fn phase() -> Seq<Seq<Complex64>> {
    seq![seq![one_value(), zero_value()], seq![zero_value(), amplitude_value(0, 1)]]
}

/// Controlled-NOT: the identity with its last two rows exchanged.
pub open spec fn controlled_not() -> Seq<Seq<Complex64>> {
    seq![
        seq![one_value(), zero_value(), zero_value(), zero_value()],
        seq![zero_value(), one_value(), zero_value(), zero_value()],
        seq![zero_value(), zero_value(), zero_value(), one_value()],
        seq![zero_value(), zero_value(), one_value(), zero_value()],
    ]
}

/// Controlled-Phase: the identity with its last entry negated.
pub open spec fn controlled_phase() -> Seq<Seq<Complex64>> {
    seq![
        seq![one_value(), zero_value(), zero_value(), zero_value()],
        seq![zero_value(), one_value(), zero_value(), zero_value()],
        seq![zero_value(), zero_value(), one_value(), zero_value()],
        seq![zero_value(), zero_value(), zero_value(), amplitude_value(-1, 0)],
    ]
}

/// The identity on one qubit.
pub fn i_gate() -> (g: Gate1)
    ensures
        g@ == identity(),
{
    let zero = amplitude(0, 0);
    let one = amplitude(1, 0);
    let g = Gate1 { m: [[one, zero], [zero, one]] };
    assert(g.m@[0]@ =~= identity()[0] && g.m@[1]@ =~= identity()[1]);
    g
}

/// Pauli-X.
pub fn x_gate() -> (g: Gate1)
    ensures
        g@ == pauli_x(),
{
    let zero = amplitude(0, 0);
    let one = amplitude(1, 0);
    let g = Gate1 { m: [[zero, one], [one, zero]] };
    assert(g.m@[0]@ =~= pauli_x()[0] && g.m@[1]@ =~= pauli_x()[1]);
    g
}

/// Pauli-Y.
pub fn y_gate() -> (g: Gate1)
    ensures
        g@ == pauli_y(),
{
    let zero = amplitude(0, 0);
    let g = Gate1 { m: [[zero, amplitude(0, -1)], [amplitude(0, 1), zero]] };
    assert(g.m@[0]@ =~= pauli_y()[0] && g.m@[1]@ =~= pauli_y()[1]);
    g
}

/// Pauli-Z.
pub fn z_gate() -> (g: Gate1)
    ensures
        g@ == pauli_z(),
{
    let zero = amplitude(0, 0);
    let g = Gate1 { m: [[amplitude(1, 0), zero], [zero, amplitude(-1, 0)]] };
    assert(g.m@[0]@ =~= pauli_z()[0] && g.m@[1]@ =~= pauli_z()[1]);
    g
}

/// Hadamard.
pub fn h_gate() -> (g: Gate1)
    ensures
        g@ == hadamard(),
{
    let s = inv_sqrt2();
    let g = Gate1 { m: [[s, s], [s, neg_inv_sqrt2()]] };
    assert(g.m@[0]@ =~= hadamard()[0] && g.m@[1]@ =~= hadamard()[1]);
    g
}

/// The phase gate S.
pub fn s_gate() -> (g: Gate1)
    ensures
        g@ == phase(),
{
    let zero = amplitude(0, 0);
    let g = Gate1 { m: [[amplitude(1, 0), zero], [zero, amplitude(0, 1)]] };
    assert(g.m@[0]@ =~= phase()[0] && g.m@[1]@ =~= phase()[1]);
    g
}

/// Controlled-NOT.
pub fn cnot_gate() -> (g: Gate2)
    ensures
        g@ == controlled_not(),
{
    let o = amplitude(0, 0);
    let l = amplitude(1, 0);
    let g = Gate2 { m: [[l, o, o, o], [o, l, o, o], [o, o, o, l], [o, o, l, o]] };
    assert(g.m@[0]@ =~= controlled_not()[0] && g.m@[1]@ =~= controlled_not()[1]);
    assert(g.m@[2]@ =~= controlled_not()[2] && g.m@[3]@ =~= controlled_not()[3]);
    g
}

/// Controlled-Phase.
pub fn cphase_gate() -> (g: Gate2)
    ensures
        g@ == controlled_phase(),
{
    let o = amplitude(0, 0);
    let l = amplitude(1, 0);
    let g = Gate2 { m: [[l, o, o, o], [o, l, o, o], [o, o, l, o], [o, o, o, amplitude(-1, 0)]] };
    assert(g.m@[0]@ =~= controlled_phase()[0] && g.m@[1]@ =~= controlled_phase()[1]);
    assert(g.m@[2]@ =~= controlled_phase()[2] && g.m@[3]@ =~= controlled_phase()[3]);
    g
}

} // verus!
