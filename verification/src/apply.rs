//! Gate application.
//!
//! A single-qubit gate partitions the indices into pairs `{i, j}` that
//! differ in the target bit; a two-qubit gate partitions them into
//! quadruples `{i, j, k, l}` that differ in the target and control bits.
//! The smallest index of a group is its canonical one. The unit of work of a
//! canonical index computes the new amplitudes of its whole group from the
//! old vector; the unit of work of any other index computes nothing. The
//! units run in parallel, and their results are then written to a fresh
//! vector that takes the place of the old one.

use crate::bits::bit_of;
use crate::bits::bit_set;
use crate::bits::conjugate_index;
use crate::bits::flipped;
use crate::bits::lemma_flip_bits;
use crate::bits::lemma_flip_in_range;
use crate::bits::lemma_flip_involution;
use crate::bits::lemma_flip_order;
use crate::error::failure;
use crate::error::QError;
use crate::gate::cnot_gate;
use crate::gate::controlled_not;
use crate::gate::controlled_phase;
use crate::gate::hadamard;
use crate::gate::pauli_x;
use crate::gate::pauli_y;
use crate::gate::pauli_z;
use crate::gate::phase;
use crate::gate::cphase_gate;
use crate::gate::h_gate;
use crate::gate::pair_image;
use crate::gate::quad_image;
use crate::gate::s_gate;
use crate::gate::x_gate;
use crate::gate::y_gate;
use crate::gate::z_gate;
use crate::gate::Gate1;
use crate::gate::Gate2;
use crate::parallel::par_pair_updates;
use crate::parallel::par_quad_updates;
use crate::partition::lemma_pair_members;
use crate::partition::lemma_pairs_partition;
use crate::partition::lemma_quad_members;
use crate::partition::lemma_quads_partition;
use crate::partition::pair_owner;
use crate::partition::quad_owner;
use crate::partition::quad_place;
use crate::qreg::QReg;
use crate::scalar::cx_add;
use crate::scalar::magnitude;
use crate::scalar::magnitude_seen;
use crate::scalar::magnitudes_seen;
use crate::scalar::prune_threshold;
use crate::scalar::prune_threshold_value;
use crate::scalar::real_below;
use crate::scalar::real_lt;
use crate::scalar::sum_of;
use crate::store::Amplitudes;
use num_complex::Complex64;
use vstd::arithmetic::power2::pow2;
use vstd::prelude::*;

verus! {

/// Why a single-qubit gate on `target` is refused in a register of `qubits`
/// qubits, if it is.
pub open spec fn single_error(qubits: nat, target: usize) -> Option<QError> {
    if target >= qubits {
        Some(QError::QubitOutOfRange)
    } else {
        None
    }
}

/// Why a two-qubit gate on `control` and `target` is refused in a register
/// of `qubits` qubits, if it is.
pub open spec fn double_error(qubits: nat, control: usize, target: usize) -> Option<QError> {
    if control >= qubits || target >= qubits {
        Some(QError::QubitOutOfRange)
    } else if control == target {
        Some(QError::SameQubit)
    } else {
        None
    }
}

/// The two amplitudes of the pair of `i`, the one at `i` first.
pub open spec fn pair_of(v: Seq<Complex64>, i: usize, target: usize) -> (Complex64, Complex64) {
    (v[i as int], v[flipped(i, target) as int])
}

/// The four amplitudes of the quadruple of `i`, in the order of the matrix
/// columns.
pub open spec fn quad_of(v: Seq<Complex64>, i: usize, control: usize, target: usize) -> Seq<
    Complex64,
> {
    let j = flipped(i, target);
    seq![
        v[i as int],
        v[j as int],
        v[flipped(i, control) as int],
        v[flipped(j, control) as int],
    ]
}

/// Whether a pair is negligible, given the magnitudes of its two
/// amplitudes: their sum is below the pruning threshold.
pub open spec fn pair_pruned(m: (Complex64, Complex64)) -> bool {
    real_below(sum_of(m.0, m.1), prune_threshold_value())
}

/// Whether a quadruple is negligible, given the magnitudes of its four
/// amplitudes: their sum, added from the left, is below the pruning
/// threshold.
pub open spec fn quad_pruned(m: Seq<Complex64>) -> bool {
    real_below(sum_of(sum_of(sum_of(m[0], m[1]), m[2]), m[3]), prune_threshold_value())
}

/// What a pair becomes: itself if it is negligible, else its image.
pub open spec fn pair_result(
    g: Seq<Seq<Complex64>>,
    q: (Complex64, Complex64),
    negligible: bool,
) -> (Complex64, Complex64) {
    if negligible {
        q
    } else {
        pair_image(g, q.0, q.1)
    }
}

/// What a quadruple becomes: itself if it is negligible, else its image.
pub open spec fn quad_result(g: Seq<Seq<Complex64>>, q: Seq<Complex64>, negligible: bool) -> Seq<
    Complex64,
> {
    if negligible {
        q
    } else {
        quad_image(g, q)
    }
}

/// The state after a single-qubit gate on `target`, where `mags[x]` is the
/// magnitude that was found for the amplitude `v[x]`: every pair has become
/// what [`pair_result`] says.
pub open spec fn gate1_result(
    v: Seq<Complex64>,
    g: Seq<Seq<Complex64>>,
    target: usize,
    mags: Seq<Complex64>,
) -> Seq<Complex64> {
    Seq::new(
        v.len(),
        |x: int|
            {
                let c = pair_owner(x as usize, target);
                let negligible = pair_pruned(pair_of(mags, c, target));
                let p = pair_result(g, pair_of(v, c, target), negligible);
                if bit_set(x as usize, target) {
                    p.1
                } else {
                    p.0
                }
            },
    )
}

/// The state after a two-qubit gate on `control` and `target`, where
/// `mags[x]` is the magnitude that was found for the amplitude `v[x]`: every
/// quadruple has become what [`quad_result`] says.
pub open spec fn gate2_result(
    v: Seq<Complex64>,
    g: Seq<Seq<Complex64>>,
    control: usize,
    target: usize,
    mags: Seq<Complex64>,
) -> Seq<Complex64> {
    Seq::new(
        v.len(),
        |x: int|
            {
                let c = quad_owner(x as usize, control, target);
                quad_result(
                    g,
                    quad_of(v, c, control, target),
                    quad_pruned(quad_of(mags, c, control, target)),
                )[quad_place(x as usize, control, target)]
            },
    )
}

/// `new_v` is `old_v` after a single-qubit gate on `target`, for the
/// magnitudes that were computed for the amplitudes of `old_v`, whatever
/// they came to.
pub open spec fn gate1_applied(
    old_v: Seq<Complex64>,
    new_v: Seq<Complex64>,
    g: Seq<Seq<Complex64>>,
    target: usize,
) -> bool {
    exists|mags: Seq<Complex64>|
        magnitudes_seen(old_v, mags) && new_v == #[trigger] gate1_result(old_v, g, target, mags)
}

/// `new_v` is `old_v` after a two-qubit gate on `control` and `target`, for
/// the magnitudes that were computed for the amplitudes of `old_v`, whatever
/// they came to.
pub open spec fn gate2_applied(
    old_v: Seq<Complex64>,
    new_v: Seq<Complex64>,
    g: Seq<Seq<Complex64>>,
    control: usize,
    target: usize,
) -> bool {
    exists|mags: Seq<Complex64>|
        magnitudes_seen(old_v, mags) && new_v == #[trigger] gate2_result(
            old_v,
            g,
            control,
            target,
            mags,
        )
}

/// Whether a pair was rightly weighed: `m` holds a magnitude computed for
/// each of its two amplitudes, and `negligible` is what they decide.
pub open spec fn pair_weighed(
    q: (Complex64, Complex64),
    negligible: bool,
    m: (Complex64, Complex64),
) -> bool {
    &&& magnitude_seen(q.0, m.0)
    &&& magnitude_seen(q.1, m.1)
    &&& negligible == pair_pruned(m)
}

/// Whether a quadruple was rightly weighed: `m` holds a magnitude computed
/// for each of its four amplitudes, and `negligible` is what they decide.
pub open spec fn quad_weighed(q: Seq<Complex64>, negligible: bool, m: Seq<Complex64>) -> bool {
    &&& magnitude_seen(q[0], m[0])
    &&& magnitude_seen(q[1], m[1])
    &&& magnitude_seen(q[2], m[2])
    &&& magnitude_seen(q[3], m[3])
    &&& negligible == quad_pruned(m)
}

/// What the unit of work of a canonical index `i` hands back when the
/// magnitudes computed for its pair are `m`: nothing for a negligible pair,
/// else the image of the pair.
pub open spec fn pair_decided(
    v: Seq<Complex64>,
    g: Seq<Seq<Complex64>>,
    target: usize,
    i: usize,
    r: Option<(Complex64, Complex64)>,
    m: (Complex64, Complex64),
) -> bool {
    &&& magnitude_seen(v[i as int], m.0)
    &&& magnitude_seen(v[flipped(i, target) as int], m.1)
    &&& r == (if pair_pruned(m) {
        None
    } else {
        Some(pair_image(g, v[i as int], v[flipped(i, target) as int]))
    })
}

/// What the unit of work of a canonical index `i` hands back when the
/// magnitudes computed for its quadruple are `m`: nothing for a negligible
/// quadruple, else the image of the quadruple.
pub open spec fn quad_decided(
    v: Seq<Complex64>,
    g: Seq<Seq<Complex64>>,
    control: usize,
    target: usize,
    i: usize,
    r: Option<[Complex64; 4]>,
    m: Seq<Complex64>,
) -> bool {
    let q = quad_of(v, i, control, target);
    &&& magnitude_seen(q[0], m[0])
    &&& magnitude_seen(q[1], m[1])
    &&& magnitude_seen(q[2], m[2])
    &&& magnitude_seen(q[3], m[3])
    &&& if quad_pruned(m) {
        r is None
    } else {
        r is Some && r->Some_0@ == quad_image(g, q)
    }
}

/// What the unit of work of index `i` hands back for a single-qubit gate:
/// nothing if `i` is not canonical, else what the magnitudes of its pair
/// decide.
pub open spec fn pair_outcome(
    v: Seq<Complex64>,
    g: Seq<Seq<Complex64>>,
    target: usize,
    i: usize,
    r: Option<(Complex64, Complex64)>,
) -> bool {
    if bit_set(i, target) {
        r is None
    } else {
        exists|m: (Complex64, Complex64)| #[trigger] pair_decided(v, g, target, i, r, m)
    }
}

/// What the unit of work of index `i` hands back for a two-qubit gate:
/// nothing if `i` is not canonical, else what the magnitudes of its
/// quadruple decide.
pub open spec fn quad_outcome(
    v: Seq<Complex64>,
    g: Seq<Seq<Complex64>>,
    control: usize,
    target: usize,
    i: usize,
    r: Option<[Complex64; 4]>,
) -> bool {
    if bit_set(i, target) || bit_set(i, control) {
        r is None
    } else {
        exists|m: Seq<Complex64>| #[trigger] quad_decided(v, g, control, target, i, r, m)
    }
}

/// The amplitude at `x` after the units of work have handed back `updates`.
spec fn pair_scattered(
    v: Seq<Complex64>,
    updates: Seq<Option<(Complex64, Complex64)>>,
    target: usize,
    x: usize,
) -> Complex64 {
    match updates[pair_owner(x, target) as int] {
        Some(p) => if bit_set(x, target) {
            p.1
        } else {
            p.0
        },
        None => v[x as int],
    }
}

/// The amplitude at `x` after the units of work have handed back `updates`.
spec fn quad_scattered(
    v: Seq<Complex64>,
    updates: Seq<Option<[Complex64; 4]>>,
    control: usize,
    target: usize,
    x: usize,
) -> Complex64 {
    match updates[quad_owner(x, control, target) as int] {
        Some(q) => q@[quad_place(x, control, target)],
        None => v[x as int],
    }
}

/// The magnitudes behind `updates`: for each index, the magnitude that its
/// owner's unit of work found at its place.
spec fn pair_magnitudes(
    v: Seq<Complex64>,
    g: Seq<Seq<Complex64>>,
    target: usize,
    updates: Seq<Option<(Complex64, Complex64)>>,
) -> Seq<Complex64> {
    Seq::new(
        v.len(),
        |x: int|
            {
                let c = pair_owner(x as usize, target);
                let m = choose|m: (Complex64, Complex64)|
                    pair_decided(v, g, target, c, updates[c as int], m);
                if bit_set(x as usize, target) {
                    m.1
                } else {
                    m.0
                }
            },
    )
}

/// The magnitudes behind `updates`: for each index, the magnitude that its
/// owner's unit of work found at its place.
spec fn quad_magnitudes(
    v: Seq<Complex64>,
    g: Seq<Seq<Complex64>>,
    control: usize,
    target: usize,
    updates: Seq<Option<[Complex64; 4]>>,
) -> Seq<Complex64> {
    Seq::new(
        v.len(),
        |x: int|
            {
                let c = quad_owner(x as usize, control, target);
                let m = choose|m: Seq<Complex64>|
                    quad_decided(v, g, control, target, c, updates[c as int], m);
                m[quad_place(x as usize, control, target)]
            },
    )
}

/// A gate leaves every pair as it was or turns it into its image.
pub proof fn lemma_pairs_rewritten(
    v: Seq<Complex64>,
    g: Seq<Seq<Complex64>>,
    target: usize,
    n: usize,
    mags: Seq<Complex64>,
    i: usize,
)
    requires
        n < usize::BITS,
        target < n,
        v.len() == pow2(n as nat),
        i < v.len(),
        !bit_set(i, target),
    ensures
        ({
            let w = gate1_result(v, g, target, mags);
            ||| pair_of(w, i, target) == pair_of(v, i, target)
            ||| pair_of(w, i, target) == pair_image(g, v[i as int], v[flipped(i, target) as int])
        }),
{
    lemma_pair_members(i, target, n);
}

/// A gate leaves every quadruple as it was or turns it into its image.
pub proof fn lemma_quads_rewritten(
    v: Seq<Complex64>,
    g: Seq<Seq<Complex64>>,
    control: usize,
    target: usize,
    n: usize,
    mags: Seq<Complex64>,
    i: usize,
)
    requires
        n < usize::BITS,
        target < n,
        control < n,
        control != target,
        v.len() == pow2(n as nat),
        i < v.len(),
        !bit_set(i, target),
        !bit_set(i, control),
    ensures
        ({
            let w = gate2_result(v, g, control, target, mags);
            ||| quad_of(w, i, control, target) == quad_of(v, i, control, target)
            ||| quad_of(w, i, control, target) == quad_image(g, quad_of(v, i, control, target))
        }),
{
    lemma_quad_members(i, control, target, n);
    let w = gate2_result(v, g, control, target, mags);
    let q = quad_of(v, i, control, target);
    if quad_pruned(quad_of(mags, i, control, target)) {
        assert(quad_of(w, i, control, target) =~= q);
    } else {
        assert(quad_of(w, i, control, target) =~= quad_image(g, q));
    }
}

/// Whether a pair is negligible, from the magnitudes computed for its two
/// amplitudes: their sum is below the pruning threshold.
pub fn pair_negligible_given(mi: Complex64, mj: Complex64, threshold: Complex64) -> (r: bool)
    requires
        threshold == prune_threshold_value(),
    ensures
        r == pair_pruned((mi, mj)),
{
    real_lt(cx_add(mi, mj), threshold)
}

/// Whether a quadruple is negligible, from the magnitudes computed for its
/// four amplitudes: their sum, added from the left, is below the pruning
/// threshold.
pub fn quad_negligible_given(m: &[Complex64; 4], threshold: Complex64) -> (r: bool)
    requires
        threshold == prune_threshold_value(),
    ensures
        r == quad_pruned(m@),
{
    real_lt(cx_add(cx_add(cx_add(m[0], m[1]), m[2]), m[3]), threshold)
}

/// Whether the pair `(qi, qj)` is negligible, by the magnitudes of its two
/// amplitudes.
pub(crate) fn pair_negligible(qi: Complex64, qj: Complex64, threshold: Complex64) -> (r: bool)
    requires
        threshold == prune_threshold_value(),
    ensures
        exists|m: (Complex64, Complex64)| #[trigger] pair_weighed((qi, qj), r, m),
{
    let mi = magnitude(qi);
    let mj = magnitude(qj);
    let r = pair_negligible_given(mi, mj, threshold);
    assert(pair_weighed((qi, qj), r, (mi, mj)));
    r
}

/// Whether the quadruple `q` is negligible, by the magnitudes of its four
/// amplitudes.
pub(crate) fn quad_negligible(q: &[Complex64; 4], threshold: Complex64) -> (r: bool)
    requires
        threshold == prune_threshold_value(),
    ensures
        exists|m: Seq<Complex64>| #[trigger] quad_weighed(q@, r, m),
{
    let m = [magnitude(q[0]), magnitude(q[1]), magnitude(q[2]), magnitude(q[3])];
    let r = quad_negligible_given(&m, threshold);
    assert(quad_weighed(q@, r, m@));
    r
}

/// The new amplitudes of a pair: none if the pair is negligible, else the
/// image of the pair under the matrix.
pub fn pair_after(g: &Gate1, qi: Complex64, qj: Complex64, negligible: bool) -> (r: Option<
    (Complex64, Complex64),
>)
    ensures
        r == (if negligible {
            None
        } else {
            Some(pair_image(g@, qi, qj))
        }),
{
    if negligible {
        None
    } else {
        Some(g.apply(qi, qj))
    }
}

/// The new amplitudes of a quadruple: none if the quadruple is negligible,
/// else the image of the quadruple under the matrix.
pub fn quad_after(g: &Gate2, q: &[Complex64; 4], negligible: bool) -> (r: Option<[Complex64; 4]>)
    ensures
        negligible ==> r is None,
        !negligible ==> r is Some && r->Some_0@ == quad_image(g@, q@),
{
    if negligible {
        None
    } else {
        Some(g.apply(q))
    }
}

/// The unit of work of index `i` for a single-qubit gate on `target`.
pub(crate) fn pair_update(
    v: &Amplitudes,
    g: &Gate1,
    target: usize,
    n: usize,
    threshold: Complex64,
    i: usize,
) -> (r: Option<(Complex64, Complex64)>)
    requires
        n < usize::BITS,
        target < n,
        v@.len() == pow2(n as nat),
        i < v@.len(),
        threshold == prune_threshold_value(),
    ensures
        pair_outcome(v@, g@, target, i, r),
{
    let j = conjugate_index(i, target);
    proof {
        lemma_flip_order(i, target);
        lemma_flip_involution(i, target);
    }
    if i > j {
        return None;
    }
    proof {
        lemma_flip_in_range(i, target, n);
    }
    let qi = v.get(i);
    let qj = v.get(j);
    let negligible = pair_negligible(qi, qj, threshold);
    let r = pair_after(g, qi, qj, negligible);
    proof {
        let m = choose|m: (Complex64, Complex64)| pair_weighed((qi, qj), negligible, m);
        assert(pair_decided(v@, g@, target, i, r, m));
    }
    r
}

/// The unit of work of index `i` for a two-qubit gate on `control` and
/// `target`.
pub(crate) fn quad_update(
    v: &Amplitudes,
    g: &Gate2,
    control: usize,
    target: usize,
    n: usize,
    threshold: Complex64,
    i: usize,
) -> (r: Option<[Complex64; 4]>)
    requires
        n < usize::BITS,
        target < n,
        control < n,
        control != target,
        v@.len() == pow2(n as nat),
        i < v@.len(),
        threshold == prune_threshold_value(),
    ensures
        quad_outcome(v@, g@, control, target, i, r),
{
    let j = conjugate_index(i, target);
    proof {
        lemma_flip_order(i, target);
        lemma_flip_involution(i, target);
        lemma_flip_order(i, control);
        lemma_flip_involution(i, control);
    }
    if i > j {
        return None;
    }
    let k = conjugate_index(i, control);
    if i > k {
        return None;
    }
    let l = conjugate_index(j, control);
    proof {
        lemma_quad_members(i, control, target, n);
    }
    let q = [v.get(i), v.get(j), v.get(k), v.get(l)];
    assert(q@ =~= quad_of(v@, i, control, target));
    let negligible = quad_negligible(&q, threshold);
    let r = quad_after(g, &q, negligible);
    proof {
        let m = choose|m: Seq<Complex64>| quad_weighed(q@, negligible, m);
        assert(quad_decided(v@, g@, control, target, i, r, m));
    }
    r
}

impl QReg {
    /// Apply the single-qubit gate `m` to qubit `target`: every pair of
    /// amplitudes whose indices differ in bit `target` becomes its image
    /// under `m`, unless the pair is negligible, in which case it stays.
    /// A refused call leaves the register as it was.
    pub fn apply1q(&mut self, m: &Gate1, target: usize) -> (r: Result<(), QError>)
        ensures
            final(self).wf(),
            final(self).qubits() == old(self).qubits(),
            failure(r) == single_error(old(self).qubits(), target),
            r is Err ==> final(self)@ == old(self)@,
            r is Ok ==> gate1_applied(old(self)@, final(self)@, m@, target),
    {
        proof {
            use_type_invariant(&*self);
        }
        let n = self.n();
        if target >= n {
            return Err(QError::QubitOutOfRange);
        }
        let len = self.len();
        let updates = par_pair_updates(self.store(), m, target, n, prune_threshold());
        let mut out: Vec<Complex64> = Vec::with_capacity(len);
        let mut x: usize = 0;
        while x < len
            invariant
                n < usize::BITS,
                target < n,
                len == self@.len(),
                len == pow2(n as nat),
                updates@.len() == len,
                x <= len,
                out@.len() == x,
                forall|k: usize|
                    k < x ==> out@[k as int] == #[trigger] pair_scattered(
                        self@,
                        updates@,
                        target,
                        k,
                    ),
            decreases len - x,
        {
            proof {
                lemma_pairs_partition(x, target, n);
            }
            let high = bit_of(x, target);
            let owner = if high {
                conjugate_index(x, target)
            } else {
                x
            };
            let value = match updates[owner] {
                Some(p) => if high {
                    p.1
                } else {
                    p.0
                },
                None => self.amp(x),
            };
            out.push(value);
            x = x + 1;
        }
        proof {
            let old_v = self@;
            let mags = pair_magnitudes(old_v, m@, target, updates@);
            let after = gate1_result(old_v, m@, target, mags);
            assert forall|x: int|
                #![trigger out@[x]]
                #![trigger mags[x]]
                0 <= x < len implies out@[x] == after[x] && magnitude_seen(old_v[x], mags[x]) by {
                let c = pair_owner(x as usize, target);
                lemma_pairs_partition(x as usize, target, n);
                lemma_pair_members(c, target, n);
                assert(out@[x] == pair_scattered(old_v, updates@, target, x as usize));
                assert(pair_outcome(old_v, m@, target, c, updates@[c as int]));
                let w = choose|w: (Complex64, Complex64)|
                    pair_decided(old_v, m@, target, c, updates@[c as int], w);
                assert(pair_of(mags, c, target) == w);
            }
            assert(out@ =~= after);
            assert(magnitudes_seen(old_v, mags));
        }
        self.replace(out);
        Ok(())
    }

    /// Apply the two-qubit gate `m` to the qubits `control` and `target`:
    /// every quadruple of amplitudes whose indices differ in these two bits
    /// becomes its image under `m`, unless the quadruple is negligible, in
    /// which case it stays. A refused call leaves the register as it was.
    pub fn apply2q(&mut self, m: &Gate2, control: usize, target: usize) -> (r: Result<(), QError>)
        ensures
            final(self).wf(),
            final(self).qubits() == old(self).qubits(),
            failure(r) == double_error(old(self).qubits(), control, target),
            r is Err ==> final(self)@ == old(self)@,
            r is Ok ==> gate2_applied(old(self)@, final(self)@, m@, control, target),
    {
        proof {
            use_type_invariant(&*self);
        }
        let n = self.n();
        if control >= n || target >= n {
            return Err(QError::QubitOutOfRange);
        }
        if control == target {
            return Err(QError::SameQubit);
        }
        let len = self.len();
        let updates = par_quad_updates(self.store(), m, control, target, n, prune_threshold());
        let mut out: Vec<Complex64> = Vec::with_capacity(len);
        let mut x: usize = 0;
        while x < len
            invariant
                n < usize::BITS,
                target < n,
                control < n,
                control != target,
                len == self@.len(),
                len == pow2(n as nat),
                updates@.len() == len,
                x <= len,
                out@.len() == x,
                forall|k: usize|
                    k < x ==> out@[k as int] == #[trigger] quad_scattered(
                        self@,
                        updates@,
                        control,
                        target,
                        k,
                    ),
            decreases len - x,
        {
            proof {
                lemma_pairs_partition(x, target, n);
                lemma_pairs_partition(pair_owner(x, target), control, n);
                lemma_flip_bits(x, target, control);
            }
            let t_high = bit_of(x, target);
            let c_high = bit_of(x, control);
            let below = if t_high {
                conjugate_index(x, target)
            } else {
                x
            };
            let owner = if c_high {
                conjugate_index(below, control)
            } else {
                below
            };
            let place: usize = (if c_high {
                2usize
            } else {
                0usize
            }) + (if t_high {
                1usize
            } else {
                0usize
            });
            let value = match updates[owner] {
                Some(q) => q[place],
                None => self.amp(x),
            };
            out.push(value);
            x = x + 1;
        }
        proof {
            let old_v = self@;
            let mags = quad_magnitudes(old_v, m@, control, target, updates@);
            let after = gate2_result(old_v, m@, control, target, mags);
            assert forall|x: int|
                #![trigger out@[x]]
                #![trigger mags[x]]
                0 <= x < len implies out@[x] == after[x] && magnitude_seen(old_v[x], mags[x]) by {
                let c = quad_owner(x as usize, control, target);
                lemma_quads_partition(x as usize, control, target, n);
                lemma_quad_members(c, control, target, n);
                assert(out@[x] == quad_scattered(old_v, updates@, control, target, x as usize));
                assert(quad_outcome(old_v, m@, control, target, c, updates@[c as int]));
                let w = choose|w: Seq<Complex64>|
                    quad_decided(old_v, m@, control, target, c, updates@[c as int], w);
                let found = quad_of(mags, c, control, target);
                assert(found[0] == w[0] && found[1] == w[1] && found[2] == w[2] && found[3]
                    == w[3]);
            }
            assert(out@ =~= after);
            assert(magnitudes_seen(old_v, mags));
        }
        self.replace(out);
        Ok(())
    }

    /// The register after the single-qubit gate `m` on qubit `target`.
    fn gated1(self, m: &Gate1, target: usize) -> (r: Result<Self, QError>)
        ensures
            failure(r) == single_error(self.qubits(), target),
            r matches Ok(q) ==> q.wf() && q.qubits() == self.qubits() && gate1_applied(
                self@,
                q@,
                m@,
                target,
            ),
    {
        let mut q = self;
        match q.apply1q(m, target) {
            Ok(()) => Ok(q),
            Err(e) => Err(e),
        }
    }

    /// The register after the two-qubit gate `m` on the qubits `control`
    /// and `target`.
    fn gated2(self, m: &Gate2, control: usize, target: usize) -> (r: Result<Self, QError>)
        ensures
            failure(r) == double_error(self.qubits(), control, target),
            r matches Ok(q) ==> q.wf() && q.qubits() == self.qubits() && gate2_applied(
                self@,
                q@,
                m@,
                control,
                target,
            ),
    {
        let mut q = self;
        match q.apply2q(m, control, target) {
            Ok(()) => Ok(q),
            Err(e) => Err(e),
        }
    }

    /// Apply the Pauli-X gate to the target qubit.
    pub fn x(self, target: usize) -> (r: Result<Self, QError>)
        ensures
            failure(r) == single_error(self.qubits(), target),
            r matches Ok(q) ==> q.wf() && q.qubits() == self.qubits() && gate1_applied(
                self@,
                q@,
                pauli_x(),
                target,
            ),
    {
        self.gated1(&x_gate(), target)
    }

    /// Apply the Pauli-Y gate to the target qubit.
    pub fn y(self, target: usize) -> (r: Result<Self, QError>)
        ensures
            failure(r) == single_error(self.qubits(), target),
            r matches Ok(q) ==> q.wf() && q.qubits() == self.qubits() && gate1_applied(
                self@,
                q@,
                pauli_y(),
                target,
            ),
    {
        self.gated1(&y_gate(), target)
    }

    /// Apply the Pauli-Z gate to the target qubit.
    pub fn z(self, target: usize) -> (r: Result<Self, QError>)
        ensures
            failure(r) == single_error(self.qubits(), target),
            r matches Ok(q) ==> q.wf() && q.qubits() == self.qubits() && gate1_applied(
                self@,
                q@,
                pauli_z(),
                target,
            ),
    {
        self.gated1(&z_gate(), target)
    }

    /// Apply the Hadamard gate to the target qubit.
    pub fn h(self, target: usize) -> (r: Result<Self, QError>)
        ensures
            failure(r) == single_error(self.qubits(), target),
            r matches Ok(q) ==> q.wf() && q.qubits() == self.qubits() && gate1_applied(
                self@,
                q@,
                hadamard(),
                target,
            ),
    {
        self.gated1(&h_gate(), target)
    }

    /// Apply the phase gate S to the target qubit.
    pub fn s(self, target: usize) -> (r: Result<Self, QError>)
        ensures
            failure(r) == single_error(self.qubits(), target),
            r matches Ok(q) ==> q.wf() && q.qubits() == self.qubits() && gate1_applied(
                self@,
                q@,
                phase(),
                target,
            ),
    {
        self.gated1(&s_gate(), target)
    }

    /// Apply the controlled-NOT gate.
    pub fn cnot(self, control: usize, target: usize) -> (r: Result<Self, QError>)
        ensures
            failure(r) == double_error(self.qubits(), control, target),
            r matches Ok(q) ==> q.wf() && q.qubits() == self.qubits() && gate2_applied(
                self@,
                q@,
                controlled_not(),
                control,
                target,
            ),
    {
        self.gated2(&cnot_gate(), control, target)
    }

    /// Apply the controlled-phase gate.
    pub fn cphase(self, control: usize, target: usize) -> (r: Result<Self, QError>)
        ensures
            failure(r) == double_error(self.qubits(), control, target),
            r matches Ok(q) ==> q.wf() && q.qubits() == self.qubits() && gate2_applied(
                self@,
                q@,
                controlled_phase(),
                control,
                target,
            ),
    {
        self.gated2(&cphase_gate(), control, target)
    }
}

} // verus!
