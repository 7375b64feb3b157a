//! Projective measurement of one qubit.
//!
//! A measurement weighs the amplitudes whose index has the qubit at zero,
//! lets a uniform draw from the unit interval decide the outcome, sets every
//! amplitude that disagrees with the outcome to zero and brings the norm
//! back to one.

use crate::bits::bit_of;
use crate::bits::bit_set;
use crate::error::failure;
use crate::error::QError;
use crate::qreg::is_degenerate;
use crate::qreg::l2_norm;
use crate::qreg::normalized;
use crate::qreg::normalized_copy;
use crate::qreg::QReg;
use crate::random::draw_seen;
use crate::random::draw_unit;
use crate::scalar::cx_add;
use crate::scalar::norm_sqr;
use crate::scalar::norm_sqr_of;
use crate::scalar::quotient_by_real;
use crate::scalar::real_below;
use crate::scalar::real_lt;
use crate::scalar::sum_of;
use crate::scalar::zero;
use crate::scalar::zero_value;
use crate::store::Amplitudes;
use num_complex::Complex64;
use rand::rngs::StdRng;
use vstd::prelude::*;

verus! {

/// The squared magnitudes of those of the first `k` amplitudes of `v` whose
/// index has bit `qubit` at zero, added one by one in index order, starting
/// from zero.
pub open spec fn zero_weight(v: Seq<Complex64>, qubit: usize, k: nat) -> Complex64
    decreases k,
{
    if k == 0 {
        zero_value()
    } else {
        let before = zero_weight(v, qubit, (k - 1) as nat);
        if bit_set((k - 1) as usize, qubit) {
            before
        } else {
            sum_of(before, norm_sqr_of(v[k - 1]))
        }
    }
}

/// The probability of finding `qubit` at zero in the state `v`.
pub open spec fn prob_zero(v: Seq<Complex64>, qubit: usize) -> Complex64 {
    zero_weight(v, qubit, v.len())
}

/// The outcome that `draw` decides in the state `v`: zero if the draw is
/// below the probability of zero, else one.
pub open spec fn outcome_of(v: Seq<Complex64>, qubit: usize, draw: Complex64) -> usize {
    if real_below(draw, prob_zero(v, qubit)) {
        0
    } else {
        1
    }
}

/// Why the measurement of `qubit` that `draw` decides is refused in the
/// state `v` of `qubits` qubits, if it is: there is no such qubit, or the
/// branch of the outcome is empty.
pub open spec fn measure_error(
    v: Seq<Complex64>,
    qubits: nat,
    qubit: usize,
    draw: Complex64,
) -> Option<QError> {
    if qubit >= qubits {
        Some(QError::QubitOutOfRange)
    } else if is_degenerate(collapsed(v, qubit, outcome_of(v, qubit, draw))) {
        Some(QError::DegenerateState)
    } else {
        None
    }
}

/// `v` with every amplitude set to zero whose index has at bit `qubit`
/// another value than `outcome`.
pub open spec fn collapsed(v: Seq<Complex64>, qubit: usize, outcome: usize) -> Seq<Complex64> {
    Seq::new(
        v.len(),
        |idx: int|
            if bit_set(idx as usize, qubit) == (outcome == 1) {
                v[idx]
            } else {
                zero_value()
            },
    )
}

/// The state after the measurements of `qubit` that gave `outcomes`, one
/// after the other: each collapses the state before it and normalizes.
pub open spec fn measured_through(v: Seq<Complex64>, qubit: usize, outcomes: Seq<usize>) -> Seq<
    Complex64,
>
    decreases outcomes.len(),
{
    if outcomes.len() == 0 {
        v
    } else {
        normalized(
            collapsed(measured_through(v, qubit, outcomes.drop_last()), qubit, outcomes.last()),
        )
    }
}

/// Whether `outcomes` are what `draws` decide, one measurement after the
/// other: each outcome is the one that its draw decides in the state that
/// the outcomes before it have left.
pub open spec fn decided_by(
    v: Seq<Complex64>,
    qubit: usize,
    outcomes: Seq<usize>,
    draws: Seq<Complex64>,
) -> bool
    decreases outcomes.len(),
{
    &&& outcomes.len() == draws.len()
    &&& outcomes.len() > 0 ==> {
        &&& decided_by(v, qubit, outcomes.drop_last(), draws.drop_last())
        &&& outcomes.last() == outcome_of(
            measured_through(v, qubit, outcomes.drop_last()),
            qubit,
            draws.last(),
        )
    }
}

/// Whether `draws` were drawn from a generator one after the other: the
/// draw `k` took it from `states[k]` to `states[k + 1]`, the first of the
/// states being `first` and the last `last`.
pub open spec fn drawn_in_turn(
    first: StdRng,
    last: StdRng,
    states: Seq<StdRng>,
    draws: Seq<Complex64>,
) -> bool {
    &&& states.len() == draws.len() + 1
    &&& states[0] == first
    &&& states[states.len() - 1] == last
    &&& forall|k: int|
        0 <= k < draws.len() ==> draw_seen(states[k], #[trigger] draws[k], states[k + 1])
}

/// Whether a run of measurements went through: `draws`, drawn in turn from
/// the generator, decided `outcomes`.
pub open spec fn run_completed(
    v: Seq<Complex64>,
    qubit: usize,
    outcomes: Seq<usize>,
    draws: Seq<Complex64>,
    states: Seq<StdRng>,
    first: StdRng,
    last: StdRng,
) -> bool {
    &&& decided_by(v, qubit, outcomes, draws)
    &&& drawn_in_turn(first, last, states, draws)
}

/// Whether a run of at most `ntimes` measurements broke off: after the
/// outcomes `outcomes`, which `draws` decided and none of which met an empty
/// branch, there was a measurement still to make, and `draw` decided for it
/// an outcome whose branch is empty. The draws, `draw` being the last, were
/// drawn in turn from the generator.
pub open spec fn run_broke_off(
    v: Seq<Complex64>,
    qubit: usize,
    ntimes: nat,
    outcomes: Seq<usize>,
    draws: Seq<Complex64>,
    draw: Complex64,
    states: Seq<StdRng>,
    first: StdRng,
    last: StdRng,
) -> bool {
    let state = measured_through(v, qubit, outcomes);
    &&& outcomes.len() < ntimes
    &&& decided_by(v, qubit, outcomes, draws)
    &&& !degenerate_through(v, qubit, outcomes)
    &&& is_degenerate(collapsed(state, qubit, outcome_of(state, qubit, draw)))
    &&& drawn_in_turn(first, last, states, draws.push(draw))
}

/// Whether one of the measurements that gave `outcomes` met a state that
/// could not be normalized after its collapse.
pub open spec fn degenerate_through(v: Seq<Complex64>, qubit: usize, outcomes: Seq<usize>) -> bool
    decreases outcomes.len(),
{
    if outcomes.len() == 0 {
        false
    } else {
        degenerate_through(v, qubit, outcomes.drop_last()) || is_degenerate(
            collapsed(measured_through(v, qubit, outcomes.drop_last()), qubit, outcomes.last()),
        )
    }
}

/// A measurement leaves nothing of the branch that disagrees with its
/// outcome: after it, every amplitude whose index has another value at
/// `qubit` is zero divided by the norm, and every other amplitude is what it
/// was, divided by the norm.
pub proof fn lemma_collapse_clears(v: Seq<Complex64>, qubit: usize, outcome: usize, idx: int)
    requires
        0 <= idx < v.len(),
    ensures
        normalized(collapsed(v, qubit, outcome)).len() == v.len(),
        normalized(collapsed(v, qubit, outcome))[idx] == quotient_by_real(
            if bit_set(idx as usize, qubit) == (outcome == 1) {
                v[idx]
            } else {
                zero_value()
            },
            l2_norm(collapsed(v, qubit, outcome)),
        ),
{
}

/// The probability of finding `qubit` at zero.
pub(crate) fn weigh_zero(v: &Amplitudes, qubit: usize) -> (p: Complex64)
    requires
        qubit < usize::BITS,
    ensures
        p == prob_zero(v@, qubit),
{
    let len = v.len();
    let mut acc = zero();
    let mut idx: usize = 0;
    while idx < len
        invariant
            qubit < usize::BITS,
            len == v@.len(),
            idx <= len,
            acc == zero_weight(v@, qubit, idx as nat),
        decreases len - idx,
    {
        if !bit_of(idx, qubit) {
            acc = cx_add(acc, norm_sqr(v.get(idx)));
        }
        idx = idx + 1;
    }
    acc
}

/// One measurement of `qubit` in the state `v`, decided by `draw`: the
/// outcome and the state after it.
pub(crate) fn measure_step(v: &Amplitudes, qubit: usize, draw: Complex64) -> (r: Result<
    (usize, Amplitudes),
    QError,
>)
    requires
        qubit < usize::BITS,
    ensures
        match r {
            Ok((outcome, next)) => {
                &&& outcome == outcome_of(v@, qubit, draw)
                &&& !is_degenerate(collapsed(v@, qubit, outcome))
                &&& next@ == normalized(collapsed(v@, qubit, outcome))
            },
            Err(e) => {
                &&& e == QError::DegenerateState
                &&& is_degenerate(collapsed(v@, qubit, outcome_of(v@, qubit, draw)))
            },
        },
{
    let prob0 = weigh_zero(v, qubit);
    let outcome: usize = if real_lt(draw, prob0) {
        0
    } else {
        1
    };
    let len = v.len();
    let mut kept: Vec<Complex64> = Vec::with_capacity(len);
    let mut idx: usize = 0;
    while idx < len
        invariant
            qubit < usize::BITS,
            len == v@.len(),
            idx <= len,
            outcome == 0 || outcome == 1,
            kept@.len() == idx,
            forall|k: int| 0 <= k < idx ==> kept@[k] == collapsed(v@, qubit, outcome)[k],
        decreases len - idx,
    {
        let value = if bit_of(idx, qubit) == (outcome == 1) {
            v.get(idx)
        } else {
            zero()
        };
        kept.push(value);
        idx = idx + 1;
    }
    assert(kept@ =~= collapsed(v@, qubit, outcome));
    let projected = Amplitudes::from_vec(kept);
    match normalized_copy(&projected) {
        Ok(w) => Ok((outcome, Amplitudes::from_vec(w))),
        Err(e) => Err(e),
    }
}

impl QReg {
    /// Measure `qubit` once, with `draw` as the uniform draw that decides:
    /// the outcome is zero if the draw is below the probability of zero,
    /// else one, and the state collapses to it. A refused call leaves the
    /// register as it was.
    pub fn measure_with(&mut self, qubit: usize, draw: Complex64) -> (r: Result<usize, QError>)
        ensures
            final(self).wf(),
            final(self).qubits() == old(self).qubits(),
            failure(r) == measure_error(old(self)@, old(self).qubits(), qubit, draw),
            r is Err ==> final(self)@ == old(self)@,
            r matches Ok(outcome) ==> outcome == outcome_of(old(self)@, qubit, draw)
                && final(self)@ == normalized(collapsed(old(self)@, qubit, outcome)),
    {
        proof {
            use_type_invariant(&*self);
        }
        if qubit >= self.n() {
            return Err(QError::QubitOutOfRange);
        }
        match measure_step(self.store(), qubit, draw) {
            Ok((outcome, next)) => {
                self.replace_store(next);
                Ok(outcome)
            },
            Err(e) => Err(e),
        }
    }

    /// Measure `qubit` `ntimes` times, one after the other, each time with
    /// a fresh draw from `rng`, collapsing the state each time. The
    /// outcomes come back in order. A call is refused if there is no such
    /// qubit, or if one of the draws decides an outcome whose branch is
    /// empty; a refused call leaves the register as it was. One draw is
    /// made for each measurement, up to the one that is refused, and none
    /// for a qubit out of range.
    pub fn measure(&mut self, qubit: usize, ntimes: usize, rng: &mut StdRng) -> (r: Result<
        Vec<usize>,
        QError,
    >)
        ensures
            final(self).wf(),
            final(self).qubits() == old(self).qubits(),
            qubit >= old(self).qubits() ==> failure(r) == Some(QError::QubitOutOfRange),
            qubit < old(self).qubits() ==> failure(r) == None::<QError> || failure(r) == Some(
                QError::DegenerateState,
            ),
            qubit < old(self).qubits() && ntimes == 0 ==> r is Ok,
            qubit < old(self).qubits() && r is Err ==> exists|
                outcomes: Seq<usize>,
                draws: Seq<Complex64>,
                draw: Complex64,
                states: Seq<StdRng>,
            | #[trigger]
                run_broke_off(
                    old(self)@,
                    qubit,
                    ntimes as nat,
                    outcomes,
                    draws,
                    draw,
                    states,
                    *old(rng),
                    *final(rng),
                ),
            qubit >= old(self).qubits() || ntimes == 0 ==> *final(rng) == *old(rng),
            r is Err ==> final(self)@ == old(self)@,
            r matches Ok(outcomes) ==> ({
                &&& outcomes@.len() == ntimes
                &&& forall|k: int|
                    0 <= k < outcomes@.len() ==> outcomes@[k] == 0 || outcomes@[k] == 1
                &&& exists|draws: Seq<Complex64>, states: Seq<StdRng>| #[trigger]
                    run_completed(
                        old(self)@,
                        qubit,
                        outcomes@,
                        draws,
                        states,
                        *old(rng),
                        *final(rng),
                    )
                &&& !degenerate_through(old(self)@, qubit, outcomes@)
                &&& final(self)@ == measured_through(old(self)@, qubit, outcomes@)
            }),
    {
        proof {
            use_type_invariant(&*self);
        }
        if qubit >= self.n() {
            return Err(QError::QubitOutOfRange);
        }
        let mut outcomes: Vec<usize> = Vec::with_capacity(ntimes);
        let mut state = Amplitudes::from_vec(self.amplitudes());
        let ghost mut draws: Seq<Complex64> = Seq::empty();
        let ghost untouched = *rng;
        let ghost mut states: Seq<StdRng> = seq![untouched];
        let mut done: usize = 0;
        while done < ntimes
            invariant
                self.wf(),
                untouched == *old(rng),
                done == 0 ==> *rng == untouched,
                drawn_in_turn(untouched, *rng, states, draws),
                qubit < self.qubits(),
                qubit < usize::BITS,
                done <= ntimes,
                outcomes@.len() == done,
                forall|k: int| 0 <= k < outcomes@.len() ==> outcomes@[k] == 0 || outcomes@[k] == 1,
                decided_by(self@, qubit, outcomes@, draws),
                !degenerate_through(self@, qubit, outcomes@),
                state@ == measured_through(self@, qubit, outcomes@),
                state@.len() == self@.len(),
            decreases ntimes - done,
        {
            let ghost before = *rng;
            let draw = draw_unit(rng);
            proof {
                let longer = states.push(*rng);
                assert forall|k: int| 0 <= k < draws.len() + 1 implies draw_seen(
                    longer[k],
                    #[trigger] draws.push(draw)[k],
                    longer[k + 1],
                ) by {
                    if k < draws.len() {
                        assert(draw_seen(states[k], draws[k], states[k + 1]));
                    }
                }
                assert(drawn_in_turn(untouched, *rng, longer, draws.push(draw)));
            }
            match measure_step(&state, qubit, draw) {
                Ok((outcome, next)) => {
                    proof {
                        let longer = outcomes@.push(outcome);
                        assert(longer.drop_last() =~= outcomes@);
                        assert(longer.last() == outcome);
                        assert(draws.push(draw).drop_last() =~= draws);
                        draws = draws.push(draw);
                        states = states.push(*rng);
                    }
                    outcomes.push(outcome);
                    state = next;
                },
                Err(e) => {
                    assert(run_broke_off(
                        self@,
                        qubit,
                        ntimes as nat,
                        outcomes@,
                        draws,
                        draw,
                        states.push(*rng),
                        untouched,
                        *rng,
                    ));
                    return Err(e);
                },
            }
            done = done + 1;
        }
        assert(run_completed(self@, qubit, outcomes@, draws, states, untouched, *rng));
        self.replace_store(state);
        Ok(outcomes)
    }
}

} // verus!
