use num_complex::Complex64;
use rand::rngs::StdRng;
use rand::Rng;
use rand::SeedableRng;
use rvecsim::apply::pair_after;
use rvecsim::apply::pair_negligible_given;
use rvecsim::apply::quad_after;
use rvecsim::apply::quad_negligible_given;
use rvecsim::bits::bit_of;
use rvecsim::bits::register_width;
use rvecsim::compare::within_tolerance;
use rvecsim::conjugate_index;
use rvecsim::gate::cnot_gate;
use rvecsim::gate::cphase_gate;
use rvecsim::gate::h_gate;
use rvecsim::gate::i_gate;
use rvecsim::gate::s_gate;
use rvecsim::gate::x_gate;
use rvecsim::gate::y_gate;
use rvecsim::gate::z_gate;
use rvecsim::ket;
use rvecsim::nqubits;
use rvecsim::scalar::closeness_tolerance;
use rvecsim::scalar::degeneracy_threshold;
use rvecsim::scalar::inv_sqrt2;
use rvecsim::scalar::neg_inv_sqrt2;
use rvecsim::scalar::one;
use rvecsim::scalar::prune_threshold;
use rvecsim::scalar::zero;
use rvecsim::Gate1;
use rvecsim::Gate2;
use rvecsim::QError;
use rvecsim::QReg;
use std::f64::consts::FRAC_1_SQRT_2;

fn c(re: f64, im: f64) -> Complex64 {
    Complex64::new(re, im)
}

fn state(spec: &str) -> QReg {
    ket(spec).unwrap()
}

fn from_reals(values: &[f64]) -> QReg {
    QReg::new(values.iter().map(|x| c(*x, 0.0)).collect()).unwrap()
}

fn failure<T>(r: Result<T, QError>) -> QError {
    match r {
        Ok(_) => panic!("the call was accepted"),
        Err(e) => e,
    }
}

fn same_bits(a: &[Complex64], b: &[Complex64]) -> bool {
    a.len() == b.len()
        && a.iter().zip(b.iter()).all(|(x, y)| {
            x.re.to_bits() == y.re.to_bits() && x.im.to_bits() == y.im.to_bits()
        })
}

#[test]
fn qubit_count_is_the_floor_of_the_logarithm() {
    assert_eq!(nqubits(1), Ok(0));
    assert_eq!(nqubits(2), Ok(1));
    assert_eq!(nqubits(3), Ok(1));
    assert_eq!(nqubits(4), Ok(2));
    assert_eq!(nqubits(7), Ok(2));
    assert_eq!(nqubits(8), Ok(3));
    assert_eq!(nqubits(1023), Ok(9));
    assert_eq!(nqubits(1024), Ok(10));
    assert_eq!(nqubits(usize::MAX), Ok(usize::BITS as usize - 1));
}

#[test]
fn qubit_count_of_nothing_is_refused() {
    assert_eq!(nqubits(0), Err(QError::InvalidLength));
}

#[test]
fn register_width_takes_powers_of_two_only() {
    assert_eq!(register_width(1), Ok(0));
    assert_eq!(register_width(2), Ok(1));
    assert_eq!(register_width(64), Ok(6));
    assert_eq!(register_width(0), Err(QError::InvalidLength));
    assert_eq!(register_width(3), Err(QError::InvalidLength));
    assert_eq!(register_width(6), Err(QError::InvalidLength));
    assert_eq!(register_width(usize::MAX), Err(QError::InvalidLength));
}

#[test]
fn flipping_a_bit_is_xor_with_its_mask() {
    assert_eq!(conjugate_index(0, 3), 8);
    assert_eq!(conjugate_index(8, 3), 0);
    assert_eq!(conjugate_index(0b1011, 2), 0b1111);
    assert_eq!(conjugate_index(0b1111, 0), 0b1110);
    let top = usize::BITS as usize - 1;
    assert_eq!(conjugate_index(0, top), 1usize << top);
    for i in 0..32usize {
        for b in 0..5usize {
            assert_eq!(conjugate_index(conjugate_index(i, b), b), i);
            assert_eq!(conjugate_index(i, b), i ^ (1 << b));
            assert_eq!(bit_of(conjugate_index(i, b), b), !bit_of(i, b));
        }
    }
}

#[test]
fn bit_of_reads_one_bit() {
    assert!(bit_of(0b100, 2));
    assert!(!bit_of(0b100, 1));
    assert!(!bit_of(0b100, 3));
    assert!(bit_of(usize::MAX, usize::BITS as usize - 1));
}

#[test]
fn pairs_partition_the_indices() {
    for target in 0..4usize {
        let mut seen = vec![0u32; 16];
        for i in 0..16usize {
            let j = conjugate_index(i, target);
            if i < j {
                seen[i] += 1;
                seen[j] += 1;
            }
        }
        assert!(seen.iter().all(|&n| n == 1));
    }
}

#[test]
fn quadruples_partition_the_indices() {
    for control in 0..4usize {
        for target in 0..4usize {
            if control == target {
                continue;
            }
            let mut seen = vec![0u32; 16];
            for i in 0..16usize {
                let j = conjugate_index(i, target);
                let k = conjugate_index(i, control);
                if i <= j && i <= k {
                    let l = conjugate_index(j, control);
                    assert!(i < l);
                    for x in [i, j, k, l] {
                        seen[x] += 1;
                    }
                }
            }
            assert!(seen.iter().all(|&n| n == 1));
        }
    }
}

#[test]
fn constants_have_their_values() {
    assert!(same_bits(&[zero()], &[c(0.0, 0.0)]));
    assert!(same_bits(&[one()], &[c(1.0, 0.0)]));
    assert!(same_bits(&[inv_sqrt2()], &[c(FRAC_1_SQRT_2, 0.0)]));
    assert!(same_bits(&[neg_inv_sqrt2()], &[c(-FRAC_1_SQRT_2, 0.0)]));
    assert!(same_bits(&[prune_threshold()], &[c(1e-8, 0.0)]));
    assert!(same_bits(&[degeneracy_threshold()], &[c(1e-10, 0.0)]));
    assert!(same_bits(&[closeness_tolerance()], &[c(1e-5, 0.0)]));
}

#[test]
fn named_gates_have_their_entries() {
    let o = c(0.0, 0.0);
    let l = c(1.0, 0.0);
    let s = c(FRAC_1_SQRT_2, 0.0);
    assert!(same_bits(&i_gate().m.concat(), &[l, o, o, l]));
    assert!(same_bits(&x_gate().m.concat(), &[o, l, l, o]));
    assert!(same_bits(&y_gate().m.concat(), &[o, c(0.0, -1.0), c(0.0, 1.0), o]));
    assert!(same_bits(&z_gate().m.concat(), &[l, o, o, c(-1.0, 0.0)]));
    assert!(same_bits(&h_gate().m.concat(), &[s, s, s, c(-FRAC_1_SQRT_2, 0.0)]));
    assert!(same_bits(&s_gate().m.concat(), &[l, o, o, c(0.0, 1.0)]));
    assert!(same_bits(
        &cnot_gate().m.concat(),
        &[l, o, o, o, o, l, o, o, o, o, o, l, o, o, l, o]
    ));
    assert!(same_bits(
        &cphase_gate().m.concat(),
        &[l, o, o, o, o, l, o, o, o, o, l, o, o, o, o, c(-1.0, 0.0)]
    ));
}

#[test]
fn a_matrix_maps_a_pair_row_by_row() {
    let g = Gate1 { m: [[c(2.0, 0.0), c(3.0, 0.0)], [c(0.0, 1.0), c(1.0, 1.0)]] };
    let (a, b) = g.apply(c(5.0, 0.0), c(0.0, 7.0));
    assert_eq!(a, c(10.0, 21.0));
    assert_eq!(b, c(-7.0, 12.0));
}

#[test]
fn a_matrix_maps_a_quadruple_row_by_row() {
    let r = |a: f64, b: f64, c0: f64, d: f64| [c(a, 0.0), c(b, 0.0), c(c0, 0.0), c(d, 0.0)];
    let g = Gate2 {
        m: [
            r(1.0, 2.0, 3.0, 4.0),
            r(5.0, 6.0, 7.0, 8.0),
            r(0.0, 0.0, 0.0, 1.0),
            [c(0.0, 1.0), c(0.0, 0.0), c(0.0, 0.0), c(0.0, 0.0)],
        ],
    };
    let q = [c(1.0, 0.0), c(10.0, 0.0), c(100.0, 0.0), c(0.0, 1000.0)];
    let out = g.apply(&q);
    assert_eq!(out[0], c(321.0, 4000.0));
    assert_eq!(out[1], c(765.0, 8000.0));
    assert_eq!(out[2], c(0.0, 1000.0));
    assert_eq!(out[3], c(0.0, 1.0));
}

#[test]
fn a_negligible_group_is_left_alone() {
    let g = x_gate();
    assert_eq!(pair_after(&g, c(1.0, 0.0), c(2.0, 0.0), true), None);
    assert_eq!(pair_after(&g, c(1.0, 0.0), c(2.0, 0.0), false), Some((c(2.0, 0.0), c(1.0, 0.0))));
    let q = [c(1.0, 0.0), c(2.0, 0.0), c(3.0, 0.0), c(4.0, 0.0)];
    assert_eq!(quad_after(&cnot_gate(), &q, true), None);
    assert_eq!(
        quad_after(&cnot_gate(), &q, false),
        Some([c(1.0, 0.0), c(2.0, 0.0), c(4.0, 0.0), c(3.0, 0.0)])
    );
}

#[test]
fn construction_normalizes() {
    let q = from_reals(&[3.0, 4.0]);
    assert_eq!(q.n(), 1);
    assert_eq!(q.len(), 2);
    assert!(same_bits(&q.amplitudes(), &[c(0.6, 0.0), c(0.8, 0.0)]));
    let q = QReg::new(vec![c(0.0, 2.0)]).unwrap();
    assert_eq!(q.n(), 0);
    assert!(same_bits(&q.amplitudes(), &[c(0.0, 1.0)]));
}

#[test]
fn norm_of_a_constructed_register_is_one() {
    let vectors: Vec<Vec<Complex64>> = vec![
        vec![c(3.0, 0.0), c(4.0, 0.0)],
        vec![c(1.0, 0.0), c(1.0, 0.0), c(1.0, 0.0), c(1.0, 0.0)],
        vec![c(1.0, 2.0), c(3.0, -4.0)],
        vec![c(1e-9, 0.0), c(0.0, 0.0)],
        vec![c(1e12, -1e12), c(5.0, 0.0), c(0.0, 7e11), c(-3e12, 0.0)],
        (0..8).map(|k| c(k as f64, 8.0 - k as f64)).collect(),
    ];
    for v in vectors {
        let q = QReg::new(v).unwrap();
        assert!((q.norm().re - 1.0).abs() < 1e-10);
        assert_eq!(q.norm().im, 0.0);
    }
}

#[test]
fn norm_is_the_root_of_the_summed_squares() {
    let q = from_reals(&[3.0, 4.0]);
    let expected = (0.0 + 0.6f64 * 0.6 + 0.8f64 * 0.8).sqrt();
    assert_eq!(q.norm().re.to_bits(), expected.to_bits());
}

#[test]
fn construction_refuses_bad_lengths() {
    assert_eq!(failure(QReg::new(vec![])), QError::InvalidLength);
    assert_eq!(failure(QReg::new(vec![c(1.0, 0.0); 3])), QError::InvalidLength);
    assert_eq!(failure(QReg::new(vec![c(1.0, 0.0); 6])), QError::InvalidLength);
}

#[test]
fn construction_refuses_a_zero_vector() {
    assert_eq!(failure(QReg::new(vec![c(0.0, 0.0); 4])), QError::DegenerateState);
    assert_eq!(failure(QReg::new(vec![c(1e-10, 0.0), c(0.0, 0.0)])), QError::DegenerateState);
    assert_eq!(failure(QReg::new(vec![c(f64::NAN, 0.0), c(0.0, 0.0)])), QError::DegenerateState);
    assert!(QReg::new(vec![c(1.1e-10, 0.0), c(0.0, 0.0)]).is_ok());
}

#[test]
fn normalize_keeps_a_normalized_state() {
    let mut q = from_reals(&[3.0, 4.0]);
    assert_eq!(q.normalize(), Ok(()));
    assert!(same_bits(&q.amplitudes(), &[c(0.6, 0.0), c(0.8, 0.0)]));
}

#[test]
fn single_qubit_gate_rewrites_each_pair() {
    let g = Gate1 { m: [[c(2.0, 0.0), c(3.0, 0.0)], [c(5.0, 0.0), c(7.0, 0.0)]] };
    let mut q = state("00");
    q.apply1q(&g, 1).unwrap();
    assert!(same_bits(&q.amplitudes(), &[c(2.0, 0.0), c(0.0, 0.0), c(5.0, 0.0), c(0.0, 0.0)]));
    let mut q = state("01");
    q.apply1q(&g, 0).unwrap();
    assert!(same_bits(&q.amplitudes(), &[c(3.0, 0.0), c(7.0, 0.0), c(0.0, 0.0), c(0.0, 0.0)]));
}

#[test]
fn two_qubit_gate_rewrites_each_quadruple() {
    let r = |a: f64, b: f64, c0: f64, d: f64| [c(a, 0.0), c(b, 0.0), c(c0, 0.0), c(d, 0.0)];
    let g = Gate2 {
        m: [
            r(1.0, 2.0, 3.0, 4.0),
            r(5.0, 6.0, 7.0, 8.0),
            r(9.0, 10.0, 11.0, 12.0),
            r(13.0, 14.0, 15.0, 16.0),
        ],
    };
    let mut q = state("001");
    q.apply2q(&g, 2, 0).unwrap();
    let got: Vec<f64> = q.amplitudes().iter().map(|a| a.re).collect();
    assert_eq!(got, vec![2.0, 6.0, 0.0, 0.0, 10.0, 14.0, 0.0, 0.0]);
    let mut q = state("100");
    q.apply2q(&g, 2, 0).unwrap();
    let got: Vec<f64> = q.amplitudes().iter().map(|a| a.re).collect();
    assert_eq!(got, vec![3.0, 7.0, 0.0, 0.0, 11.0, 15.0, 0.0, 0.0]);
}

#[test]
fn gates_refuse_qubits_out_of_range() {
    let mut q = state("01");
    let before = q.amplitudes();
    assert_eq!(q.apply1q(&x_gate(), 2), Err(QError::QubitOutOfRange));
    assert_eq!(q.apply1q(&x_gate(), usize::MAX), Err(QError::QubitOutOfRange));
    assert_eq!(q.apply2q(&cnot_gate(), 2, 0), Err(QError::QubitOutOfRange));
    assert_eq!(q.apply2q(&cnot_gate(), 0, 2), Err(QError::QubitOutOfRange));
    assert_eq!(q.apply2q(&cnot_gate(), 5, 5), Err(QError::QubitOutOfRange));
    assert!(same_bits(&q.amplitudes(), &before));
    assert_eq!(failure(state("0").x(1)), QError::QubitOutOfRange);
    assert_eq!(failure(state("0").y(1)), QError::QubitOutOfRange);
    assert_eq!(failure(state("0").z(1)), QError::QubitOutOfRange);
    assert_eq!(failure(state("0").h(1)), QError::QubitOutOfRange);
    assert_eq!(failure(state("0").s(1)), QError::QubitOutOfRange);
    assert_eq!(failure(state("00").cnot(0, 2)), QError::QubitOutOfRange);
    assert_eq!(failure(state("00").cphase(2, 0)), QError::QubitOutOfRange);
    let single = QReg::new(vec![c(1.0, 0.0)]).unwrap();
    assert_eq!(failure(single.x(0)), QError::QubitOutOfRange);
}

#[test]
fn two_qubit_gates_refuse_one_qubit_twice() {
    let mut q = state("01");
    let before = q.amplitudes();
    assert_eq!(q.apply2q(&cnot_gate(), 1, 1), Err(QError::SameQubit));
    assert!(same_bits(&q.amplitudes(), &before));
    assert_eq!(failure(state("00").cnot(0, 0)), QError::SameQubit);
    assert_eq!(failure(state("00").cphase(1, 1)), QError::SameQubit);
}

#[test]
fn hadamard_on_the_zero_state() {
    let q = state("00").h(0).unwrap();
    assert!(same_bits(
        &q.amplitudes(),
        &[c(FRAC_1_SQRT_2, 0.0), c(FRAC_1_SQRT_2, 0.0), c(0.0, 0.0), c(0.0, 0.0)]
    ));
    let back = q.h(0).unwrap();
    assert!(back.isclose(&state("00")));
}

#[test]
fn pauli_gates_undo_themselves() {
    for spec in ["0", "1", "+", "-", "01", "+-", "1+0", "-01"] {
        for q in 0..spec.len() {
            assert!(state(spec).x(q).unwrap().x(q).unwrap().isclose(&state(spec)));
            assert!(state(spec).y(q).unwrap().y(q).unwrap().isclose(&state(spec)));
            assert!(state(spec).z(q).unwrap().z(q).unwrap().isclose(&state(spec)));
        }
    }
}

#[test]
fn hadamard_undoes_itself() {
    for spec in ["0", "1", "+", "-", "01", "+-", "1+0", "-01"] {
        for q in 0..spec.len() {
            assert!(state(spec).h(q).unwrap().h(q).unwrap().isclose(&state(spec)));
        }
    }
    let odd = QReg::new(vec![c(1.0, 2.0), c(-3.0, 0.5), c(0.0, 0.0), c(2.0, -2.0)]).unwrap();
    assert!(odd.clone().h(1).unwrap().h(1).unwrap().isclose(&odd));
}

#[test]
fn controlled_phase_flips_the_sign_of_all_ones_only() {
    for (spec, index) in [("00", 0usize), ("01", 1), ("10", 2), ("11", 3)] {
        let q = state(spec).cphase(0, 1).unwrap();
        let a = q.amplitudes();
        for (i, x) in a.iter().enumerate() {
            let expected = if i != index {
                0.0
            } else if index == 3 {
                -1.0
            } else {
                1.0
            };
            assert_eq!(x.re, expected);
            assert_eq!(x.im, 0.0);
        }
    }
}

#[test]
fn controlled_not_with_the_roles_exchanged() {
    assert!(state("10").cnot(1, 0).unwrap().isclose(&state("11")));
    assert!(state("01").cnot(1, 0).unwrap().isclose(&state("01")));
    assert!(state("110").cnot(2, 0).unwrap().isclose(&state("111")));
}

#[test]
fn measure_with_follows_the_draw() {
    let mut q = state("+");
    assert_eq!(q.measure_with(0, c(0.3, 0.0)), Ok(0));
    assert!(same_bits(&q.amplitudes(), &[c(1.0, 0.0), c(0.0, 0.0)]));
    let mut q = state("+");
    assert_eq!(q.measure_with(0, c(0.7, 0.0)), Ok(1));
    assert!(same_bits(&q.amplitudes(), &[c(0.0, 0.0), c(1.0, 0.0)]));
}

#[test]
fn measure_with_takes_zero_below_the_weight_only() {
    let weight = FRAC_1_SQRT_2 * FRAC_1_SQRT_2;
    let mut q = state("+");
    assert_eq!(q.measure_with(0, c(weight, 0.0)), Ok(1));
    let mut q = state("+");
    assert_eq!(q.measure_with(0, c(0.5, 0.0)), Ok(0));
}

#[test]
fn measure_with_weighs_the_right_qubit() {
    let mut q = state("1+");
    assert_eq!(q.measure_with(1, c(0.0, 0.0)), Ok(1));
    let mut q = state("+0");
    assert_eq!(q.measure_with(0, c(0.999, 0.0)), Ok(0));
    assert!(q.isclose(&state("+0")));
}

#[test]
fn measure_refuses_an_empty_branch() {
    let mut q = state("0");
    let before = q.amplitudes();
    assert_eq!(q.measure_with(0, c(1.5, 0.0)), Err(QError::DegenerateState));
    assert!(same_bits(&q.amplitudes(), &before));
}

#[test]
fn measure_refuses_qubits_out_of_range() {
    let mut rng = StdRng::seed_from_u64(7);
    let mut q = state("01");
    let before = q.amplitudes();
    assert_eq!(q.measure(2, 3, &mut rng), Err(QError::QubitOutOfRange));
    assert_eq!(q.measure_with(2, c(0.5, 0.0)), Err(QError::QubitOutOfRange));
    assert!(same_bits(&q.amplitudes(), &before));
}

#[test]
fn measuring_no_times_changes_nothing() {
    let mut rng = StdRng::seed_from_u64(7);
    let mut q = state("+");
    let before = q.amplitudes();
    assert_eq!(q.measure(0, 0, &mut rng), Ok(vec![]));
    assert!(same_bits(&q.amplitudes(), &before));
}

#[test]
fn measuring_a_basis_state_reads_its_bits() {
    for seed in 0..20u64 {
        let mut rng = StdRng::seed_from_u64(seed);
        let mut q = state("101");
        assert_eq!(q.measure(0, 4, &mut rng), Ok(vec![1; 4]));
        assert_eq!(q.measure(1, 4, &mut rng), Ok(vec![0; 4]));
        assert_eq!(q.measure(2, 4, &mut rng), Ok(vec![1; 4]));
        assert!(q.isclose(&state("101")));
    }
}

#[test]
fn a_second_measurement_repeats_the_first() {
    for seed in 0..20u64 {
        let mut rng = StdRng::seed_from_u64(seed);
        let mut q = state("00").h(0).unwrap().cnot(0, 1).unwrap();
        let first = q.measure(0, 1, &mut rng).unwrap();
        assert!(first[0] == 0 || first[0] == 1);
        assert_eq!(q.measure(0, 6, &mut rng), Ok(vec![first[0]; 6]));
        assert_eq!(q.measure(1, 6, &mut rng), Ok(vec![first[0]; 6]));
    }
}

#[test]
fn both_outcomes_occur() {
    let mut zeros = 0;
    let mut ones = 0;
    for seed in 0..64u64 {
        let mut rng = StdRng::seed_from_u64(seed);
        let mut q = state("+");
        match q.measure(0, 1, &mut rng).unwrap()[0] {
            0 => zeros += 1,
            _ => ones += 1,
        }
    }
    assert!(zeros > 0 && ones > 0);
}

#[test]
fn sum_and_difference_of_the_basis_states() {
    let plus = (state("0") + state("1")).unwrap();
    assert!(same_bits(&plus.amplitudes(), &[c(FRAC_1_SQRT_2, 0.0), c(FRAC_1_SQRT_2, 0.0)]));
    let minus = (state("0") - state("1")).unwrap();
    assert!(same_bits(&minus.amplitudes(), &[c(FRAC_1_SQRT_2, 0.0), c(-FRAC_1_SQRT_2, 0.0)]));
    assert!(plus.isclose(&state("0").h(0).unwrap()));
    assert!(minus.isclose(&state("1").h(0).unwrap()));
    assert_eq!(plus.n(), 1);
}

#[test]
fn sum_and_difference_refuse_unequal_lengths() {
    assert_eq!(failure(state("0") + state("00")), QError::LengthMismatch);
    assert_eq!(failure(state("00") - state("0")), QError::LengthMismatch);
    let single = QReg::new(vec![c(1.0, 0.0)]).unwrap();
    assert_eq!(failure(single + state("00")), QError::LengthMismatch);
}

#[test]
fn a_state_less_itself_is_degenerate() {
    assert_eq!(failure(state("01") - state("01")), QError::DegenerateState);
    let negated = state("0").x(0).unwrap().z(0).unwrap().x(0).unwrap();
    assert_eq!(failure(state("0") + negated), QError::DegenerateState);
}

#[test]
fn tensor_product_concatenates() {
    assert!((state("10") * state("1")).unwrap().isclose(&state("101")));
    assert!((state("1") * state("01")).unwrap().isclose(&state("101")));
    assert!((state("+") * state("-")).unwrap().isclose(&state("+-")));
    let q = (state("10") * state("011")).unwrap();
    assert_eq!(q.n(), 5);
    assert_eq!(q.len(), 32);
    let a = q.amplitudes();
    for (i, x) in a.iter().enumerate() {
        assert_eq!(x.re, if i == 0b10011 { 1.0 } else { 0.0 });
    }
}

#[test]
fn tensor_product_multiplies_elementwise() {
    let a = from_reals(&[3.0, 4.0]);
    let b = QReg::new(vec![c(0.0, 1.0), c(0.0, 0.0)]).unwrap();
    let q = (a * b).unwrap();
    assert!(same_bits(
        &q.amplitudes(),
        &[c(0.0, 0.6), c(0.0, 0.0), c(0.0, 0.8), c(0.0, 0.0)]
    ));
}

#[test]
fn tensor_product_with_a_single_amplitude() {
    let unit = QReg::new(vec![c(1.0, 0.0)]).unwrap();
    let q = (unit * state("01")).unwrap();
    assert_eq!(q.n(), 2);
    assert!(q.isclose(&state("01")));
}

#[test]
fn operands_are_left_alone() {
    let a = state("+");
    let b = state("1");
    let kept = a.amplitudes();
    let _ = (a.clone() + b.clone()).unwrap();
    let _ = (a.clone() * b.clone()).unwrap();
    assert!(same_bits(&a.amplitudes(), &kept));
}

#[test]
fn ket_reads_the_leftmost_character_as_the_highest_qubit() {
    let q = state("100");
    assert_eq!(q.n(), 3);
    let a = q.amplitudes();
    for (i, x) in a.iter().enumerate() {
        assert_eq!(*x, if i == 4 { c(1.0, 0.0) } else { c(0.0, 0.0) });
    }
    let q = state("0+");
    assert!(q.isclose_slice(&[
        c(FRAC_1_SQRT_2, 0.0),
        c(FRAC_1_SQRT_2, 0.0),
        c(0.0, 0.0),
        c(0.0, 0.0)
    ]));
    let q = state("-1");
    assert!(q.isclose_slice(&[
        c(0.0, 0.0),
        c(FRAC_1_SQRT_2, 0.0),
        c(0.0, 0.0),
        c(-FRAC_1_SQRT_2, 0.0)
    ]));
}

#[test]
fn ket_of_a_superposition_has_exact_amplitudes() {
    let q = state("+");
    assert!(same_bits(&q.amplitudes(), &[c(FRAC_1_SQRT_2, 0.0), c(FRAC_1_SQRT_2, 0.0)]));
    let q = state("++");
    assert!(same_bits(&q.amplitudes(), &[c(0.5, 0.0); 4]));
}

#[test]
fn ket_refuses_what_it_cannot_read() {
    assert_eq!(failure(ket("")), QError::EmptyKet);
    assert_eq!(failure(ket("2")), QError::UnknownSymbol);
    assert_eq!(failure(ket("0 1")), QError::UnknownSymbol);
    assert_eq!(failure(ket("01x")), QError::UnknownSymbol);
    assert_eq!(failure(ket("\u{ff10}")), QError::UnknownSymbol);
    let long = "0".repeat(usize::BITS as usize);
    assert_eq!(failure(ket(&long)), QError::InvalidLength);
    let long_and_wrong = "0".repeat(200) + "?";
    assert_eq!(failure(ket(&long_and_wrong)), QError::UnknownSymbol);
}

#[test]
fn closeness_has_a_tolerance() {
    assert!(within_tolerance(c(0.0, 0.0)));
    assert!(within_tolerance(c(9.9e-6, 0.0)));
    assert!(!within_tolerance(c(1e-5, 0.0)));
    assert!(!within_tolerance(c(1e-4, 0.0)));
    assert!(!within_tolerance(c(f64::NAN, 0.0)));
    let q = state("0");
    assert!(q.isclose_slice(&[c(1.000009, 0.0), c(0.0, 0.0)]));
    assert!(!q.isclose_slice(&[c(1.00002, 0.0), c(0.0, 0.0)]));
    assert!(q.isclose_slice(&[c(1.0, 6e-6), c(6e-6, 0.0)]));
    assert!(!q.isclose_slice(&[c(1.0, 0.0), c(8e-6, 8e-6)]));
}

#[test]
fn states_of_unequal_length_are_not_close() {
    assert!(!state("0").isclose(&state("00")));
    assert!(!state("00").isclose(&state("0")));
    assert!(!state("0").isclose_slice(&[c(1.0, 0.0)]));
    assert!(!state("0").isclose_slice(&[]));
    assert!(!state("0").isclose(&state("1")));
}

#[test]
fn a_clone_has_the_same_amplitudes() {
    let q = state("+-");
    let r = q.clone();
    assert_eq!(r.n(), q.n());
    assert!(same_bits(&r.amplitudes(), &q.amplitudes()));
}

#[test]
fn errors_describe_themselves() {
    let all = [
        QError::InvalidLength,
        QError::DegenerateState,
        QError::QubitOutOfRange,
        QError::SameQubit,
        QError::LengthMismatch,
        QError::EmptyKet,
        QError::UnknownSymbol,
    ];
    for (i, a) in all.iter().enumerate() {
        assert!(!a.message().is_empty());
        for b in all.iter().skip(i + 1) {
            assert_ne!(a.message(), b.message());
        }
    }
    assert_eq!(QError::SameQubit.message(), "control and target must be different qubits");
}

#[test]
fn a_chain_of_controlled_nots_entangles_twelve_qubits() {
    let n = 12;
    let mut q = state(&"0".repeat(n)).h(0).unwrap();
    for i in 0..n - 1 {
        q = q.cnot(i, i + 1).unwrap();
    }
    let a = q.amplitudes();
    assert_eq!(a.len(), 1 << n);
    for (i, x) in a.iter().enumerate() {
        let expected = if i == 0 || i == (1 << n) - 1 { FRAC_1_SQRT_2 } else { 0.0 };
        assert_eq!(x.re, expected);
        assert_eq!(x.im, 0.0);
    }
}

#[test]
fn hadamard_on_every_qubit_spreads_evenly() {
    let n = 10;
    let mut q = state(&"0".repeat(n));
    for i in 0..n {
        q = q.h(i).unwrap();
    }
    let a = q.amplitudes();
    for x in a.iter() {
        assert!((x.re - 0.03125).abs() < 1e-12);
        assert_eq!(x.im, 0.0);
    }
    assert!((q.norm().re - 1.0).abs() < 1e-10);
}

#[test]
fn a_vector_beyond_the_range_of_squares_loses_its_norm() {
    let q = QReg::new(vec![c(1e200, 0.0), c(0.0, 0.0)]).unwrap();
    assert!(same_bits(&q.amplitudes(), &[c(0.0, 0.0), c(0.0, 0.0)]));
    assert_eq!(q.norm().re, 0.0);
}

#[test]
fn a_pair_is_negligible_below_the_threshold() {
    let t = prune_threshold();
    assert!(pair_negligible_given(c(4e-9, 0.0), c(5e-9, 0.0), t));
    assert!(pair_negligible_given(c(0.0, 0.0), c(0.0, 0.0), t));
    assert!(!pair_negligible_given(c(5e-9, 0.0), c(5e-9, 0.0), t));
    assert!(!pair_negligible_given(c(1.0, 0.0), c(0.0, 0.0), t));
    assert!(!pair_negligible_given(c(f64::NAN, 0.0), c(0.0, 0.0), t));
}

#[test]
fn a_quadruple_is_negligible_below_the_threshold() {
    let t = prune_threshold();
    let m = |x: f64| [c(x, 0.0), c(x, 0.0), c(x, 0.0), c(x, 0.0)];
    assert!(quad_negligible_given(&m(2e-9), t));
    assert!(!quad_negligible_given(&m(2.5e-9), t));
    assert!(!quad_negligible_given(&m(3e-9), t));
    assert!(quad_negligible_given(&[c(9e-9, 0.0), c(0.0, 0.0), c(0.0, 0.0), c(0.0, 0.0)], t));
}

#[test]
fn a_negligible_pair_stays_as_it_is() {
    let mut q = state("0");
    q.apply1q(&Gate1 { m: [[c(1.0, 0.0), c(0.0, 0.0)], [c(0.0, 0.0), c(1e-9, 0.0)]] }, 0).unwrap();
    assert!(same_bits(&q.amplitudes(), &[c(1.0, 0.0), c(0.0, 0.0)]));
    let tiny = QReg::new(vec![c(1.0, 0.0), c(0.0, 0.0), c(3e-9, 0.0), c(4e-9, 0.0)]).unwrap();
    let before = tiny.amplitudes();
    let after = tiny.x(0).unwrap().amplitudes();
    assert!(same_bits(&after[2..], &before[2..]));
    assert!(same_bits(&after[..2], &[before[1], before[0]]));
}

#[test]
fn measurement_draws_once_for_each_repetition() {
    for ntimes in [0usize, 1, 2, 7] {
        let mut rng = StdRng::seed_from_u64(11);
        let mut twin = rng.clone();
        let mut q = state("10");
        assert_eq!(q.measure(1, ntimes, &mut rng), Ok(vec![1; ntimes]));
        for _ in 0..ntimes {
            let _: f64 = twin.gen();
        }
        assert_eq!(rng, twin);
    }
}

#[test]
fn a_refused_measurement_draws_nothing() {
    let mut rng = StdRng::seed_from_u64(11);
    let twin = rng.clone();
    let mut q = state("10");
    assert_eq!(q.measure(2, 5, &mut rng), Err(QError::QubitOutOfRange));
    assert_eq!(rng, twin);
    assert_eq!(q.measure(0, 0, &mut rng), Ok(vec![]));
    assert_eq!(rng, twin);
}
