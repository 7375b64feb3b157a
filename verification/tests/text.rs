use num_complex::Complex64;
use rvecsim::ket;
use rvecsim::render::binary_label;
use rvecsim::render::coef_from_parts;
use rvecsim::render::exponent_gap;
use rvecsim::render::round_at_scale;
use rvecsim::render::term_from_coef;
use rvecsim::render::with_point;
use rvecsim::QReg;

fn c(re: f64, im: f64) -> Complex64 {
    Complex64::new(re, im)
}

#[test]
fn binary_label_pads_to_the_width() {
    assert_eq!(binary_label(5, 3), "101");
    assert_eq!(binary_label(1, 4), "0001");
    assert_eq!(binary_label(0, 2), "00");
    assert_eq!(binary_label(6, 8), "00000110");
}

#[test]
fn binary_label_never_cuts_digits() {
    assert_eq!(binary_label(0, 0), "0");
    assert_eq!(binary_label(1, 0), "1");
    assert_eq!(binary_label(5, 2), "101");
    assert_eq!(binary_label(usize::MAX, 1), "1".repeat(usize::BITS as usize));
    let wide = binary_label(1, 70);
    assert_eq!(wide.len(), 70);
    assert_eq!(wide, "0".repeat(69) + "1");
}

#[test]
fn exponent_gap_is_the_difference_where_it_fits() {
    assert_eq!(exponent_gap(15, 0), 15);
    assert_eq!(exponent_gap(15, -3), 18);
    assert_eq!(exponent_gap(15, 20), -5);
    assert_eq!(exponent_gap(15, i32::MIN), i32::MAX);
    assert_eq!(exponent_gap(i32::MAX, -1), i32::MAX);
    assert_eq!(exponent_gap(i32::MIN, 1), i32::MIN);
    assert_eq!(exponent_gap(-2, i32::MAX), i32::MIN);
}

#[test]
fn rounding_at_a_scale() {
    assert_eq!(round_at_scale(c(1.26, 0.0), c(10.0, 0.0)).re, 1.3);
    assert_eq!(round_at_scale(c(-1.26, 0.0), c(10.0, 0.0)).re, -1.3);
    assert_eq!(round_at_scale(c(2.5, 0.0), c(1.0, 0.0)).re, 3.0);
    assert_eq!(round_at_scale(c(0.7071067811865476, 0.0), c(1e15, 0.0)).re, 0.707106781186548);
    assert_eq!(round_at_scale(c(1234.0, 0.0), c(0.01, 0.0)).re, 1200.0);
}

#[test]
fn a_whole_number_gets_a_point() {
    assert_eq!(with_point("1".to_string()), "1.0");
    assert_eq!(with_point("-12".to_string()), "-12.0");
    assert_eq!(with_point("0".to_string()), "0.0");
    assert_eq!(with_point("inf".to_string()), "inf.0");
    assert_eq!(with_point("".to_string()), ".0");
}

#[test]
fn a_text_with_a_point_or_an_exponent_stays() {
    assert_eq!(with_point("1.5".to_string()), "1.5");
    assert_eq!(with_point("0.707106781186548".to_string()), "0.707106781186548");
    assert_eq!(with_point("1e-7".to_string()), "1e-7");
    assert_eq!(with_point("2E9".to_string()), "2E9");
}

#[test]
fn a_coefficient_shows_its_imaginary_part_when_it_counts() {
    assert_eq!(coef_from_parts("1.0".to_string(), "0.0", true), "1.0");
    assert_eq!(coef_from_parts("1.0".to_string(), "2.0", false), "1.0+2.0i");
    assert_eq!(coef_from_parts("0.0".to_string(), "-1.0", false), "0.0+-1.0i");
}

#[test]
fn a_term_is_coefficient_bar_label_bracket() {
    assert_eq!(term_from_coef("1.0".to_string(), 2, 2), "1.0|10>");
    assert_eq!(term_from_coef("-0.5".to_string(), 5, 4), "-0.5|0101>");
    assert_eq!(term_from_coef("".to_string(), 0, 0), "|0>");
}

#[test]
fn terms_come_in_index_order_with_spaces() {
    assert_eq!(ket("+").unwrap().terms(), "0.707106781186548|0> 0.707106781186548|1>");
    assert_eq!(ket("-").unwrap().terms(), "0.707106781186548|0> -0.707106781186548|1>");
    assert_eq!(ket("+-").unwrap().terms(), "0.5|00> -0.5|01> 0.5|10> -0.5|11>");
    assert_eq!(ket("1+").unwrap().terms(), "0.707106781186548|10> 0.707106781186548|11>");
}

#[test]
fn terms_show_imaginary_coefficients() {
    assert_eq!(ket("0").unwrap().y(0).unwrap().terms(), "0.0+1.0i|1>");
    assert_eq!(ket("1").unwrap().y(0).unwrap().terms(), "0.0+-1.0i|0>");
    assert_eq!(ket("1").unwrap().s(0).unwrap().terms(), "0.0+1.0i|1>");
    let q = QReg::new(vec![c(3.0, 4.0), c(0.0, 0.0)]).unwrap();
    assert_eq!(q.terms(), "0.6+0.8i|0>");
}

#[test]
fn terms_leave_out_what_is_negligible() {
    let q = QReg::new(vec![c(1.0, 0.0), c(1e-9, 0.0)]).unwrap();
    assert_eq!(q.terms(), "1.0|0>");
    let q = QReg::new(vec![c(1.0, 1e-9), c(0.0, 0.0)]).unwrap();
    assert_eq!(q.terms(), "1.0|0>");
    let q = QReg::new(vec![c(1.0, 0.0), c(1e-7, 0.0)]).unwrap();
    assert_eq!(q.terms(), "0.999999999999995|0> 0.0000000999999999999995|1>");
}

#[test]
fn terms_of_a_single_amplitude() {
    let q = QReg::new(vec![c(0.0, -2.0)]).unwrap();
    assert_eq!(q.terms(), "0.0+-1.0i|0>");
    assert_eq!(q.to_string(), q.terms());
}

#[test]
fn to_string_is_terms() {
    let q = ket("00").unwrap().h(0).unwrap().cnot(0, 1).unwrap();
    assert_eq!(q.to_string(), "0.707106781186548|00> 0.707106781186548|11>");
    assert_eq!(q.to_string(), q.terms());
}
