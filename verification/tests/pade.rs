use softbody::pade::{checked_pade_coeff_terms, pade_coeff_terms};

#[test]
fn pade_terms_exact_values() {
    // m = 3, k = 1: 5! * 3! over 6! * 1! * 2!
    assert_eq!(pade_coeff_terms(3, 1), (720, 1440));
    // m = 3, k = 3: 3! * 3! over 6! * 3! * 0!
    assert_eq!(pade_coeff_terms(3, 3), (36, 4320));
    assert_eq!(pade_coeff_terms(0, 0), (1, 1));
}

#[test]
fn pade_leading_coefficient_is_one() {
    for m in 0..6usize {
        let (n, d) = pade_coeff_terms(m, 0);
        assert_eq!(n, d);
    }
}

#[test]
fn pade_coefficient_step_on_values() {
    let m = 4usize;
    for k in 0..m {
        let (n0, d0) = pade_coeff_terms(m, k);
        let (n1, d1) = pade_coeff_terms(m, k + 1);
        assert_eq!(n1 * (2 * m - k), n0);
        assert_eq!(d1 * (m - k), d0 * (k + 1));
    }
}

#[test]
fn pade_second_coefficient_is_one_half() {
    for m in 1..6usize {
        let (n, d) = pade_coeff_terms(m, 1);
        assert_eq!(2 * n, d);
    }
}

#[test]
fn checked_pade_terms_agree() {
    assert_eq!(checked_pade_coeff_terms(3, 1), Some((720, 1440)));
    assert_eq!(checked_pade_coeff_terms(5, 2), Some(pade_coeff_terms(5, 2)));
}

#[test]
fn checked_pade_terms_reject_k_above_m() {
    assert_eq!(checked_pade_coeff_terms(3, 4), None);
}

#[test]
fn checked_pade_terms_reject_overflow() {
    // 26! does not fit in 64 bits, so degree 13 cannot be computed.
    assert_eq!(checked_pade_coeff_terms(13, 0), None);
    assert_eq!(checked_pade_coeff_terms(usize::MAX, 0), None);
}
