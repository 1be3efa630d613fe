use finite_difference::fixed::{
    abs_fp, add_fp, avg_fp, div_fp, mul_fp, neg_fp, of_int_fp, sub_fp, FP_MAX, SCALE,
};

#[test]
fn addition_is_exact_in_band() {
    assert_eq!(add_fp(1_500_000_000, 2_500_000_000), 4_000_000_000);
    assert_eq!(add_fp(-1_000_000_000, 250_000_000), -750_000_000);
}

#[test]
fn addition_saturates_at_the_band_edge() {
    assert_eq!(add_fp(FP_MAX, FP_MAX), FP_MAX);
    assert_eq!(sub_fp(-FP_MAX, FP_MAX), -FP_MAX);
}

#[test]
fn multiplication_matches_real_products() {
    // 2.0 * 3.0 == 6.0
    assert_eq!(mul_fp(2 * SCALE, 3 * SCALE), 6 * SCALE);
    // 0.5 * 0.5 == 0.25
    assert_eq!(mul_fp(SCALE / 2, SCALE / 2), SCALE / 4);
    assert_eq!(mul_fp(FP_MAX, FP_MAX), FP_MAX);
}

#[test]
fn division_truncates_toward_zero() {
    // -1.0 / 3.0
    assert_eq!(div_fp(-SCALE, 3 * SCALE), -333_333_333);
    assert_eq!(div_fp(SCALE, 3 * SCALE), 333_333_333);
}

#[test]
fn averaging_truncates_toward_zero() {
    assert_eq!(avg_fp(1, 2), 1);
    assert_eq!(avg_fp(-1, -2), -1);
    assert_eq!(avg_fp(2 * SCALE, 4 * SCALE), 3 * SCALE);
}

#[test]
fn negation_and_magnitude() {
    assert_eq!(neg_fp(5), -5);
    assert_eq!(abs_fp(-7_000_000_000), 7_000_000_000);
    assert_eq!(abs_fp(3), 3);
}

#[test]
fn integer_embedding_scales() {
    assert_eq!(of_int_fp(3), 3 * SCALE);
    assert_eq!(of_int_fp(-2), -2 * SCALE);
}
