use path_tracer::fixed::{fp_add, fp_div, fp_min, fp_mul, fp_neg, fp_sqrt, fp_sub, int_to_fp, ONE};

#[test]
fn add_is_exact_in_range() {
    assert_eq!(fp_add(1_500_000, 2_500_000), 4_000_000);
    assert_eq!(fp_add(-1_500_000, 500_000), -1_000_000);
}

#[test]
fn add_saturates_at_the_range_ends() {
    assert_eq!(fp_add(i64::MAX, 1), i64::MAX);
    assert_eq!(fp_add(-i64::MAX, -10), -i64::MAX);
}

#[test]
fn sub_is_exact_in_range() {
    assert_eq!(fp_sub(1_000_000, 3_000_000), -2_000_000);
}

#[test]
fn neg_of_minimum_saturates() {
    assert_eq!(fp_neg(i64::MIN), i64::MAX);
    assert_eq!(fp_neg(2_000_000), -2_000_000);
}

#[test]
fn mul_truncates_toward_zero() {
    assert_eq!(fp_mul(3_500_000, 2_000_000), 7_000_000);
    assert_eq!(fp_mul(999, 999), 0);
    assert_eq!(fp_mul(-999, 999), 0);
    assert_eq!(fp_mul(-1_500_000, 2_000_000), -3_000_000);
}

#[test]
fn div_truncates_toward_zero() {
    assert_eq!(fp_div(ONE, 3_000_000), 333_333);
    assert_eq!(fp_div(-ONE, 3_000_000), -333_333);
    assert_eq!(fp_div(ONE, -3_000_000), -333_333);
    assert_eq!(fp_div(-ONE, -3_000_000), 333_333);
}

#[test]
fn sqrt_is_exact_on_squares() {
    assert_eq!(fp_sqrt(0), 0);
    assert_eq!(fp_sqrt(ONE), ONE);
    assert_eq!(fp_sqrt(4_000_000), 2_000_000);
    assert_eq!(fp_sqrt(25_000_000), 5_000_000);
}

#[test]
fn sqrt_rounds_down_otherwise() {
    assert_eq!(fp_sqrt(2_000_000), 1_414_213);
}

#[test]
fn min_and_int_conversion() {
    assert_eq!(fp_min(3, -4), -4);
    assert_eq!(int_to_fp(7), 7_000_000);
    assert_eq!(int_to_fp(-2), -2_000_000);
}
