use mac_fluid::fixed::{
    floor_div_i128, fp_add, fp_div, fp_floor, fp_frac, fp_mul, fp_sub, div_int, HALF_SCALE,
    SAT_LIMIT, SCALE,
};

#[test]
fn addition_and_subtraction() {
    assert_eq!(fp_add(SCALE, SCALE), 2 * SCALE);
    assert_eq!(fp_sub(SCALE, 3 * SCALE), -2 * SCALE);
    assert_eq!(fp_add(-HALF_SCALE, HALF_SCALE), 0);
}

#[test]
fn addition_saturates() {
    assert_eq!(fp_add(SAT_LIMIT, SAT_LIMIT), SAT_LIMIT);
    assert_eq!(fp_sub(-SAT_LIMIT, SAT_LIMIT), -SAT_LIMIT);
}

#[test]
fn multiplication_scales_products() {
    // 1.5 * 2 == 3
    assert_eq!(fp_mul(SCALE + HALF_SCALE, 2 * SCALE), 3 * SCALE);
    // 0.5 * 0.5 == 0.25
    assert_eq!(fp_mul(HALF_SCALE, HALF_SCALE), SCALE / 4);
    assert_eq!(fp_mul(0, 12345), 0);
}

#[test]
fn division_scales_quotients() {
    // 1 / 2 == 0.5
    assert_eq!(fp_div(SCALE, 2 * SCALE), HALF_SCALE);
    // 3 / 1.5 == 2
    assert_eq!(fp_div(3 * SCALE, SCALE + HALF_SCALE), 2 * SCALE);
    assert_eq!(div_int(10 * SCALE, 5), 2 * SCALE);
}

#[test]
fn flooring_rounds_toward_negative_infinity() {
    assert_eq!(floor_div_i128(-7, 2), -4);
    assert_eq!(floor_div_i128(7, 2), 3);
    assert_eq!(fp_floor(-HALF_SCALE), -1);
    assert_eq!(fp_floor(HALF_SCALE), 0);
    assert_eq!(fp_floor(3 * SCALE + 1), 3);
    assert_eq!(fp_frac(-HALF_SCALE), HALF_SCALE);
    assert_eq!(fp_frac(3 * SCALE + 17), 17);
    assert_eq!(div_int(-3 * SCALE, 2), -(3 * SCALE) / 2);
}
