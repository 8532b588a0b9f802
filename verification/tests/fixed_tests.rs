use node_graph::fixed::{
    fx_add, fx_clamp, fx_div, fx_mul, fx_sub, fx_times_count, narrow, UNIT,
};
use node_graph::geometry::{Rect, Vec2};
use node_graph::text::{decimal, digit_str, hundredths, two_places};

#[test]
fn sums_and_differences_saturate() {
    assert_eq!(fx_add(2, 3), 5);
    assert_eq!(fx_add(i64::MAX, 1), i64::MAX);
    assert_eq!(fx_add(i64::MIN, -1), i64::MIN);
    assert_eq!(fx_add(i64::MAX, i64::MIN), -1);
    assert_eq!(fx_sub(2, 3), -1);
    assert_eq!(fx_sub(i64::MIN, 1), i64::MIN);
    assert_eq!(fx_sub(0, i64::MIN), i64::MAX);
    assert_eq!(fx_sub(i64::MAX, -1), i64::MAX);
    assert_eq!(narrow(i128::MAX), i64::MAX);
    assert_eq!(narrow(i128::MIN), i64::MIN);
    assert_eq!(narrow(-7), -7);
}

#[test]
fn products_round_down() {
    assert_eq!(fx_mul(2 * UNIT, 3 * UNIT), 6 * UNIT);
    assert_eq!(fx_mul(UNIT / 2, UNIT / 2), UNIT / 4);
    assert_eq!(fx_mul(1, 1), 0);
    assert_eq!(fx_mul(-1, 1), -1);
    assert_eq!(fx_mul(-1, -1), 0);
    assert_eq!(fx_mul(1_500_000, -3), -5);
    assert_eq!(fx_mul(i64::MAX, i64::MAX), i64::MAX);
    assert_eq!(fx_mul(i64::MIN, i64::MAX), i64::MIN);
    assert_eq!(fx_mul(i64::MIN, i64::MIN), i64::MAX);
    assert_eq!(fx_mul(i64::MIN, UNIT), i64::MIN);
    assert_eq!(fx_mul(i64::MAX, 0), 0);
}

#[test]
fn quotients_round_down() {
    assert_eq!(fx_div(6 * UNIT, 3 * UNIT), 2 * UNIT);
    assert_eq!(fx_div(UNIT, 3 * UNIT), 333_333);
    assert_eq!(fx_div(-UNIT, 3 * UNIT), -333_334);
    assert_eq!(fx_div(UNIT, -3 * UNIT), -333_334);
    assert_eq!(fx_div(-UNIT, -3 * UNIT), 333_333);
    assert_eq!(fx_div(10 * UNIT, 2 * UNIT), 5 * UNIT);
    assert_eq!(fx_div(-5 * UNIT, 2 * UNIT), -2_500_000);
    assert_eq!(fx_div(i64::MAX, 1), i64::MAX);
    assert_eq!(fx_div(i64::MIN, 1), i64::MIN);
    assert_eq!(fx_div(i64::MIN, -1), i64::MAX);
    assert_eq!(fx_div(i64::MIN, i64::MIN), UNIT);
    assert_eq!(fx_div(i64::MAX, i64::MIN), -UNIT);
}

#[test]
fn a_quotient_by_zero_is_the_end_of_the_range() {
    assert_eq!(fx_div(1, 0), i64::MAX);
    assert_eq!(fx_div(-1, 0), i64::MIN);
    assert_eq!(fx_div(0, 0), 0);
}

#[test]
fn counts_of_steps_saturate() {
    assert_eq!(fx_times_count(20 * UNIT, 0), 0);
    assert_eq!(fx_times_count(20 * UNIT, 3), 60 * UNIT);
    assert_eq!(fx_times_count(-7, 3), -21);
    assert_eq!(fx_times_count(i64::MAX, 2), i64::MAX);
    assert_eq!(fx_times_count(i64::MIN, usize::MAX), i64::MIN);
    assert_eq!(fx_times_count(1, usize::MAX), i64::MAX);
}

#[test]
fn clamp_holds_a_value_in_its_range() {
    assert_eq!(fx_clamp(5, 1, 9), 5);
    assert_eq!(fx_clamp(0, 1, 9), 1);
    assert_eq!(fx_clamp(10, 1, 9), 9);
    assert_eq!(fx_clamp(1, 1, 9), 1);
    assert_eq!(fx_clamp(9, 1, 9), 9);
    // Where the bounds cross, the lower one wins below it.
    assert_eq!(fx_clamp(0, 9, 1), 9);
    assert_eq!(fx_clamp(10, 9, 1), 1);
}

#[test]
fn vectors_work_by_component() {
    let a = Vec2::new(3 * UNIT, -4 * UNIT);
    let b = Vec2::new(UNIT, UNIT);
    assert_eq!(a.plus(b), Vec2::new(4 * UNIT, -3 * UNIT));
    assert_eq!(a.minus(b), Vec2::new(2 * UNIT, -5 * UNIT));
    assert_eq!(a.scaled(UNIT / 2), Vec2::new(1_500_000, -2 * UNIT));
    assert_eq!(a.unscaled(2 * UNIT), Vec2::new(1_500_000, -2 * UNIT));
    assert_eq!(Vec2::zero(), Vec2::default());
    assert_eq!(Vec2::new(i64::MAX, i64::MIN).plus(Vec2::new(1, -1)), Vec2::new(i64::MAX, i64::MIN));
}

#[test]
fn rectangles_own_their_edges() {
    let r = Rect::from_min_size(Vec2::new(10, 20), Vec2::new(5, 5));
    assert_eq!(r, Rect { min: Vec2::new(10, 20), max: Vec2::new(15, 25) });
    assert!(r.contains(Vec2::new(10, 20)));
    assert!(r.contains(Vec2::new(15, 25)));
    assert!(r.contains(Vec2::new(12, 22)));
    assert!(!r.contains(Vec2::new(9, 22)));
    assert!(!r.contains(Vec2::new(16, 22)));
    assert!(!r.contains(Vec2::new(12, 19)));
    assert!(!r.contains(Vec2::new(12, 26)));
    let c = Rect::from_center_half(Vec2::new(0, 0), Vec2::new(6, 3));
    assert_eq!(c, Rect { min: Vec2::new(-6, -3), max: Vec2::new(6, 3) });
}

#[test]
fn numbers_are_written_in_decimal() {
    assert_eq!(decimal(0), "0");
    assert_eq!(decimal(7), "7");
    assert_eq!(decimal(10), "10");
    assert_eq!(decimal(1234567890), "1234567890");
    assert_eq!(decimal(u64::MAX), "18446744073709551615");
    for d in 0..10u64 {
        assert_eq!(digit_str(d), d.to_string());
    }
}

#[test]
fn hundredths_round_to_the_nearest_and_ties_to_even() {
    assert_eq!(hundredths(0), 0);
    assert_eq!(hundredths(4_999), 0);
    assert_eq!(hundredths(5_000), 0);
    assert_eq!(hundredths(5_001), 1);
    assert_eq!(hundredths(15_000), 2);
    assert_eq!(hundredths(25_000), 2);
    assert_eq!(hundredths(3_141_590), 314);
    assert_eq!(two_places(3_141_590), "3.14");
    assert_eq!(two_places(-2_500_000), "-2.50");
    assert_eq!(two_places(0), "0.00");
    assert_eq!(two_places(1_005_000), "1.00");
    assert_eq!(two_places(1_015_000), "1.02");
    assert_eq!(two_places(-1), "-0.00");
}
