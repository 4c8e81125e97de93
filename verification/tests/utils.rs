//! Tests for the unit-to-step quantizer.

use accel_stepper::CummulativeSteps;

#[test]
fn quantizer_round_trips_its_configuration() {
    let q = CummulativeSteps::new(2_500_000);
    assert_eq!(q.steps_per_unit(), 2_500_000);
    assert_eq!(q.real_location(), 0);

    let q2 = q.with_steps_per_unit(4_000_000);
    assert_eq!(q2.steps_per_unit(), 4_000_000);
    assert_eq!(q2.real_location(), 0);
}

#[test]
fn fractional_ratio_alternates_step_counts() {
    // 2.5 steps per unit: whole units alternate between three and two
    // steps, keeping the running total exactly rounded.
    let mut q = CummulativeSteps::new(2_500_000);
    assert_eq!(q.move_by(1_000_000), 3);
    assert_eq!(q.real_location(), 2_500_000);
    assert_eq!(q.move_by(1_000_000), 2);
    assert_eq!(q.real_location(), 5_000_000);
    assert_eq!(q.move_by(1_000_000), 3);
    assert_eq!(q.move_by(1_000_000), 2);
}

#[test]
fn many_small_movements_do_not_drift() {
    // One thousandth of a unit at one step per unit: single steps surface
    // only as the rounded total crosses each half-step boundary.
    let mut q = CummulativeSteps::new(1_000_000);
    let mut total: i64 = 0;
    for _ in 0..10_000 {
        total += q.move_by(1_000);
    }
    // 10_000 movements of 0.001 units are exactly 10 units.
    assert_eq!(total, 10);
    assert_eq!(q.real_location(), 10_000_000);
}

#[test]
fn negative_movements_mirror_positive_ones() {
    let mut q = CummulativeSteps::new(2_500_000);
    assert_eq!(q.move_by(-1_000_000), -3);
    assert_eq!(q.move_by(-1_000_000), -2);
    assert_eq!(q.real_location(), -5_000_000);

    // Moving back and forth cancels exactly.
    let mut r = CummulativeSteps::new(333_333);
    let mut sum: i64 = 0;
    for _ in 0..100 {
        sum += r.move_by(700_000);
        sum += r.move_by(-700_000);
    }
    assert_eq!(sum, 0);
    assert_eq!(r.real_location(), 0);
}
