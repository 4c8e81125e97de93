//! Tests for the step-and-direction pin support.

use accel_stepper::hal_devices::quadrature_mask;
use accel_stepper::StepAndDirection;

#[test]
fn pins_round_trip_through_the_container() {
    let device = StepAndDirection::new(7u8, 9u8);
    assert_eq!(device.into_inner(), (7u8, 9u8));
}

#[test]
fn quadrature_pattern_cycles_over_positions() {
    assert_eq!(quadrature_mask(0), 0b10);
    assert_eq!(quadrature_mask(1), 0b11);
    assert_eq!(quadrature_mask(2), 0b01);
    assert_eq!(quadrature_mask(3), 0b00);
    assert_eq!(quadrature_mask(4), 0b10);
    assert_eq!(quadrature_mask(101), 0b11);

    // Negative positions follow the same two's-complement low bits.
    assert_eq!(quadrature_mask(-1), 0b00);
    assert_eq!(quadrature_mask(-2), 0b01);
    assert_eq!(quadrature_mask(-3), 0b11);
    assert_eq!(quadrature_mask(-4), 0b10);
}
