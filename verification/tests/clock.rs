//! Tests for the clock capability and the callback devices.

use std::cell::Cell;

use accel_stepper::fallible_func_device;
use accel_stepper::Device;
use accel_stepper::OperatingSystemClock;
use accel_stepper::StepContext;
use accel_stepper::SystemClock;

#[test]
fn operating_system_clock_is_monotonic() {
    let clock = OperatingSystemClock::new();
    let first = clock.elapsed();
    let second = clock.elapsed();
    assert!(second >= first);

    let defaulted = OperatingSystemClock::default();
    let _ = defaulted.elapsed();
}

#[test]
fn fallible_device_propagates_callback_failures() {
    let forward = Cell::new(0u32);
    let mut dev = fallible_func_device(
        || {
            forward.set(forward.get() + 1);
            Ok(())
        },
        || Err("no reverse gear"),
    );

    // A forward step succeeds and is counted.
    let ahead = StepContext { position: 1, step_time: 10 };
    assert_eq!(dev.step(&ahead), Ok(()));
    assert_eq!(forward.get(), 1);

    // A backward step fails with the callback's own error.
    let behind = StepContext { position: 0, step_time: 20 };
    assert_eq!(dev.step(&behind), Err("no reverse gear"));

    // The failed step did not move the device's notion of its position:
    // stepping forward to the same place still counts as forward.
    let again = StepContext { position: 2, step_time: 30 };
    assert_eq!(dev.step(&again), Ok(()));
    assert_eq!(forward.get(), 2);
}
