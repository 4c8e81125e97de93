//! Behavioural tests for the per-axis motion-profile driver.

use std::cell::Cell;

use accel_stepper::func_device;
use accel_stepper::Device;
use accel_stepper::Driver;
use accel_stepper::StepContext;
use accel_stepper::SystemClock;

/// A clock that advances by a fixed amount on every reading.
struct TickClock {
    now: Cell<u64>,
    tick: u64,
}

impl TickClock {
    fn new(tick: u64) -> TickClock {
        TickClock { now: Cell::new(0), tick }
    }
}

impl SystemClock for TickClock {
    fn elapsed(&self) -> u64 {
        let t = self.now.get() + self.tick;
        self.now.set(t);
        t
    }
}

/// A device that records every context it is asked to step to.
#[derive(Default)]
struct RecordingDevice {
    contexts: Vec<StepContext>,
}

impl Device for RecordingDevice {
    type Error = ();

    fn step(&mut self, ctx: &StepContext) -> Result<(), Self::Error> {
        self.contexts.push(ctx.clone());
        Ok(())
    }
}

#[test]
fn compute_new_speeds_when_already_at_target() {
    let mut driver = Driver::default();

    driver.compute_new_speed();

    assert_eq!(driver.speed(), 0);
    assert_eq!(driver.step_interval(), 0);
}

#[test]
fn dont_step_when_already_at_target() {
    let forward = Cell::new(0u32);
    let back = Cell::new(0u32);
    let clock = TickClock::new(1_000_000_000);

    {
        let mut dev = func_device(|| forward.set(forward.get() + 1), || back.set(back.get() + 1));
        let mut driver = Driver::new();

        for _ in 0..100 {
            driver.poll(&mut dev, &clock).unwrap();
        }
    }

    assert_eq!(forward.get(), 0);
    assert_eq!(back.get(), 0);
}

#[test]
fn moving_to_seventeen_takes_seventeen_forward_steps() {
    let forward = Cell::new(0u32);
    let back = Cell::new(0u32);
    // 10 ms per poll, fast enough for 500 steps/s with 100 steps/s^2.
    let clock = TickClock::new(10_000_000);

    let mut driver = Driver::new();
    driver.set_max_speed(500_000_000);
    driver.set_acceleration(100_000_000);
    driver.move_to(17);

    {
        let mut dev = func_device(|| forward.set(forward.get() + 1), || back.set(back.get() + 1));
        let mut polls = 0u32;
        while driver.is_running() {
            driver.poll(&mut dev, &clock).unwrap();
            polls += 1;
            assert!(polls < 100_000, "driver did not converge");
        }
    }

    assert_eq!(driver.current_position(), 17);
    assert_eq!(forward.get(), 17);
    assert_eq!(back.get(), 0);
}

#[test]
fn emitted_positions_increase_one_step_at_a_time() {
    let clock = TickClock::new(5_000_000);
    let mut dev = RecordingDevice::default();

    let mut driver = Driver::new();
    driver.set_max_speed(200_000_000);
    driver.set_acceleration(50_000_000);
    driver.move_to(9);

    let mut polls = 0u32;
    while driver.is_running() {
        driver.poll(&mut dev, &clock).unwrap();
        polls += 1;
        assert!(polls < 100_000, "driver did not converge");
    }

    assert_eq!(dev.contexts.len(), 9);
    for (i, ctx) in dev.contexts.iter().enumerate() {
        assert_eq!(ctx.position, i as i64 + 1);
    }
}

#[test]
fn converges_backwards_and_stays_stopped() {
    let forward = Cell::new(0u32);
    let back = Cell::new(0u32);
    let clock = TickClock::new(10_000_000);

    let mut driver = Driver::new();
    driver.set_max_speed(300_000_000);
    driver.set_acceleration(150_000_000);
    driver.move_to(-23);

    {
        let mut dev = func_device(|| forward.set(forward.get() + 1), || back.set(back.get() + 1));
        let mut polls = 0u32;
        while driver.is_running() {
            driver.poll(&mut dev, &clock).unwrap();
            polls += 1;
            assert!(polls < 100_000, "driver did not converge");
        }

        // Once arrived and stopped, further polls change nothing.
        for _ in 0..50 {
            driver.poll(&mut dev, &clock).unwrap();
        }
    }

    assert_eq!(driver.current_position(), -23);
    assert_eq!(forward.get(), 0);
    assert_eq!(back.get(), 23);
    assert_eq!(driver.speed(), 0);
    assert_eq!(driver.step_interval(), 0);
}

#[test]
fn failed_step_leaves_driver_untouched() {
    struct FailingDevice;

    impl Device for FailingDevice {
        type Error = &'static str;

        fn step(&mut self, _ctx: &StepContext) -> Result<(), Self::Error> {
            Err("jammed")
        }
    }

    let clock = TickClock::new(1_000_000_000);
    let mut dev = FailingDevice;

    let mut driver = Driver::new();
    driver.set_max_speed(100_000_000);
    driver.set_acceleration(100_000_000);
    driver.move_to(5);
    let speed_before = driver.speed();
    let interval_before = driver.step_interval();

    let outcome = driver.poll(&mut dev, &clock);

    assert_eq!(outcome, Err("jammed"));
    assert_eq!(driver.current_position(), 0);
    assert_eq!(driver.speed(), speed_before);
    assert_eq!(driver.step_interval(), interval_before);
}

#[test]
fn set_speed_computes_exact_interval() {
    let mut driver = Driver::new();
    driver.set_max_speed(10_000_000);

    // Two steps per second: half a second between steps.
    driver.set_speed(2_000_000);
    assert_eq!(driver.speed(), 2_000_000);
    assert_eq!(driver.step_interval(), 500_000_000);

    // Clamped to the ceiling of ten steps per second.
    driver.set_speed(50_000_000);
    assert_eq!(driver.speed(), 10_000_000);
    assert_eq!(driver.step_interval(), 100_000_000);

    // Backwards at four steps per second.
    driver.set_speed(-4_000_000);
    assert_eq!(driver.speed(), -4_000_000);
    assert_eq!(driver.step_interval(), 250_000_000);

    // Zero stops the axis.
    driver.set_speed(0);
    assert_eq!(driver.speed(), 0);
    assert_eq!(driver.step_interval(), 0);
}

#[test]
fn setters_and_accessors_round_trip() {
    let mut driver = Driver::new();
    assert_eq!(driver.max_speed(), 1_000_000);
    assert_eq!(driver.acceleration(), 1_000_000);

    driver.set_max_speed(123_000_000);
    assert_eq!(driver.max_speed(), 123_000_000);

    // The magnitude is kept whatever the sign; zero is ignored.
    driver.set_acceleration(-42_000_000);
    assert_eq!(driver.acceleration(), 42_000_000);
    driver.set_acceleration(0);
    assert_eq!(driver.acceleration(), 42_000_000);

    driver.move_to(44);
    assert_eq!(driver.target_position(), 44);
    assert_eq!(driver.distance_to_go(), 44);
    assert!(driver.is_running());

    driver.set_current_position(-7);
    assert_eq!(driver.current_position(), -7);
    assert_eq!(driver.target_position(), -7);
    assert_eq!(driver.distance_to_go(), 0);
    assert_eq!(driver.speed(), 0);
    assert_eq!(driver.step_interval(), 0);
    assert!(!driver.is_running());
}

#[test]
fn step_due_follows_the_interval_arithmetic() {
    let mut driver = Driver::new();
    driver.set_max_speed(10_000_000);
    driver.set_speed(2_000_000);

    // Half a second between steps, counted from a last step at time zero.
    assert!(!driver.step_due(499_999_999));
    assert!(driver.step_due(500_000_000));
    assert!(driver.step_due(u64::MAX));

    // A stopped axis never has a step due.
    driver.set_speed(0);
    assert!(!driver.step_due(u64::MAX));
}

#[test]
fn move_by_is_relative_to_current_position() {
    let mut driver = Driver::new();
    driver.set_current_position(10);
    driver.move_by(5);
    assert_eq!(driver.target_position(), 15);
    // Relative to the current position, which has not moved, not to the
    // previous target.
    driver.move_by(-8);
    assert_eq!(driver.target_position(), 2);
}

#[test]
fn stop_schedules_deceleration_target_ahead() {
    let clock = TickClock::new(2_000_000);
    let mut dev = RecordingDevice::default();

    let mut driver = Driver::new();
    driver.set_max_speed(400_000_000);
    driver.set_acceleration(200_000_000);
    driver.move_to(10_000);

    // Let it pick up some speed first.
    for _ in 0..200 {
        driver.poll(&mut dev, &clock).unwrap();
    }
    assert!(driver.speed() > 0);
    let position_at_stop = driver.current_position();

    driver.stop();
    let stop_target = driver.target_position();
    assert!(stop_target > position_at_stop);
    assert!(stop_target < 10_000);

    let mut polls = 0u32;
    while driver.is_running() {
        driver.poll(&mut dev, &clock).unwrap();
        polls += 1;
        assert!(polls < 100_000, "driver did not stop");
    }
    assert_eq!(driver.current_position(), stop_target);
    assert_eq!(driver.speed(), 0);
}

#[test]
fn acceleration_intervals_mirror_deceleration_intervals() {
    let clock = TickClock::new(1_000_000);
    let mut dev = RecordingDevice::default();

    // Cruise at 50 steps/s, accelerate at 100 steps/s^2: the ramp up to
    // cruise and the ramp down to the stop should be time-reversed mirrors.
    let mut driver = Driver::new();
    driver.set_max_speed(50_000_000);
    driver.set_acceleration(100_000_000);
    driver.move_to(200);

    let min_interval = 20_000_000u64;  // one second over 50 steps
    let mut intervals: Vec<u64> = Vec::new();
    let mut last_position = driver.current_position();
    let mut polls = 0u32;
    while driver.is_running() {
        driver.poll(&mut dev, &clock).unwrap();
        if driver.current_position() != last_position {
            last_position = driver.current_position();
            // The final step records a zero interval (the stop); keep only
            // genuine step intervals.
            if driver.step_interval() > 0 {
                intervals.push(driver.step_interval());
            }
        }
        polls += 1;
        assert!(polls < 10_000_000, "driver did not converge");
    }

    // Split the recorded intervals into the ramp up (before the cruise
    // phase) and the ramp down (after it).
    let first_min = intervals.iter().position(|&x| x <= min_interval).unwrap();
    let last_min = intervals.iter().rposition(|&x| x <= min_interval).unwrap();
    let ramp_up: Vec<u64> = intervals[..first_min].to_vec();
    let ramp_down: Vec<u64> = intervals[last_min + 1..].to_vec();

    assert!(ramp_up.len() > 3, "no acceleration phase was recorded");
    assert!(ramp_down.len() > 3, "no deceleration phase was recorded");

    // Compare the ramp up with the reversed ramp down.  The intervals are
    // recorded after each step, so the ramp down's very last entry mirrors
    // the unrecorded first step: pairing starts one entry in, and the
    // discrete phase boundary leaves a small constant offset between the
    // two ramps.
    let pairs = ramp_up.len().min(ramp_down.len() - 1);
    for i in 0..pairs {
        let up = ramp_up[i] as i64;
        let down = ramp_down[ramp_down.len() - 2 - i] as i64;
        let tolerance = up / 10 + 2;
        assert!(
            (up - down).abs() <= tolerance,
            "interval {} of the ramps differs: {} vs {}",
            i,
            up,
            down
        );
    }
}
