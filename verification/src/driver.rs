//! The per-axis motion-profile state machine.
//!
//! A [`Driver`] re-derives a discrete step schedule from a closed-form
//! acceleration model: every time the target, the acceleration or the
//! position changes it recomputes when the next step falls due, walking the
//! classical first-step/step-shrink recurrence for a trapezoidal speed
//! profile.
//!
//! All quantities are fixed-point integers: speeds in micro-steps per
//! second, accelerations in micro-steps per second squared, durations in
//! nanoseconds.

use vstd::prelude::*;

use crate::clock::SystemClock;
use crate::device::Device;
use crate::device::StepContext;
use crate::utils::is_floor_sqrt;
use crate::utils::isqrt;
use crate::utils::lemma_mul_ge_one;
use crate::utils::lemma_mul_le;
use crate::utils::MICRO;

verus! {

/// Nanoseconds in one second.
pub const NANOS_PER_SEC: u64 = 1_000_000_000;

/// Nanoseconds per second times micro-steps per step: dividing this by a
/// speed in micro-steps per second gives the matching interval between
/// steps in nanoseconds, and the other way round.
pub const INTERVAL_NUMERATOR: u64 = 1_000_000_000 * 1_000_000;

/// Highest accepted speed magnitude, in micro-steps per second (one billion
/// whole steps per second): beyond it step intervals would vanish below one
/// nanosecond.
pub const MAX_SPEED_LIMIT: u64 = 1_000_000_000 * 1_000_000;

/// Highest accepted acceleration, in micro-steps per second squared.
pub const MAX_ACCELERATION_LIMIT: u64 = 1_000_000_000 * 1_000_000;

/// Saturation bound for the phase index and for estimated stopping
/// distances, one below `i64::MAX` so the index can always be incremented.
pub const COUNTER_LIMIT: i64 = 9_223_372_036_854_775_806;

/// The radicand numerator of the first-step time: the duration of the first
/// step at acceleration `a` micro-steps per second squared is
/// `0.676 * sqrt(2 / a)` seconds, which in nanoseconds is the square root of
/// this value divided by `a`, scaled by the correction factor below.
pub const FIRST_STEP_RADICAND: u128 = 2_000_000_000_000_000_000_000_000;

/// Numerator of the empirical first-step overshoot correction factor 0.676.
pub const CORRECTION_NUMERATOR: u64 = 676;

/// Denominator of the first-step overshoot correction factor.
pub const CORRECTION_DENOMINATOR: u64 = 1000;

/// Mathematical model of a [`Driver`]: every field as an unbounded integer.
pub ghost struct DriverModel {
    /// Speed ceiling, micro-steps per second; positive.
    pub max_speed: int,
    /// Acceleration magnitude, micro-steps per second squared; positive.
    pub acceleration: int,
    /// Current absolute position, steps.
    pub current_position: int,
    /// Target absolute position, steps.
    pub target_position: int,
    /// Signed instantaneous speed, micro-steps per second.
    pub speed: int,
    /// Wait between steps, nanoseconds; zero means not moving.
    pub step_interval: int,
    /// Clock reading of the most recent successful step, nanoseconds.
    pub last_step_time: int,
    /// Signed phase index: positive while accelerating, negative while
    /// decelerating, zero at a stop.
    pub step_counter: int,
    /// Cached duration of the first step of a phase, nanoseconds.
    pub initial_step_size: int,
    /// Duration of the most recently scheduled step, nanoseconds.
    pub last_step_size: int,
    /// Lower bound on step durations, from `max_speed`; nanoseconds.
    pub min_step_size: int,
}

impl DriverModel {
    /// Steps remaining to the target; negative when the target lies behind.
    pub open spec fn distance_to_go(self) -> int {
        self.target_position - self.current_position
    }

    /// Running means moving or not yet at the target.
    pub open spec fn is_running(self) -> bool {
        self.speed != 0 || self.current_position != self.target_position
    }
}

/// The smallest permitted step interval for a speed ceiling: one second
/// divided by the ceiling, never below one nanosecond.
pub open spec fn min_step_of(max_speed: int) -> int {
    let raw = INTERVAL_NUMERATOR as int / max_speed;
    if raw < 1 {
        1
    } else {
        raw
    }
}

/// `step` is the first-step duration derived from `acceleration`:
/// the floor square root of the radicand, corrected by 0.676.
pub open spec fn initial_step_matches(acceleration: int, step: int) -> bool {
    exists|r: int|
        #[trigger] is_floor_sqrt(FIRST_STEP_RADICAND as int / acceleration, r) && step
            == CORRECTION_NUMERATOR as int * r / (CORRECTION_DENOMINATOR as int)
}

/// The number of steps needed to decelerate from `speed` to rest at
/// `acceleration`: `speed^2 / (2 * acceleration)` rounded half away from
/// zero, saturated at [`COUNTER_LIMIT`].  Both arguments are micro-scaled,
/// hence the extra factors of [`MICRO`].
pub open spec fn steps_to_stop_of(speed: int, acceleration: int) -> int {
    let raw = (speed * speed + MICRO as int * acceleration) / (2 * (MICRO as int
        * acceleration));
    if raw > COUNTER_LIMIT as int {
        COUNTER_LIMIT as int
    } else {
        raw
    }
}

/// The phase index after the phase-transition rules: flip to deceleration
/// when the stopping distance reaches the remaining distance, back to
/// acceleration when it shrinks below it, in either direction of travel.
pub open spec fn retargeted_counter(m: DriverModel) -> int {
    let dist = m.distance_to_go();
    let sts = steps_to_stop_of(m.speed, m.acceleration);
    if dist > 0 {
        if m.step_counter > 0 && sts >= dist {
            -sts
        } else if m.step_counter < 0 && sts < dist {
            -m.step_counter
        } else {
            m.step_counter
        }
    } else if dist < 0 {
        if m.step_counter > 0 && sts >= -dist {
            -sts
        } else if m.step_counter < 0 && sts < -dist {
            -m.step_counter
        } else {
            m.step_counter
        }
    } else {
        m.step_counter
    }
}

/// The next step duration, from the incremental recurrence: the first step
/// of a phase takes `initial_step_size`; each later step shrinks (phase
/// index positive) or grows (negative) the previous duration by
/// `2 / (4 * index + 1)` of itself, clamped between `min_step_size` and
/// [`INTERVAL_NUMERATOR`].
pub open spec fn next_step_size(m: DriverModel, counter: int) -> int {
    if counter == 0 {
        m.initial_step_size
    } else {
        let shrink = if counter > 0 {
            2 * m.last_step_size / (4 * counter + 1)
        } else {
            -(2 * m.last_step_size / (4 * (-counter) - 1))
        };
        let raw = m.last_step_size - shrink;
        let floored = if raw < m.min_step_size {
            m.min_step_size
        } else {
            raw
        };
        if floored > INTERVAL_NUMERATOR as int {
            INTERVAL_NUMERATOR as int
        } else {
            floored
        }
    }
}

/// The full profile recomputation: arrive-and-stop when the target is
/// reached with no residual momentum; otherwise retarget the phase index,
/// advance the step-size recurrence, and re-derive interval and speed.
pub open spec fn spec_compute_new_speed(m: DriverModel) -> DriverModel {
    let dist = m.distance_to_go();
    let sts = steps_to_stop_of(m.speed, m.acceleration);
    if dist == 0 && sts <= 1 {
        DriverModel { step_interval: 0, speed: 0, step_counter: 0, ..m }
    } else {
        let n = retargeted_counter(m);
        let size = next_step_size(m, n);
        let n_next = if n < COUNTER_LIMIT as int {
            n + 1
        } else {
            n
        };
        let raw_magnitude = INTERVAL_NUMERATOR as int / size;
        let magnitude = if raw_magnitude > m.max_speed {
            m.max_speed
        } else {
            raw_magnitude
        };
        DriverModel {
            step_counter: n_next,
            last_step_size: size,
            step_interval: size,
            speed: if dist < 0 {
                -magnitude
            } else {
                magnitude
            },
            ..m
        }
    }
}

/// A speed clamped into `[-max_speed, max_speed]`.
pub open spec fn clamp_speed(v: int, max_speed: int) -> int {
    if v < -max_speed {
        -max_speed
    } else if v > max_speed {
        max_speed
    } else {
        v
    }
}

/// Setting a constant cruising speed: a no-op when unchanged; otherwise the
/// clamped speed with its matching interval, zero speed meaning stopped.
pub open spec fn spec_set_speed(m: DriverModel, v: int) -> DriverModel {
    if v == m.speed {
        m
    } else {
        let s = clamp_speed(v, m.max_speed);
        let interval = if s == 0 {
            0
        } else if s > 0 {
            INTERVAL_NUMERATOR as int / s
        } else {
            INTERVAL_NUMERATOR as int / -s
        };
        DriverModel { speed: s, step_interval: interval, ..m }
    }
}

/// Setting a new target: a no-op when it is already the target; otherwise a
/// full profile recomputation.
pub open spec fn spec_move_to(m: DriverModel, location: int) -> DriverModel {
    if m.target_position == location {
        m
    } else {
        spec_compute_new_speed(DriverModel { target_position: location, ..m })
    }
}

/// Well-formedness of a driver model: parameter ranges, the cached derived
/// quantities agreeing with the parameters they are derived from, and the
/// central invariant that the interval is zero exactly when the speed is.
pub open spec fn wf_model(m: DriverModel) -> bool {
    &&& 1 <= m.max_speed <= MAX_SPEED_LIMIT as int
    &&& 1 <= m.acceleration <= MAX_ACCELERATION_LIMIT as int
    &&& m.min_step_size == min_step_of(m.max_speed)
    &&& initial_step_matches(m.acceleration, m.initial_step_size)
    &&& 1 <= m.initial_step_size <= INTERVAL_NUMERATOR as int
    &&& -(MAX_SPEED_LIMIT as int) <= m.speed <= MAX_SPEED_LIMIT as int
    &&& (m.speed == 0 <==> m.step_interval == 0)
    &&& 0 <= m.step_interval <= INTERVAL_NUMERATOR as int
    &&& 0 <= m.last_step_size <= INTERVAL_NUMERATOR as int
    &&& (m.step_counter != 0 ==> m.last_step_size >= 1)
    &&& -(COUNTER_LIMIT as int) <= m.step_counter <= COUNTER_LIMIT as int
    &&& i64::MIN <= m.current_position <= i64::MAX
    &&& i64::MIN <= m.target_position <= i64::MAX
    &&& 0 <= m.last_step_time <= u64::MAX
}

/// A stepper motor axis: the profile state machine that decides when each
/// step pulse falls due.
#[derive(Debug, PartialEq, Eq, Structural)]
pub struct Driver {
    max_speed: u64,
    acceleration: u64,
    current_position: i64,
    step_interval: u64,
    speed: i64,
    target_position: i64,
    last_step_time: u64,
    step_counter: i64,
    initial_step_size: u64,
    last_step_size: u64,
    min_step_size: u64,
}

impl View for Driver {
    type V = DriverModel;

    closed spec fn view(&self) -> DriverModel {
        DriverModel {
            max_speed: self.max_speed as int,
            acceleration: self.acceleration as int,
            current_position: self.current_position as int,
            target_position: self.target_position as int,
            speed: self.speed as int,
            step_interval: self.step_interval as int,
            last_step_time: self.last_step_time as int,
            step_counter: self.step_counter as int,
            initial_step_size: self.initial_step_size as int,
            last_step_size: self.last_step_size as int,
            min_step_size: self.min_step_size as int,
        }
    }
}

impl Driver {
    /// The driver is well-formed.
    pub open spec fn wf(self) -> bool {
        wf_model(self@)
    }

    /// A fresh axis at position zero with default motion parameters of one
    /// step per second and one step per second squared, immediately
    /// runnable.
    pub fn new() -> (d: Driver)
        ensures
            d.wf(),
            d@.max_speed == MICRO as int,
            d@.acceleration == MICRO as int,
            d@.current_position == 0,
            d@.target_position == 0,
            d@.speed == 0,
            d@.step_interval == 0,
            d@.last_step_time == 0,
            d@.step_counter == 0,
            d@.last_step_size == 0,
            d@.min_step_size == NANOS_PER_SEC as int,
            initial_step_matches(MICRO as int, d@.initial_step_size),
    {
        let initial: u64 = first_step_size(MICRO);
        Driver {
            max_speed: MICRO,
            acceleration: MICRO,
            current_position: 0,
            step_interval: 0,
            speed: 0,
            target_position: 0,
            last_step_time: 0,
            step_counter: 0,
            initial_step_size: initial,
            last_step_size: 0,
            min_step_size: INTERVAL_NUMERATOR / MICRO,
        }
    }

    /// Get the maximum permitted speed, in micro-steps per second.
    pub fn max_speed(&self) -> (r: u64)
        ensures
            r as int == self@.max_speed,
    {
        self.max_speed
    }

    /// Get the acceleration magnitude, in micro-steps per second squared.
    pub fn acceleration(&self) -> (r: u64)
        ensures
            r as int == self@.acceleration,
    {
        self.acceleration
    }

    /// Get the most recently computed signed speed, in micro-steps per
    /// second.
    pub fn speed(&self) -> (r: i64)
        ensures
            r as int == self@.speed,
    {
        self.speed
    }

    /// Get the current wait between steps, in nanoseconds; zero means the
    /// axis is not moving.
    pub fn step_interval(&self) -> (r: u64)
        ensures
            r as int == self@.step_interval,
    {
        self.step_interval
    }

    /// Get the most recently set target position.
    pub fn target_position(&self) -> (r: i64)
        ensures
            r as int == self@.target_position,
    {
        self.target_position
    }

    /// Get the current position, as counted from emitted pulses.  Stepper
    /// motors are an open-loop system, so there is no guarantee the motor
    /// is physically there.
    pub fn current_position(&self) -> (r: i64)
        ensures
            r as int == self@.current_position,
    {
        self.current_position
    }

    /// Get the number of steps to go until the target is reached.
    pub fn distance_to_go(&self) -> (r: i64)
        requires
            i64::MIN <= self@.distance_to_go() <= i64::MAX,
        ensures
            r as int == self@.distance_to_go(),
    {
        self.target_position - self.current_position
    }

    /// Is the motor still running toward a target?  True when it is moving
    /// or has not yet arrived.
    pub fn is_running(&self) -> (r: bool)
        ensures
            r == self@.is_running(),
    {
        self.speed != 0 || self.target_position != self.current_position
    }

    /// Reset the current location so it is considered position `position`:
    /// both current and target positions are set and the axis stops.  A
    /// recalibration primitive, not a move.
    pub fn set_current_position(&mut self, position: i64)
        requires
            old(self).wf(),
        ensures
            final(self).wf(),
            final(self)@ == (DriverModel {
                current_position: position as int,
                target_position: position as int,
                speed: 0,
                step_interval: 0,
                ..old(self)@
            }),
    {
        self.current_position = position;
        self.target_position = position;
        self.step_interval = 0;
        self.speed = 0;
    }

    /// Set the maximum permitted speed, in micro-steps per second, and
    /// recompute the smallest permitted step interval from it.
    pub fn set_max_speed(&mut self, steps_per_second: u64)
        requires
            old(self).wf(),
            1 <= steps_per_second <= MAX_SPEED_LIMIT,
        ensures
            final(self).wf(),
            final(self)@ == (DriverModel {
                max_speed: steps_per_second as int,
                min_step_size: min_step_of(steps_per_second as int),
                ..old(self)@
            }),
    {
        self.max_speed = steps_per_second;
        let raw: u64 = INTERVAL_NUMERATOR / steps_per_second;
        self.min_step_size = if raw < 1 {
            1
        } else {
            raw
        };
    }
}

impl Driver {
    /// The saturated stopping-distance estimate for the current speed and
    /// acceleration.
    fn steps_to_stop(&self) -> (r: i64)
        requires
            1 <= self@.acceleration <= MAX_ACCELERATION_LIMIT as int,
            -(MAX_SPEED_LIMIT as int) <= self@.speed <= MAX_SPEED_LIMIT as int,
        ensures
            r as int == steps_to_stop_of(self@.speed, self@.acceleration),
            0 <= r <= COUNTER_LIMIT,
    {
        let mag: u64 = if self.speed >= 0 {
            self.speed as u64
        } else {
            (-(self.speed as i128)) as u64
        };
        proof {
            assert((mag as int) * (mag as int) == self@.speed * self@.speed) by (nonlinear_arith)
                requires
                    mag as int == self@.speed || mag as int == -self@.speed,
            ;
            lemma_mul_le(mag as int, mag as int, MAX_SPEED_LIMIT as int, MAX_SPEED_LIMIT as int);
            lemma_mul_le(
                MICRO as int,
                self@.acceleration,
                MICRO as int,
                MAX_ACCELERATION_LIMIT as int,
            );
            lemma_mul_ge_one(MICRO as int, self@.acceleration);
        }
        let square: u128 = (mag as u128) * (mag as u128);
        let micro_acc: u128 = (MICRO as u128) * (self.acceleration as u128);
        let num: u128 = square + micro_acc;
        let den: u128 = 2 * micro_acc;
        proof {
            vstd::arithmetic::div_mod::lemma_div_pos_is_pos(num as int, den as int);
        }
        let raw: u128 = num / den;
        if raw > COUNTER_LIMIT as u128 {
            COUNTER_LIMIT
        } else {
            raw as i64
        }
    }

    /// Recompute the current speed and the wait before the next step from
    /// the present position, target, speed and acceleration.  Invoked by
    /// every setter that disturbs the profile and after every successful
    /// step.
    ///
    /// When the axis is at its target with at most one step of momentum
    /// left it comes to a full stop: zero interval, zero speed, phase index
    /// reset.
    pub fn compute_new_speed(&mut self)
        requires
            old(self).wf(),
        ensures
            final(self).wf(),
            final(self)@ == spec_compute_new_speed(old(self)@),
    {
        let dist: i128 = (self.target_position as i128) - (self.current_position as i128);
        let sts: i64 = self.steps_to_stop();
        if dist == 0 && sts <= 1 {
            // Arrived, and no residual momentum: full stop.
            self.step_interval = 0;
            self.speed = 0;
            self.step_counter = 0;
            return;
        }
        if dist > 0 {
            // The target is ahead.
            if self.step_counter > 0 {
                // Accelerating: decelerate once stopping needs the whole
                // remaining distance.
                if (sts as i128) >= dist {
                    self.step_counter = -sts;
                }
            } else if self.step_counter < 0 {
                // Decelerating: accelerate again once stopping has become
                // cheap enough.
                if (sts as i128) < dist {
                    self.step_counter = -self.step_counter;
                }
            }
        } else if dist < 0 {
            // The target is behind; the same rules mirrored.
            if self.step_counter > 0 {
                if (sts as i128) >= -dist {
                    self.step_counter = -sts;
                }
            } else if self.step_counter < 0 {
                if (sts as i128) < -dist {
                    self.step_counter = -self.step_counter;
                }
            }
        }
        if self.step_counter == 0 {
            // First step of a phase.
            self.last_step_size = self.initial_step_size;
        } else {
            // Subsequent step: the same correction serves acceleration
            // (positive index) and deceleration (negative index).
            let ls: u128 = self.last_step_size as u128;
            let raw128: u128 = if self.step_counter > 0 {
                let den: u128 = 4 * (self.step_counter as u128) + 1;
                proof {
                    vstd::arithmetic::div_mod::lemma_div_is_ordered_by_denominator(
                        2 * (ls as int),
                        2,
                        den as int,
                    );
                    vstd::arithmetic::div_mod::lemma_div_multiples_vanish(ls as int, 2);
                }
                ls - (2 * ls) / den
            } else {
                let m: u128 = (-(self.step_counter as i128)) as u128;
                let den: u128 = 4 * m - 1;
                proof {
                    vstd::arithmetic::div_mod::lemma_div_nonincreasing(2 * (ls as int), den as int);
                }
                ls + (2 * ls) / den
            };
            let mut size: u64 = raw128 as u64;
            if size < self.min_step_size {
                size = self.min_step_size;
            }
            if size > INTERVAL_NUMERATOR {
                size = INTERVAL_NUMERATOR;
            }
            self.last_step_size = size;
        }
        if self.step_counter < COUNTER_LIMIT {
            self.step_counter = self.step_counter + 1;
        }
        self.step_interval = self.last_step_size;
        proof {
            vstd::arithmetic::div_mod::lemma_div_is_ordered_by_denominator(
                INTERVAL_NUMERATOR as int,
                self@.last_step_size,
                INTERVAL_NUMERATOR as int,
            );
        }
        let magnitude: u64 = INTERVAL_NUMERATOR / self.last_step_size;
        let capped: u64 = if magnitude > self.max_speed {
            self.max_speed
        } else {
            magnitude
        };
        self.speed = if dist < 0 {
            -(capped as i64)
        } else {
            capped as i64
        };
    }
}

impl Driver {
    /// Move to an absolute location, relative to the zero point set when
    /// calibrating with [`Driver::set_current_position`]: a no-op when the
    /// target is unchanged, otherwise a full profile recomputation.
    pub fn move_to(&mut self, location: i64)
        requires
            old(self).wf(),
        ensures
            final(self).wf(),
            final(self)@ == spec_move_to(old(self)@, location as int),
    {
        if self.target_position != location {
            self.target_position = location;
            self.compute_new_speed();
        }
    }

    /// Move forward (or backward, when negative) by a number of steps
    /// relative to the current position.
    pub fn move_by(&mut self, delta: i64)
        requires
            old(self).wf(),
            i64::MIN <= old(self)@.current_position + delta as int <= i64::MAX,
        ensures
            final(self).wf(),
            final(self)@ == spec_move_to(
                old(self)@,
                old(self)@.current_position + delta as int,
            ),
    {
        let location: i64 = self.current_position + delta;
        self.move_to(location);
    }

    /// Set the desired constant cruising speed, in signed micro-steps per
    /// second, bypassing acceleration planning.  The value is clamped to
    /// `[-max_speed, max_speed]`; zero stops the axis; an unchanged value
    /// is a no-op.
    pub fn set_speed(&mut self, speed: i64)
        requires
            old(self).wf(),
        ensures
            final(self).wf(),
            final(self)@ == spec_set_speed(old(self)@, speed as int),
    {
        if speed == self.speed {
            return;
        }
        let max_signed: i64 = self.max_speed as i64;
        let clamped: i64 = if speed < -max_signed {
            -max_signed
        } else if speed > max_signed {
            max_signed
        } else {
            speed
        };
        if clamped == 0 {
            self.step_interval = 0;
        } else {
            let mag: u64 = if clamped > 0 {
                clamped as u64
            } else {
                (-(clamped as i128)) as u64
            };
            proof {
                vstd::arithmetic::div_mod::lemma_div_is_ordered_by_denominator(
                    INTERVAL_NUMERATOR as int,
                    1,
                    mag as int,
                );
                vstd::arithmetic::div_mod::lemma_div_is_ordered_by_denominator(
                    INTERVAL_NUMERATOR as int,
                    mag as int,
                    INTERVAL_NUMERATOR as int,
                );
            }
            self.step_interval = INTERVAL_NUMERATOR / mag;
        }
        self.speed = clamped;
    }

    /// Set the acceleration and deceleration rate, in micro-steps per
    /// second squared.  Zero is ignored; the magnitude is used whatever the
    /// sign; an unchanged magnitude is a no-op.  Otherwise the phase index
    /// is rescaled by the ratio of old to new acceleration, so the current
    /// phase carries on under the new rate, the first-step duration is
    /// re-derived, and the profile recomputed.
    pub fn set_acceleration(&mut self, acceleration: i64)
        requires
            old(self).wf(),
            -(MAX_ACCELERATION_LIMIT as i64) <= acceleration <= MAX_ACCELERATION_LIMIT as i64,
        ensures
            final(self).wf(),
            acceleration == 0 ==> final(self)@ == old(self)@,
            abs_of(acceleration as int) == old(self)@.acceleration ==> final(self)@ == old(
                self,
            )@,
            acceleration != 0 && abs_of(acceleration as int) != old(self)@.acceleration
                ==> exists|r: int|
                #[trigger] is_floor_sqrt(
                    FIRST_STEP_RADICAND as int / abs_of(acceleration as int),
                    r,
                ) && final(self)@ == spec_compute_new_speed(
                (DriverModel {
                    acceleration: abs_of(acceleration as int),
                    step_counter: rescaled_counter(
                        old(self)@.step_counter,
                        old(self)@.acceleration,
                        abs_of(acceleration as int),
                    ),
                    initial_step_size: CORRECTION_NUMERATOR as int * r / (
                    CORRECTION_DENOMINATOR as int),
                    ..old(self)@
                }),
            ),
    {
        if acceleration == 0 {
            return;
        }
        let magnitude: u64 = if acceleration > 0 {
            acceleration as u64
        } else {
            (-(acceleration as i128)) as u64
        };
        if magnitude == self.acceleration {
            return;
        }
        // Rescale the phase index by the ratio of accelerations, so the
        // closed-form recurrence resumes at the right place under the new
        // rate.
        let counter_mag: u128 = if self.step_counter >= 0 {
            self.step_counter as u128
        } else {
            (-(self.step_counter as i128)) as u128
        };
        proof {
            lemma_mul_le(
                counter_mag as int,
                old(self)@.acceleration,
                COUNTER_LIMIT as int,
                MAX_ACCELERATION_LIMIT as int,
            );
        }
        let scaled: u128 = (counter_mag * (self.acceleration as u128)) / (magnitude as u128);
        proof {
            if counter_mag == 0 {
                let a0: int = self@.acceleration;
                assert(counter_mag as int * a0 == 0) by (nonlinear_arith)
                    requires
                        counter_mag as int == 0,
                ;
                vstd::arithmetic::div_mod::lemma_div_of0(magnitude as int);
            }
        }
        let scaled_sat: i64 = if scaled > COUNTER_LIMIT as u128 {
            COUNTER_LIMIT
        } else {
            scaled as i64
        };
        self.step_counter = if self.step_counter >= 0 {
            scaled_sat
        } else {
            -scaled_sat
        };
        self.initial_step_size = first_step_size(magnitude);
        self.acceleration = magnitude;
        self.compute_new_speed();
    }

    /// Set a new target that brings the axis to rest as quickly as the
    /// current speed and acceleration allow: the stopping distance plus one
    /// step of safety margin, ahead in the direction of travel.  A no-op
    /// when already stopped.
    pub fn stop(&mut self)
        requires
            old(self).wf(),
            i64::MIN <= stop_target(old(self)@) <= i64::MAX,
        ensures
            final(self).wf(),
            old(self)@.speed == 0 ==> final(self)@ == old(self)@,
            old(self)@.speed != 0 ==> final(self)@ == spec_move_to(
                old(self)@,
                stop_target(old(self)@),
            ),
    {
        if self.speed == 0 {
            return;
        }
        let sts: i64 = self.steps_to_stop();
        let margin: i64 = sts + 1;
        if self.speed > 0 {
            self.move_by(margin);
        } else {
            self.move_by(-margin);
        }
    }
}

/// The next position can be formed without leaving the 64-bit range: a
/// backward step away from `i64::MIN` is never asked for.  Trivially true
/// anywhere a physical axis can be.
pub open spec fn can_step(m: DriverModel) -> bool {
    m.current_position > i64::MIN || m.target_position > m.current_position
}

/// `post` is `pre` exactly one emitted step later: the position has moved
/// one step toward the target (away from it only when already there), the
/// step time has advanced by at least one whole interval, and every other
/// field is untouched.
pub open spec fn stepped_from(pre: DriverModel, post: DriverModel) -> bool {
    &&& pre.step_interval != 0
    &&& post.current_position == pre.current_position + (if pre.distance_to_go() > 0 {
        1int
    } else {
        -1int
    })
    &&& post.last_step_time >= pre.last_step_time + pre.step_interval
    &&& post.last_step_time <= u64::MAX
    &&& post.max_speed == pre.max_speed
    &&& post.acceleration == pre.acceleration
    &&& post.target_position == pre.target_position
    &&& post.speed == pre.speed
    &&& post.step_interval == pre.step_interval
    &&& post.step_counter == pre.step_counter
    &&& post.initial_step_size == pre.initial_step_size
    &&& post.last_step_size == pre.last_step_size
    &&& post.min_step_size == pre.min_step_size
}

/// What one successful [`Driver::poll`] may do: nothing (no step was due),
/// or one step toward the target followed by the profile recomputation.
pub open spec fn poll_transition(pre: DriverModel, post: DriverModel) -> bool {
    post == pre || exists|mid: DriverModel|
        #[trigger] stepped_from(pre, mid) && post == spec_compute_new_speed(mid)
}

impl Driver {
    /// Is a step due at clock reading `now`?  True exactly when the axis
    /// is moving and a whole step interval has passed since the last step.
    /// This is the entire timing decision [`Driver::poll_at_constant_speed`]
    /// makes with the reading it draws from the clock.
    pub fn step_due(&self, now: u64) -> (r: bool)
        ensures
            r == (self@.step_interval != 0 && now as int >= self@.last_step_time
                + self@.step_interval),
    {
        self.step_interval != 0 && now >= self.last_step_time && now - self.last_step_time
            >= self.step_interval
    }

    /// Poll the axis against a clock and emit a step to `device` if one is
    /// due under the already-computed `step_interval`, without recomputing
    /// the profile.  Returns whether a step occurred; a failed emission
    /// leaves the driver exactly as it was, so a retried poll attempts the
    /// identical step again.
    ///
    /// Call this at least once per step interval.  Each call takes at most
    /// one step: delayed polls do not catch up.
    pub fn poll_at_constant_speed<D: Device, C: SystemClock>(
        &mut self,
        device: &mut D,
        clock: &C,
    ) -> (r: Result<bool, D::Error>)
        requires
            old(self).wf(),
            can_step(old(self)@),
        ensures
            final(self).wf(),
            old(self)@.step_interval == 0 ==> r matches Ok(false),
            r matches Ok(false) ==> final(self)@ == old(self)@,
            r matches Ok(true) ==> stepped_from(old(self)@, final(self)@),
            r matches Err(_) ==> final(self)@ == old(self)@,
    {
        // Nothing to do unless a step interval has been computed; the
        // clock is only consulted while the axis is moving.
        if self.step_interval == 0 {
            return Ok(false);
        }
        let now: u64 = clock.elapsed();
        if self.step_due(now) {
            let forward: bool = (self.target_position as i128) - (self.current_position as i128)
                > 0;
            let new_position: i64 = if forward {
                self.current_position + 1
            } else {
                self.current_position - 1
            };
            let ctx = StepContext { position: new_position, step_time: now };
            // A failed step must not change any internal state, so the
            // position and timestamp are committed only on success.
            match device.step(&ctx) {
                Ok(_) => {
                    self.current_position = new_position;
                    self.last_step_time = now;
                    Ok(true)
                },
                Err(e) => Err(e),
            }
        } else {
            Ok(false)
        }
    }

    /// Poll the axis: emit a step if one is due, and after a successful
    /// step re-derive the next interval from the new position.  Fails with
    /// the device's own error if emitting fails, in which case the driver
    /// is left exactly as it was.
    ///
    /// Call this as often as possible, at least once per step interval,
    /// with the same clock every time.
    pub fn poll<D: Device, C: SystemClock>(&mut self, device: &mut D, clock: &C) -> (r: Result<
        (),
        D::Error,
    >)
        requires
            old(self).wf(),
            can_step(old(self)@),
        ensures
            final(self).wf(),
            r matches Ok(_) ==> poll_transition(old(self)@, final(self)@),
            r matches Err(_) ==> final(self)@ == old(self)@,
            old(self)@.step_interval == 0 ==> ((r matches Ok(_)) && final(self)@ == old(self)@),
            final(self)@.target_position == old(self)@.target_position,
            final(self)@.max_speed == old(self)@.max_speed,
            final(self)@.acceleration == old(self)@.acceleration,
            old(self)@.current_position != old(self)@.target_position ==> abs_of(
                final(self)@.distance_to_go(),
            ) <= abs_of(old(self)@.distance_to_go()),
            old(self)@.current_position != old(self)@.target_position
                && final(self)@.current_position != old(self)@.current_position ==> abs_of(
                final(self)@.distance_to_go(),
            ) < abs_of(old(self)@.distance_to_go()),
            final(self)@.current_position != old(self)@.current_position ==> (
            old(self)@.step_interval != 0 && (final(self)@.current_position == old(
                self,
            )@.current_position + 1 <==> old(self)@.distance_to_go() > 0)),
    {
        let stepped: bool = match self.poll_at_constant_speed(device, clock) {
            Ok(b) => b,
            Err(e) => {
                return Err(e);
            },
        };
        if stepped {
            let ghost mid: DriverModel = self@;
            self.compute_new_speed();
            proof {
                assert(stepped_from(old(self)@, mid));
            }
        }
        Ok(())
    }
}

/// The magnitude of a value.
pub open spec fn abs_of(v: int) -> int {
    if v >= 0 {
        v
    } else {
        -v
    }
}

/// The phase index rescaled for a change of acceleration: its magnitude is
/// multiplied by the ratio of old to new acceleration, truncated, and
/// saturated at [`COUNTER_LIMIT`]; the sign is kept.
pub open spec fn rescaled_counter(counter: int, old_acceleration: int, new_acceleration: int) -> int {
    let scaled = abs_of(counter) * old_acceleration / new_acceleration;
    let sat = if scaled > COUNTER_LIMIT as int {
        COUNTER_LIMIT as int
    } else {
        scaled
    };
    if counter >= 0 {
        sat
    } else {
        -sat
    }
}

/// The absolute location at which [`Driver::stop`] aims: one stopping
/// distance plus one step beyond the current position, in the direction of
/// travel; the current position when already stopped.
pub open spec fn stop_target(m: DriverModel) -> int {
    if m.speed == 0 {
        m.current_position
    } else if m.speed > 0 {
        m.current_position + steps_to_stop_of(m.speed, m.acceleration) + 1
    } else {
        m.current_position - (steps_to_stop_of(m.speed, m.acceleration) + 1)
    }
}

impl Default for Driver {
    /// The same immediately runnable axis as [`Driver::new`].
    fn default() -> (d: Driver)
        ensures
            d.wf(),
            d@.max_speed == MICRO as int,
            d@.acceleration == MICRO as int,
            d@.current_position == 0,
            d@.target_position == 0,
            d@.speed == 0,
            d@.step_interval == 0,
            d@.last_step_time == 0,
            d@.step_counter == 0,
            d@.last_step_size == 0,
            d@.min_step_size == NANOS_PER_SEC as int,
            initial_step_matches(MICRO as int, d@.initial_step_size),
    {
        Driver::new()
    }
}

/// No movement when already at the target: recomputing the profile for an
/// axis that is at its target with zero speed leaves it stopped, with zero
/// interval, zero speed and a reset phase index.
pub proof fn lemma_no_movement_at_target(m: DriverModel)
    requires
        wf_model(m),
        m.current_position == m.target_position,
        m.speed == 0,
    ensures
        spec_compute_new_speed(m).step_interval == 0,
        spec_compute_new_speed(m).speed == 0,
        spec_compute_new_speed(m).step_counter == 0,
        spec_compute_new_speed(m).current_position == m.current_position,
        spec_compute_new_speed(m).target_position == m.target_position,
{
    lemma_mul_ge_one(MICRO as int, m.acceleration);
    assert(m.speed * m.speed == 0) by (nonlinear_arith)
        requires
            m.speed == 0,
    ;
    let x: int = MICRO as int * m.acceleration;
    vstd::arithmetic::div_mod::lemma_basic_div(x, 2 * x);
}

/// The duration, in nanoseconds, of the first step of an acceleration phase
/// at the given acceleration: `0.676 * sqrt(2 / a)` seconds, evaluated in
/// fixed point.
fn first_step_size(acceleration: u64) -> (s: u64)
    requires
        1 <= acceleration <= MAX_ACCELERATION_LIMIT,
    ensures
        initial_step_matches(acceleration as int, s as int),
        1 <= s <= INTERVAL_NUMERATOR,
{
    let radicand: u128 = FIRST_STEP_RADICAND / (acceleration as u128);
    proof {
        vstd::arithmetic::div_mod::lemma_div_is_ordered_by_denominator(
            FIRST_STEP_RADICAND as int,
            acceleration as int,
            MAX_ACCELERATION_LIMIT as int,
        );
        vstd::arithmetic::div_mod::lemma_div_is_ordered_by_denominator(
            FIRST_STEP_RADICAND as int,
            1,
            acceleration as int,
        );
    }
    let r: u64 = isqrt(radicand);
    proof {
        lemma_floor_sqrt_range(radicand as int, r as int);
    }
    let s: u64 = ((CORRECTION_NUMERATOR as u128 * (r as u128))
        / (CORRECTION_DENOMINATOR as u128)) as u64;
    proof {
        assert(is_floor_sqrt(FIRST_STEP_RADICAND as int / (acceleration as int), r as int));
        assert(s as int == CORRECTION_NUMERATOR as int * (r as int) / (
        CORRECTION_DENOMINATOR as int));
    }
    s
}

/// Range facts about the floor square root of a first-step radicand: for
/// accepted accelerations the corrected root always lands between one
/// nanosecond and one maximal interval.
proof fn lemma_floor_sqrt_range(n: int, r: int)
    requires
        is_floor_sqrt(n, r),
        2_000_000_000 <= n <= FIRST_STEP_RADICAND as int,
    ensures
        44_721 <= r <= 1_500_000_000_000,
        1 <= CORRECTION_NUMERATOR as int * r / (CORRECTION_DENOMINATOR as int)
            <= INTERVAL_NUMERATOR as int,
{
    assert(r <= 1_500_000_000_000 && r + 1 > 44_721) by (nonlinear_arith)
        requires
            0 <= r,
            r * r <= 2_000_000_000_000_000_000_000_000,
            (r + 1) * (r + 1) > 2_000_000_000,
    ;
    assert(676 * r / 1000 >= 676 * 44_721 / 1000) by {
        vstd::arithmetic::div_mod::lemma_div_is_ordered(676int * 44_721, 676int * r, 1000);
        assert(676 * 44_721 <= 676 * r) by (nonlinear_arith)
            requires
                44_721 <= r,
        ;
    }
    assert(676 * r / 1000 <= 676 * 1_500_000_000_000 / 1000) by {
        vstd::arithmetic::div_mod::lemma_div_is_ordered(676int * r, 676int * 1_500_000_000_000, 1000);
        assert(676 * r <= 676 * 1_500_000_000_000) by (nonlinear_arith)
            requires
                r <= 1_500_000_000_000,
        ;
    }
}

} // verus!
