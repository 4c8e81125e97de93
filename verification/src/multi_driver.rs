//! The multi-axis synchronization layer: a controller that owns several
//! [`Driver`]s and keeps coordinated moves starting and finishing together.

use vstd::prelude::*;

use crate::clock::SystemClock;
use crate::device::Device;
use crate::driver::abs_of;
use crate::driver::can_step;
use crate::driver::poll_transition;
use crate::driver::spec_move_to;
use crate::driver::spec_set_speed;
use crate::driver::wf_model;
use crate::driver::Driver;
use crate::driver::DriverModel;
use crate::driver::INTERVAL_NUMERATOR;
use crate::driver::MAX_SPEED_LIMIT;
use crate::utils::div_trunc;
use crate::utils::lemma_mul_le;

verus! {

/// The nanoseconds one axis alone would need to reach `pos` at its own
/// speed ceiling, on a linear ramp.
pub open spec fn time_to_move_of(m: DriverModel, pos: int) -> int {
    crate::driver::abs_of(pos - m.current_position) * (INTERVAL_NUMERATOR as int) / m.max_speed
}

/// The largest [`time_to_move_of`] among the first `n` axes: the slowest
/// axis sets the pace of a coordinated move.
pub open spec fn longest_time_of(models: Seq<DriverModel>, positions: Seq<i64>, n: int) -> int
    decreases n,
{
    if n <= 0 {
        0
    } else {
        let t = time_to_move_of(models[n - 1], positions[n - 1] as int);
        let rest = longest_time_of(models, positions, n - 1);
        if t > rest {
            t
        } else {
            rest
        }
    }
}

/// The linear-ramp speed assigned to one axis of a coordinated move:
/// distance over the common travel time, truncated toward zero and
/// saturated at the global speed limit (the per-axis ceiling still applies
/// through the speed setter's own clamp).
pub open spec fn coordinated_speed(m: DriverModel, pos: int, longest: int) -> int {
    let raw = div_trunc((pos - m.current_position) * (INTERVAL_NUMERATOR as int), longest);
    if raw > MAX_SPEED_LIMIT as int {
        MAX_SPEED_LIMIT as int
    } else if raw < -(MAX_SPEED_LIMIT as int) {
        -(MAX_SPEED_LIMIT as int)
    } else {
        raw
    }
}

/// Coordinator synchronization: an axis assigned [`coordinated_speed`]
/// covers its whole distance in the common travel time, up to the
/// quantization of the speed to whole micro-steps per second — running at
/// `speed` for `longest` nanoseconds traverses at least the distance, and
/// one micro-step per second more would overshoot it.  All axes therefore
/// finish together to within that quantization.
pub proof fn lemma_coordinated_speed_covers_distance(m: DriverModel, pos: int, longest: int)
    requires
        longest > 0,
        pos != m.current_position,
        abs_of(div_trunc((pos - m.current_position) * (INTERVAL_NUMERATOR as int), longest))
            <= MAX_SPEED_LIMIT as int,
    ensures
        abs_of(coordinated_speed(m, pos, longest)) * longest <= abs_of(pos - m.current_position)
            * (INTERVAL_NUMERATOR as int),
        abs_of(pos - m.current_position) * (INTERVAL_NUMERATOR as int) < (abs_of(
            coordinated_speed(m, pos, longest),
        ) + 1) * longest,
{
    let d: int = pos - m.current_position;
    let g: int = INTERVAL_NUMERATOR as int;
    let a: int = abs_of(d) * g;
    assert(abs_of(d) * g == abs_of(d * g) && a >= 0) by (nonlinear_arith)
        requires
            a == abs_of(d) * g,
            g > 0,
    ;
    let q: int = a / longest;
    vstd::arithmetic::div_mod::lemma_fundamental_div_mod(a, longest);
    vstd::arithmetic::div_mod::lemma_div_pos_is_pos(a, longest);
    assert(q * longest <= a && a < (q + 1) * longest) by (nonlinear_arith)
        requires
            a == q * longest + a % longest,
            0 <= a % longest < longest,
    ;
    if d >= 0 {
        assert(div_trunc(d * g, longest) == q);
    } else {
        assert(-(d * g) == abs_of(d) * g) by (nonlinear_arith)
            requires
                d < 0,
                g > 0,
        ;
        assert(div_trunc(d * g, longest) == -q);
    }
    assert(abs_of(coordinated_speed(m, pos, longest)) == q);
}

/// What one axis of a coordinated move becomes: retargeted to its
/// position, then forced onto the shared linear ramp.
pub open spec fn coordinated_move(m: DriverModel, pos: int, longest: int) -> DriverModel {
    spec_set_speed(spec_move_to(m, pos), coordinated_speed(m, pos, longest))
}

/// A failed coordinated poll stopped at axis `j`: every axis before it was
/// polled, axis `j` itself and every later axis are untouched.
pub open spec fn failed_at(pre: Seq<DriverModel>, post: Seq<DriverModel>, j: int) -> bool {
    &&& 0 <= j < pre.len()
    &&& forall|k: int| j <= k < pre.len() ==> post[k] == pre[k]
    &&& forall|k: int| 0 <= k < j ==> poll_transition(pre[k], #[trigger] post[k])
}

/// Controller for moving multiple axes in a coordinated fashion.
pub struct MultiDriver {
    drivers: Vec<Driver>,
}

impl View for MultiDriver {
    type V = Seq<DriverModel>;

    closed spec fn view(&self) -> Seq<DriverModel> {
        self.drivers@.map(|i: int, d: Driver| d@)
    }
}

impl MultiDriver {
    /// Every managed axis is well-formed.
    pub open spec fn wf(self) -> bool {
        forall|i: int| 0 <= i < self@.len() ==> wf_model(#[trigger] self@[i])
    }

    /// A controller managing no axes yet.
    pub fn new() -> (r: MultiDriver)
        ensures
            r.wf(),
            r@.len() == 0,
    {
        MultiDriver { drivers: Vec::new() }
    }

    /// Add an axis to the list of synchronised axes.
    pub fn push_driver(&mut self, driver: Driver)
        requires
            old(self).wf(),
            driver.wf(),
        ensures
            final(self).wf(),
            final(self)@ == old(self)@.push(driver@),
    {
        self.drivers.push(driver);
        proof {
            assert(final(self)@ =~= old(self)@.push(driver@));
        }
    }

    /// The managed axes.
    pub fn drivers(&self) -> (r: &[Driver])
        ensures
            r@.len() == self@.len(),
            forall|i: int| 0 <= i < r@.len() ==> (#[trigger] r@[i])@ == self@[i],
    {
        self.drivers.as_slice()
    }

    /// The managed axes, mutably: the controller's state afterwards is
    /// whatever the caller leaves in the vector.
    pub fn drivers_mut(&mut self) -> (r: &mut Vec<Driver>)
        ensures
            (*r)@.len() == old(self)@.len(),
            forall|i: int| 0 <= i < (*r)@.len() ==> ((#[trigger] (*r)@[i])@ == old(self)@[i]),
            final(self)@ == final(r)@.map(|i: int, d: Driver| d@),
    {
        &mut self.drivers
    }

    /// Set the target positions of all managed axes at once, overriding
    /// each axis's speed so that all of them arrive together: the slowest
    /// axis at its own ceiling sets the shared travel time, and every axis
    /// gets the linear-ramp speed `distance / time`.  Acceleration
    /// profiling is deliberately bypassed: differently shaped ramps cannot
    /// be made to co-terminate exactly.  A no-op when no axis has anywhere
    /// to go.
    pub fn move_to(&mut self, positions: &[i64])
        requires
            old(self).wf(),
            positions@.len() == old(self)@.len(),
        ensures
            final(self).wf(),
            final(self)@.len() == old(self)@.len(),
            longest_time_of(old(self)@, positions@, old(self)@.len() as int) == 0
                ==> final(self)@ == old(self)@,
            longest_time_of(old(self)@, positions@, old(self)@.len() as int) != 0
                ==> forall|i: int|
                0 <= i < old(self)@.len() ==> #[trigger] final(self)@[i] == coordinated_move(
                    old(self)@[i],
                    positions@[i] as int,
                    longest_time_of(old(self)@, positions@, old(self)@.len() as int),
                ),
    {
        let n: usize = self.drivers.len();
        if n == 0 {
            return;
        }
        // First find the axis that will take the longest to move.
        let mut longest: u128 = 0;
        for i in 0..n
            invariant
                self@ == old(self)@,
                self.wf(),
                n == self@.len(),
                positions@.len() == n,
                longest == longest_time_of(self@, positions@, i as int),
        {
            let d: &Driver = &self.drivers[i];
            proof {
                assert(d@ == self@[i as int]);
                assert(wf_model(self@[i as int]));
            }
            let diff: i128 = (positions[i] as i128) - (d.current_position() as i128);
            let mag: u128 = if diff < 0 {
                (-diff) as u128
            } else {
                diff as u128
            };
            proof {
                lemma_mul_le(
                    mag as int,
                    INTERVAL_NUMERATOR as int,
                    0x1_0000_0000_0000_0000,
                    INTERVAL_NUMERATOR as int,
                );
            }
            let t: u128 = (mag * (INTERVAL_NUMERATOR as u128)) / (d.max_speed() as u128);
            if t > longest {
                longest = t;
            }
        }
        if longest == 0 {
            return;
        }
        // Now force every axis onto the linear ramp that makes it arrive
        // exactly when the slowest one does.
        let ghost pre: Seq<DriverModel> = self@;
        for i in 0..n
            invariant
                n == self@.len(),
                n == pre.len(),
                positions@.len() == n,
                longest == longest_time_of(pre, positions@, n as int),
                longest > 0,
                self.wf(),
                forall|k: int| i <= k < n ==> #[trigger] self@[k] == pre[k],
                forall|k: int|
                    0 <= k < i ==> #[trigger] self@[k] == coordinated_move(
                        pre[k],
                        positions@[k] as int,
                        longest as int,
                    ),
        {
            let pos: i64 = positions[i];
            let ghost before: Seq<DriverModel> = self@;
            proof {
                assert(self@[i as int] == pre[i as int]);
                assert(wf_model(pre[i as int]));
            }
            let d: &mut Driver = &mut self.drivers[i];
            let diff: i128 = (pos as i128) - (d.current_position() as i128);
            let negative: bool = diff < 0;
            let mag: u128 = if negative {
                (-diff) as u128
            } else {
                diff as u128
            };
            proof {
                lemma_mul_le(
                    mag as int,
                    INTERVAL_NUMERATOR as int,
                    0x1_0000_0000_0000_0000,
                    INTERVAL_NUMERATOR as int,
                );
                if negative {
                    let g: int = INTERVAL_NUMERATOR as int;
                    assert((-(diff as int)) * g == -(diff as int * g)) by (nonlinear_arith);
                }
            }
            let raw_mag: u128 = (mag * (INTERVAL_NUMERATOR as u128)) / longest;
            let sat_mag: u64 = if raw_mag > MAX_SPEED_LIMIT as u128 {
                MAX_SPEED_LIMIT
            } else {
                raw_mag as u64
            };
            let speed: i64 = if negative {
                -(sat_mag as i64)
            } else {
                sat_mag as i64
            };
            proof {
                assert(speed as int == coordinated_speed(
                    pre[i as int],
                    pos as int,
                    longest as int,
                ));
            }
            d.move_to(pos);
            d.set_speed(speed);
            proof {
                assert forall|k: int| 0 <= k < n && k != i as int implies #[trigger] self@[k]
                    == before[k] by {
                    assert(self@[k] == self.drivers@[k]@);
                }
                assert(self@[i as int] == coordinated_move(
                    pre[i as int],
                    positions@[i as int] as int,
                    longest as int,
                ));
            }
        }
    }

    /// Poll every managed axis, in index order, against the shared clock
    /// and its own device.  The first failure is handed back at once:
    /// axes after the failing one are not polled in that call, and no
    /// rollback of axes already stepped is attempted.
    pub fn poll<D: Device, C: SystemClock>(&mut self, devices: &mut Vec<D>, clock: &C) -> (r:
        Result<(), D::Error>)
        requires
            old(self).wf(),
            old(devices)@.len() == old(self)@.len(),
            forall|i: int| 0 <= i < old(self)@.len() ==> can_step(#[trigger] old(self)@[i]),
        ensures
            final(self).wf(),
            final(self)@.len() == old(self)@.len(),
            r matches Ok(_) ==> forall|i: int|
                0 <= i < old(self)@.len() ==> poll_transition(
                    old(self)@[i],
                    #[trigger] final(self)@[i],
                ),
            r matches Err(_) ==> exists|j: int| failed_at(old(self)@, final(self)@, j),
    {
        let n: usize = self.drivers.len();
        let ghost pre: Seq<DriverModel> = self@;
        for i in 0..n
            invariant
                pre == old(self)@,
                n == self@.len(),
                n == pre.len(),
                devices@.len() == n,
                self.wf(),
                forall|k: int| i <= k < n ==> #[trigger] self@[k] == pre[k],
                forall|k: int| 0 <= k < i ==> poll_transition(pre[k], #[trigger] self@[k]),
                forall|k: int| 0 <= k < n ==> can_step(#[trigger] pre[k]),
        {
            let ghost before: Seq<DriverModel> = self@;
            proof {
                assert(self@[i as int] == pre[i as int]);
                assert(wf_model(pre[i as int]));
                assert(can_step(pre[i as int]));
            }
            let d: &mut Driver = &mut self.drivers[i];
            let dev: &mut D = &mut devices[i];
            let outcome: Result<(), D::Error> = d.poll(dev, clock);
            proof {
                assert forall|k: int| 0 <= k < n && k != i as int implies #[trigger] self@[k]
                    == before[k] by {
                    assert(self@[k] == self.drivers@[k]@);
                }
            }
            match outcome {
                Ok(_) => {},
                Err(e) => {
                    proof {
                        assert(self@.len() == n);
                        assert(self@[i as int] == self.drivers@[i as int]@);
                        assert(self@[i as int] == pre[i as int]);
                        assert(failed_at(pre, self@, i as int));
                    }
                    return Err(e);
                },
            }
        }
        Ok(())
    }

    /// Are any of the managed axes still running?
    pub fn is_running(&self) -> (r: bool)
        ensures
            r == exists|i: int| 0 <= i < self@.len() && (#[trigger] self@[i]).is_running(),
    {
        let n: usize = self.drivers.len();
        for i in 0..n
            invariant
                n == self@.len(),
                forall|k: int| 0 <= k < i ==> !(#[trigger] self@[k]).is_running(),
        {
            let d: &Driver = &self.drivers[i];
            let running: bool = d.is_running();
            proof {
                assert(d@ == self@[i as int]);
            }
            if running {
                return true;
            }
        }
        false
    }
}

} // verus!
