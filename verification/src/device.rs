//! The step-emitter capability: the interface through which a driver hands
//! finished step pulses to the outside world, and helper devices built from
//! plain callbacks.

use vstd::prelude::*;

verus! {

/// Contextual information passed to a [`Device`] when a step is emitted.
/// Constructed fresh for every step.
#[derive(Debug, Clone, Copy, PartialEq, Eq, Structural)]
pub struct StepContext {
    /// The new absolute position, in steps.
    pub position: i64,
    /// The clock reading, in nanoseconds, at which the step is taken.
    pub step_time: u64,
}

/// An interface to the stepper motor: accept one step to a signed absolute
/// position, possibly failing.  A failed call must not be assumed to have
/// moved hardware; the driver does not retry and leaves its own state
/// untouched on failure.
pub trait Device {
    /// The type of error that may be encountered when taking a step.
    type Error;

    /// Emit one step to the position in `ctx`.
    fn step(&mut self, ctx: &StepContext) -> Result<(), Self::Error>;
}

#[verifier::external_type_specification]
#[verifier::external_body]
pub struct ExVoid(void::Void);

/// A [`Device`] which calls one function for a forward step and another for
/// a backward one.  Built by [`func_device`].
#[verifier::reject_recursive_types(T)]
pub struct FuncDevice<T, F, B> where F: Fn() -> T, B: Fn() -> T {
    previous_position: i64,
    forward: F,
    backward: B,
    marker: core::marker::PhantomData<T>,
}

impl<T, F, B> FuncDevice<T, F, B> where F: Fn() -> T, B: Fn() -> T {
    /// Both callbacks can always be called.
    #[verifier::type_invariant]
    spec fn callbacks_callable(self) -> bool {
        &&& call_requires(self.forward, ())
        &&& call_requires(self.backward, ())
    }
}

impl<T, F, B> Device for FuncDevice<T, F, B> where F: Fn() -> T, B: Fn() -> T {
    type Error = void::Void;

    fn step(&mut self, ctx: &StepContext) -> Result<(), Self::Error> {
        proof {
            use_type_invariant(&*self);
        }
        let diff: i128 = (ctx.position as i128) - (self.previous_position as i128);
        if diff > 0 {
            let _ = (self.forward)();
        } else if diff < 0 {
            let _ = (self.backward)();
        }
        self.previous_position = ctx.position;
        Ok(())
    }
}

/// A [`Device`] which calls one function for a forward step and another
/// for a backward one, deciding the direction from the change in position.
pub fn func_device<T, F, B>(forward: F, backward: B) -> (d: FuncDevice<T, F, B>) where
    F: Fn() -> T,
    B: Fn() -> T,

    requires
        call_requires(forward, ()),
        call_requires(backward, ()),
{
    FuncDevice { previous_position: 0, forward, backward, marker: core::marker::PhantomData }
}

/// A [`Device`] which calls one fallible function for a forward step and
/// another for a backward one.  Built by [`fallible_func_device`].
#[verifier::reject_recursive_types(T)]
#[verifier::reject_recursive_types(E)]
pub struct FallibleFuncDevice<T, E, F, B> where
    F: Fn() -> Result<T, E>,
    B: Fn() -> Result<T, E>,
 {
    previous_position: i64,
    forward: F,
    backward: B,
    marker: core::marker::PhantomData<(T, E)>,
}

impl<T, E, F, B> FallibleFuncDevice<T, E, F, B> where
    F: Fn() -> Result<T, E>,
    B: Fn() -> Result<T, E>,
 {
    /// Both callbacks can always be called.
    #[verifier::type_invariant]
    spec fn callbacks_callable(self) -> bool {
        &&& call_requires(self.forward, ())
        &&& call_requires(self.backward, ())
    }
}

impl<T, E, F, B> Device for FallibleFuncDevice<T, E, F, B> where
    F: Fn() -> Result<T, E>,
    B: Fn() -> Result<T, E>,
 {
    type Error = E;

    fn step(&mut self, ctx: &StepContext) -> Result<(), Self::Error> {
        proof {
            use_type_invariant(&*self);
        }
        let diff: i128 = (ctx.position as i128) - (self.previous_position as i128);
        if diff > 0 {
            match (self.forward)() {
                Ok(_) => {},
                Err(e) => {
                    return Err(e);
                },
            }
        } else if diff < 0 {
            match (self.backward)() {
                Ok(_) => {},
                Err(e) => {
                    return Err(e);
                },
            }
        }
        self.previous_position = ctx.position;
        Ok(())
    }
}

/// A [`Device`] whose callbacks may fail; a failed callback leaves the
/// device's notion of its position unchanged and the failure is handed back
/// to the caller of [`Device::step`].
pub fn fallible_func_device<T, E, F, B>(forward: F, backward: B) -> (d: FallibleFuncDevice<
    T,
    E,
    F,
    B,
>) where F: Fn() -> Result<T, E>, B: Fn() -> Result<T, E>
    requires
        call_requires(forward, ()),
        call_requires(backward, ()),
{
    FallibleFuncDevice {
        previous_position: 0,
        forward,
        backward,
        marker: core::marker::PhantomData,
    }
}

} // verus!
