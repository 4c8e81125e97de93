//! Trapezoidal-profile stepper motor control.
//!
//! A `Driver` turns a target position into a stream of correctly timed step
//! pulses under an accelerate / cruise / decelerate speed profile.  All
//! quantities are fixed-point integers: speeds and accelerations are given in
//! micro-steps per second (and per second squared), durations in nanoseconds.

pub mod clock;
pub mod device;
pub mod driver;
pub mod hal_devices;
pub mod multi_driver;
pub mod utils;

pub use clock::OperatingSystemClock;
pub use clock::SystemClock;
pub use driver::Driver;
pub use hal_devices::StepAndDirection;
pub use multi_driver::MultiDriver;

pub use device::fallible_func_device;
pub use device::func_device;
pub use device::Device;
pub use device::FallibleFuncDevice;
pub use device::FuncDevice;
pub use device::StepContext;
pub use utils::CummulativeSteps;
