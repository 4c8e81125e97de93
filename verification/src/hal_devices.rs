//! Support for step emitters built on hardware-abstraction-layer output
//! pins: a container pairing a step pin with a direction pin, and the
//! two-wire quadrature pattern that decides their levels for each position.
//!
//! Driving the pins themselves goes through the hardware crate's pin trait,
//! which the verifier cannot follow; an adapter outside the library calls
//! [`quadrature_mask`] and forwards the two bits to the pins.

use vstd::prelude::*;

verus! {

/// A pair of hardware pins for one axis: a step pin and a direction pin.
#[derive(Debug, Default, Clone, PartialEq)]
pub struct StepAndDirection<Step, Direction> {
    step: Step,
    direction: Direction,
}

impl<Step, Direction> StepAndDirection<Step, Direction> {
    /// The two pins held: the step pin and the direction pin.
    pub closed spec fn pins(self) -> (Step, Direction) {
        (self.step, self.direction)
    }

    /// Wrap a step pin and a direction pin.
    pub fn new(step: Step, direction: Direction) -> (r: Self)
        ensures
            r.pins() == (step, direction),
    {
        StepAndDirection { step, direction }
    }

    /// Give the two pins back.
    pub fn into_inner(self) -> (r: (Step, Direction))
        ensures
            r == self.pins(),
    {
        (self.step, self.direction)
    }
}

/// The pin levels asked for at an absolute position, as a two-bit mask
/// following the classical two-wire quadrature pattern: the low bit is the
/// step pin, the high bit the direction pin.
pub fn quadrature_mask(position: i64) -> (mask: u8)
    ensures
        mask == (if position & 0x03 == 0 {
            0b10u8
        } else if position & 0x03 == 1 {
            0b11u8
        } else if position & 0x03 == 2 {
            0b01u8
        } else {
            0b00u8
        }),
{
    match position & 0x03 {
        0 => 0b10,
        1 => 0b11,
        2 => 0b01,
        _ => 0b00,
    }
}

} // verus!
