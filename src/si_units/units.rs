//! Quantities built from a value in a base or coherent derived SI unit.
use vstd::prelude::*;
use crate::si_units::{Dimension, Quantity};

verus! {

/// Length, from a value in meters.
pub fn meters<T>(value: T) -> (r: Quantity<T>)
    ensures
        r.value == value,
        r.dimension@ == seq![0int, 1, 0, 0, 0, 0, 0],
{
    Quantity::new(value, Dimension::length())
}

/// Time, from a value in seconds.
pub fn seconds<T>(value: T) -> (r: Quantity<T>)
    ensures
        r.value == value,
        r.dimension@ == seq![0int, 0, 1, 0, 0, 0, 0],
{
    Quantity::new(value, Dimension::time())
}

/// Mass, from a value in kilograms.
pub fn kilograms<T>(value: T) -> (r: Quantity<T>)
    ensures
        r.value == value,
        r.dimension@ == seq![1int, 0, 0, 0, 0, 0, 0],
{
    Quantity::new(value, Dimension::mass())
}

/// Velocity, from a value in meters per second.
pub fn meters_per_second<T>(value: T) -> (r: Quantity<T>)
    ensures
        r.value == value,
        r.dimension@ == seq![0int, 1, -1, 0, 0, 0, 0],
{
    Quantity::new(value, Dimension::velocity())
}

/// Force, from a value in newtons.
pub fn newtons<T>(value: T) -> (r: Quantity<T>)
    ensures
        r.value == value,
        r.dimension@ == seq![1int, 1, -2, 0, 0, 0, 0],
{
    Quantity::new(value, Dimension::force())
}

/// Energy, from a value in joules.
pub fn joules<T>(value: T) -> (r: Quantity<T>)
    ensures
        r.value == value,
        r.dimension@ == seq![1int, 2, -2, 0, 0, 0, 0],
{
    Quantity::new(value, Dimension::energy())
}

/// Power, from a value in watts.
pub fn watts<T>(value: T) -> (r: Quantity<T>)
    ensures
        r.value == value,
        r.dimension@ == seq![1int, 2, -3, 0, 0, 0, 0],
{
    Quantity::new(value, Dimension::power())
}

/// Angle (dimensionless), from a value in radians.
pub fn radians<T>(value: T) -> (r: Quantity<T>)
    ensures
        r.value == value,
        r.dimension@ == seq![0int, 0, 0, 0, 0, 0, 0],
{
    Quantity::new(value, Dimension::dimensionless())
}

/// Angular velocity, from a value in radians per second.
pub fn radians_per_second<T>(value: T) -> (r: Quantity<T>)
    ensures
        r.value == value,
        r.dimension@ == seq![0int, 0, -1, 0, 0, 0, 0],
{
    Quantity::new(value, Dimension::angular_velocity())
}

} // verus!
