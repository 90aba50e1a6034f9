//! Small numeric helpers for game logic.

use vstd::prelude::*;

verus! {

/// Return `true` if a value is between two bounds (inclusive).
pub fn between(low: u32, expect: u32, high: u32) -> (r: bool)
    ensures
        r == (low <= expect && expect <= high),
{
    low <= expect && expect <= high
}

/// Increment a value by one around within the range `0..max`.
pub fn wrap_inc(value: u32, max: u32) -> (r: u32)
    requires
        0 < max,
        value < max,
    ensures
        value + 1 < max ==> r == value + 1,
        value + 1 >= max ==> r == value + 1 - max,
{
    wrap_inc_by(value, max, 1)
}

/// Increment a value by a given step around within the range `0..max`.
pub fn wrap_inc_by(value: u32, max: u32, step: u32) -> (r: u32)
    requires
        0 < max,
        value < max,
        step <= max,
    ensures
        value + step < max ==> r == value + step,
        value + step >= max ==> r == value + step - max,
{
    if value >= max - step {
        value - (max - step)
    } else {
        value + step
    }
}

/// Decrement a value by one around within the range `0..max`.
pub fn wrap_dec(value: u32, max: u32) -> (r: u32)
    requires
        0 < max,
        value < max,
    ensures
        value >= 1 ==> r == value - 1,
        value < 1 ==> r == value + max - 1,
{
    wrap_dec_by(value, max, 1)
}

/// Decrement a value by a given step around within the range `0..max`.
pub fn wrap_dec_by(value: u32, max: u32, step: u32) -> (r: u32)
    requires
        0 < max,
        value < max,
        step <= max,
    ensures
        value >= step ==> r == value - step,
        value < step ==> r == value + max - step,
{
    if value < step {
        value + (max - step)
    } else {
        value - step
    }
}

} // verus!
