//! Playback speeds.

use vstd::prelude::*;

verus! {

/// The number of playback speeds.
pub const SPEED_COUNT: usize = 5;

/// Numerator and denominator of the speed with the given index: 1, 2/3, 1/2, 1/3, 1/4.
pub open spec fn speed(index: int) -> (int, int) {
    if index == 0 {
        (1, 1)
    } else if index == 1 {
        (2, 3)
    } else if index == 2 {
        (1, 2)
    } else if index == 3 {
        (1, 3)
    } else {
        (1, 4)
    }
}

/// Numerator and denominator of the speed with the given index.
pub fn speed_ratio(index: usize) -> (r: (u64, u64))
    requires
        index < SPEED_COUNT,
    ensures
        r.0 == speed(index as int).0,
        r.1 == speed(index as int).1,
{
    if index == 0 {
        (1, 1)
    } else if index == 1 {
        (2, 3)
    } else if index == 2 {
        (1, 2)
    } else if index == 3 {
        (1, 3)
    } else {
        (1, 4)
    }
}

/// The index of the speed that follows the one with the given index; the first follows the last.
pub fn next_speed(index: usize) -> (r: usize)
    requires
        index < SPEED_COUNT,
    ensures
        r < SPEED_COUNT,
        r == (index + 1) % SPEED_COUNT as int,
{
    if index + 1 == SPEED_COUNT {
        0
    } else {
        index + 1
    }
}

/// Every speed but the first is a slowdown, and each is slower than the one before it.
pub proof fn law_speeds_fall(i: int)
    requires
        0 <= i < SPEED_COUNT - 1,
    ensures
        speed(i + 1).0 * speed(i).1 < speed(i).0 * speed(i + 1).1,
        0 < speed(i + 1).0 <= speed(i + 1).1,
{
}

/// The speeds are 1, 2/3, 1/2, 1/3 and 1/4.
pub proof fn law_speeds_are_those_of_the_button(i: int)
    requires
        0 <= i < SPEED_COUNT,
    ensures
        SPEED_COUNT == 5,
        speed(i).0 > 0 && speed(i).1 > 0,
        i == 0 ==> speed(i).0 == speed(i).1,
        i == 1 ==> 3 * speed(i).0 == 2 * speed(i).1,
        i >= 2 ==> i * speed(i).0 == speed(i).1,
{
}

} // verus!
