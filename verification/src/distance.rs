//! Distances and the two fixed thresholds.
//!
//! A distance is carried as the bit pattern of a single-precision number.
//! On the patterns of non-negative numbers, infinity included, the unsigned
//! order of the patterns is the numeric order of the numbers, so distances are
//! compared by comparing their patterns. Every pattern of a negative number or
//! of a not-a-number value is greater than the pattern of the interaction
//! range, and so counts as out of range.

use vstd::prelude::*;

verus! {

/// Maximum interaction range: the pattern of 5.0.
pub const MAX_DISTANCE: u32 = 0x40A0_0000;

/// Distance of a candidate that holds no entity yet: the pattern of 1000.0.
pub const INITIAL_DISTANCE: u32 = 0x447A_0000;

/// Whether a distance is within the interaction range, the bound included.
pub open spec fn within_range(distance: u32) -> bool {
    distance <= MAX_DISTANCE
}

/// Whether a distance is within the interaction range, the bound included.
pub fn in_range(distance: u32) -> (near: bool)
    ensures
        near == within_range(distance),
        near ==> distance < INITIAL_DISTANCE,
{
    distance <= MAX_DISTANCE
}

} // verus!
