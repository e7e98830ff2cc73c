//! The two flags of a unit that decide what its remains are good for.

use vstd::prelude::*;

verus! {

/// The bit of a unit's dynamic flags that marks it as lootable: bit 0.
pub const DYNAMIC_FLAG_LOOTABLE: i32 = 0x1;

/// The bit of a unit's flags that marks it as skinnable: bit 26.
pub const UNIT_FLAG_SKINNABLE: i32 = 0x0400_0000;

/// The bit of weight `weight`, a power of two, is set in the two's
/// complement number `flags`.
pub open spec fn bit_is_set(flags: i32, weight: int) -> bool {
    (flags as int / weight) % 2 == 1
}

/// Whether the dynamic flags of a unit mark it as lootable.
pub fn is_unit_lootable(dynamic_flags: i32) -> (lootable: bool)
    ensures
        lootable == bit_is_set(dynamic_flags, DYNAMIC_FLAG_LOOTABLE as int),
{
    assert((dynamic_flags & 0x1 != 0) == ((dynamic_flags as int / 0x1) % 2 == 1)) by (bit_vector);
    (dynamic_flags & DYNAMIC_FLAG_LOOTABLE) != 0
}

/// Whether the flags of a unit mark it as skinnable.
pub fn is_unit_skinnable(flags: i32) -> (skinnable: bool)
    ensures
        skinnable == bit_is_set(flags, UNIT_FLAG_SKINNABLE as int),
{
    assert((flags & 0x0400_0000 != 0) == ((flags as int / 0x0400_0000) % 2 == 1)) by (bit_vector);
    (flags & UNIT_FLAG_SKINNABLE) != 0
}

} // verus!
