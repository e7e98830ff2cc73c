use interact::flags::{DYNAMIC_FLAG_LOOTABLE, UNIT_FLAG_SKINNABLE};
use interact::{is_unit_lootable, is_unit_skinnable};

#[test]
fn test_lootable_is_bit_zero_of_the_dynamic_flags() {
    assert_eq!(DYNAMIC_FLAG_LOOTABLE, 1);
    assert!(is_unit_lootable(0x1));
    assert!(is_unit_lootable(0x3));
    assert!(is_unit_lootable(0x0400_0001));
    assert!(is_unit_lootable(-1));
    assert!(is_unit_lootable(i32::MAX));
    assert!(is_unit_lootable(i32::MIN + 1));
    assert!(!is_unit_lootable(0));
    assert!(!is_unit_lootable(0x2));
    assert!(!is_unit_lootable(0x0400_0000));
    assert!(!is_unit_lootable(-2));
    assert!(!is_unit_lootable(i32::MIN));
}

#[test]
fn test_skinnable_is_bit_twenty_six_of_the_flags() {
    assert_eq!(UNIT_FLAG_SKINNABLE, 1 << 26);
    assert!(is_unit_skinnable(0x0400_0000));
    assert!(is_unit_skinnable(0x0400_0001));
    assert!(is_unit_skinnable(0x0C00_0000));
    assert!(is_unit_skinnable(-1));
    assert!(is_unit_skinnable(i32::MAX));
    assert!(!is_unit_skinnable(0));
    assert!(!is_unit_skinnable(0x1));
    assert!(!is_unit_skinnable(0x0200_0000));
    assert!(!is_unit_skinnable(0x0800_0000));
    assert!(!is_unit_skinnable(0x03FF_FFFF));
    assert!(!is_unit_skinnable(i32::MIN));
    assert!(!is_unit_skinnable(-1 - 0x0400_0000));
}

#[test]
fn test_flags_agree_with_a_bit_test_on_every_single_bit() {
    for bit in 0..32 {
        let flags = (1u32 << bit) as i32;
        assert_eq!(is_unit_lootable(flags), bit == 0);
        assert_eq!(is_unit_skinnable(flags), bit == 26);
        assert_eq!(is_unit_lootable(!flags), bit != 0);
        assert_eq!(is_unit_skinnable(!flags), bit != 26);
    }
}
