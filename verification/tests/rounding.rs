use progress::rounding::{magnitude, rounded_share};

#[test]
fn a_share_is_rounded_to_the_nearest_whole_number() {
    assert_eq!(rounded_share(100, 384, 2560), 15);
    assert_eq!(rounded_share(100, 1, 3), 33);
    assert_eq!(rounded_share(100, 2, 3), 67);
    assert_eq!(rounded_share(20, 1280, 2560), 10);
    assert_eq!(rounded_share(100, 0, 7), 0);
    assert_eq!(rounded_share(100, 7, 7), 100);
}

#[test]
fn a_half_is_rounded_upwards() {
    assert_eq!(rounded_share(100, 1, 200), 1);
    assert_eq!(rounded_share(100, 3, 200), 2);
    assert_eq!(rounded_share(1, 1, 2), 1);
    assert_eq!(rounded_share(20, 64, 2560), 1);
}

#[test]
fn just_under_a_half_is_rounded_downwards() {
    assert_eq!(rounded_share(100, 1, 201), 0);
    assert_eq!(rounded_share(20, 63, 2560), 0);
    assert_eq!(rounded_share(100, 149, 10000), 1);
}

#[test]
fn the_largest_operands_do_not_overflow() {
    assert_eq!(rounded_share(u64::MAX, u32::MAX, u32::MAX), u64::MAX as u128);
    assert_eq!(rounded_share(u64::MAX, u32::MAX, 1), u64::MAX as u128 * u32::MAX as u128);
    assert_eq!(rounded_share(u64::MAX, 1, u32::MAX), 4294967297);
}

#[test]
fn magnitude_drops_the_sign() {
    assert_eq!(magnitude(0), 0);
    assert_eq!(magnitude(17), 17);
    assert_eq!(magnitude(-17), 17);
    assert_eq!(magnitude(i32::MAX), 2147483647);
    assert_eq!(magnitude(i32::MIN), 2147483648);
}
