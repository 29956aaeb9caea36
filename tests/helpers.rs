use stats_traits::{MinMax, NumExt};

#[test]
fn test_min_i32() {
    assert_eq!(<i32 as MinMax>::min(0, 1), 0);
}

#[test]
fn test_max_i32() {
    assert_eq!(<i32 as MinMax>::max(0, 1), 1);
}

#[test]
fn min_max_on_unsigned_and_negative() {
    assert_eq!(<u64 as MinMax>::min(9, 4), 4);
    assert_eq!(<u64 as MinMax>::max(9, 4), 9);
    assert_eq!(<i8 as MinMax>::min(-128, 127), -128);
    assert_eq!(<i8 as MinMax>::max(-128, 127), 127);
}

#[test]
fn from_usize_checks_the_range() {
    assert_eq!(<i8 as NumExt>::from_usize(127), Some(127));
    assert_eq!(<i8 as NumExt>::from_usize(128), None);
    assert_eq!(<u8 as NumExt>::from_usize(255), Some(255));
    assert_eq!(<u8 as NumExt>::from_usize(256), None);
    assert_eq!(<i16 as NumExt>::from_usize(40000), None);
    assert_eq!(<u16 as NumExt>::from_usize(40000), Some(40000));
    assert_eq!(<i32 as NumExt>::from_usize(3), Some(3));
    assert_eq!(<u32 as NumExt>::from_usize(3), Some(3));
    assert_eq!(<i64 as NumExt>::from_usize(usize::MAX), Some(usize::MAX as i64).filter(|_| (usize::MAX as u128) <= i64::MAX as u128));
    assert_eq!(<u64 as NumExt>::from_usize(17), Some(17));
    assert_eq!(<i128 as NumExt>::from_usize(usize::MAX), Some(usize::MAX as i128));
    assert_eq!(<u128 as NumExt>::from_usize(usize::MAX), Some(usize::MAX as u128));
}

#[test]
fn division_truncates() {
    assert_eq!(<i32 as NumExt>::div(-7, 2), -3);
    assert_eq!(<i32 as NumExt>::div(7, -2), -3);
    assert_eq!(<i32 as NumExt>::div(-7, -2), 3);
    assert_eq!(<u8 as NumExt>::div(7, 2), 3);
}
