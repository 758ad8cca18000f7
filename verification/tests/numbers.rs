use relmation::Number;

#[test]
fn identities() {
    assert_eq!(<i32 as Number>::zero(), 0);
    assert_eq!(<i32 as Number>::one(), 1);
    assert_eq!(<u8 as Number>::zero(), 0);
    assert_eq!(<u8 as Number>::one(), 1);
    assert_eq!(<i64 as Number>::one(), 1);
    assert_eq!(<usize as Number>::one(), 1);
}

#[test]
fn sums_and_differences() {
    assert_eq!(Number::try_add(3i32, 4), Some(7));
    assert_eq!(Number::try_add(i32::MAX, 1), None);
    assert_eq!(Number::try_add(i32::MIN, -1), None);
    assert_eq!(Number::try_sub(3i32, 4), Some(-1));
    assert_eq!(Number::try_sub(i32::MIN, 1), None);
    assert_eq!(Number::try_sub(i32::MAX, i32::MIN), None);
    assert_eq!(Number::try_add(200u8, 55), Some(255));
    assert_eq!(Number::try_add(200u8, 56), None);
    assert_eq!(Number::try_sub(3u8, 4), None);
    assert_eq!(Number::try_sub(4u8, 4), Some(0));
    assert_eq!(Number::try_add(u64::MAX, 0), Some(u64::MAX));
    assert_eq!(Number::try_add(u64::MAX, 1), None);
    assert_eq!(Number::try_sub(i64::MIN, -1), Some(i64::MIN + 1));
    assert_eq!(Number::try_sub(0i64, i64::MIN), None);
    assert_eq!(Number::try_add(-100i8, -28), Some(-128));
    assert_eq!(Number::try_add(-100i8, -29), None);
    assert_eq!(Number::try_sub(1usize, 2), None);
    assert_eq!(Number::try_add(isize::MAX, 1), None);
    assert_eq!(Number::try_add(30_000i16, 2_767), Some(32_767));
    assert_eq!(Number::try_add(65_000u16, 536), None);
    assert_eq!(Number::try_sub(7u32, 2), Some(5));
}

#[test]
fn fractions_round_toward_zero() {
    assert_eq!(Number::try_scale(7i32, 1, 2), Some(3));
    assert_eq!(Number::try_scale(-7i32, 1, 2), Some(-3));
    assert_eq!(Number::try_scale(10i32, 1_000, 10_000), Some(1));
    assert_eq!(Number::try_scale(10i32, 9_999, 10_000), Some(9));
    assert_eq!(Number::try_scale(100i32, 29, 100), Some(29));
    assert_eq!(Number::try_scale(10i32, 21_000, 10_000), Some(21));
    assert_eq!(Number::try_scale(-1i64, 999, 1_000), Some(0));
    assert_eq!(Number::try_scale(255u8, 1, 2), Some(127));
    assert_eq!(Number::try_scale(0u16, u64::MAX, 1), Some(0));
    assert_eq!(Number::try_scale(5isize, 3, 4), Some(3));
    assert_eq!(Number::try_scale(-5isize, 3, 4), Some(-3));
    assert_eq!(Number::try_scale(9usize, 2, 3), Some(6));
    assert_eq!(Number::try_scale(1_000u32, 1, 3), Some(333));
    assert_eq!(Number::try_scale(-9i16, 1, 4), Some(-2));
}

#[test]
fn fractions_at_the_limits() {
    assert_eq!(Number::try_scale(7i32, 1, 0), None);
    assert_eq!(Number::try_scale(0i32, 0, 0), None);
    assert_eq!(Number::try_scale(100i8, 2, 1), None);
    assert_eq!(Number::try_scale(-64i8, 2, 1), Some(-128));
    assert_eq!(Number::try_scale(-65i8, 2, 1), None);
    assert_eq!(Number::try_scale(64i8, 2, 1), None);
    assert_eq!(Number::try_scale(u64::MAX, u64::MAX, u64::MAX), Some(u64::MAX));
    assert_eq!(Number::try_scale(u64::MAX, u64::MAX, u64::MAX - 1), None);
    assert_eq!(Number::try_scale(u64::MAX, u64::MAX - 1, u64::MAX), Some(u64::MAX - 1));
    assert_eq!(Number::try_scale(i64::MIN, u64::MAX, u64::MAX), Some(i64::MIN));
    assert_eq!(Number::try_scale(i64::MIN, 2, 1), None);
    assert_eq!(Number::try_scale(i64::MAX, u64::MAX, u64::MAX), Some(i64::MAX));
    assert_eq!(Number::try_scale(i64::MAX, 2, 1), None);
    assert_eq!(Number::try_scale(i32::MAX, 3, 2), None);
    assert_eq!(Number::try_scale(u32::MAX, 1, 1), Some(u32::MAX));
    assert_eq!(Number::try_scale(u32::MAX, 2, 1), None);
}

#[test]
fn order() {
    assert!(Number::at_least(5i32, 5));
    assert!(Number::at_least(6i32, 5));
    assert!(!Number::at_least(4i32, 5));
    assert!(Number::at_least(0u8, 0));
    assert!(!Number::at_least(-1i64, 0));
    assert!(Number::at_least(u64::MAX, 0));
}
