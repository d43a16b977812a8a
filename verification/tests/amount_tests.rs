use multi_currency::Amount;

#[test]
fn zero_is_zero() {
    assert_eq!(0i32, <i32 as Amount>::zero());
    assert_eq!(0i64, <i64 as Amount>::zero());
    assert_eq!(0u32, <u32 as Amount>::zero());
    assert_eq!(0u64, <u64 as Amount>::zero());
}

#[test]
fn plus_adds() {
    assert_eq!(-4i32, Amount::plus(3i32, -7));
    assert_eq!(i64::MAX, Amount::plus(i64::MAX - 1, 1));
    assert_eq!(10u32, Amount::plus(3u32, 7));
    assert_eq!(u64::MAX, Amount::plus(u64::MAX, 0));
}

#[test]
fn times_multiplies() {
    assert_eq!(-21i32, Amount::times(3i32, -7));
    assert_eq!(49i64, Amount::times(-7i64, -7));
    assert_eq!(0u32, Amount::times(0u32, 7));
    assert_eq!(21u64, Amount::times(3u64, 7));
}

#[test]
fn over_rounds_towards_zero() {
    assert_eq!(3i32, Amount::over(7i32, 2));
    assert_eq!(-3i32, Amount::over(-7i32, 2));
    assert_eq!(-3i64, Amount::over(7i64, -2));
    assert_eq!(3i64, Amount::over(-7i64, -2));
    assert_eq!(i64::MAX, Amount::over(-i64::MAX, -1));
    assert_eq!(3u32, Amount::over(7u32, 2));
    assert_eq!(0u64, Amount::over(1u64, 2));
}

#[test]
fn equals_compares_the_numbers() {
    assert!(Amount::equals(5i32, 5));
    assert!(!Amount::equals(5i32, -5));
    assert!(Amount::equals(0u64, 0));
    assert!(!Amount::equals(1i64, 2));
    assert!(!Amount::equals(3u32, 4));
}
