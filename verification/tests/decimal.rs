use linkwatch::decimal::u64_to_dec;

#[test]
fn single_digits() {
    assert_eq!(u64_to_dec(0), "0");
    assert_eq!(u64_to_dec(7), "7");
    assert_eq!(u64_to_dec(9), "9");
}

#[test]
fn multiple_digits() {
    assert_eq!(u64_to_dec(10), "10");
    assert_eq!(u64_to_dec(42), "42");
    assert_eq!(u64_to_dec(600), "600");
    assert_eq!(u64_to_dec(123456789), "123456789");
}

#[test]
fn largest_value() {
    assert_eq!(u64_to_dec(u64::MAX), "18446744073709551615");
}
