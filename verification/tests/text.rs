use awall_configurator::text::{signed_to_decimal, unsigned_to_decimal};

#[test]
fn unsigned_numbers_in_decimal() {
    assert_eq!(unsigned_to_decimal(0), "0");
    assert_eq!(unsigned_to_decimal(7), "7");
    assert_eq!(unsigned_to_decimal(10), "10");
    assert_eq!(unsigned_to_decimal(86400), "86400");
    assert_eq!(unsigned_to_decimal(1234567890), "1234567890");
    assert_eq!(unsigned_to_decimal(u64::MAX), "18446744073709551615");
}

#[test]
fn signed_numbers_in_decimal() {
    assert_eq!(signed_to_decimal(0), "0");
    assert_eq!(signed_to_decimal(-1), "-1");
    assert_eq!(signed_to_decimal(42), "42");
    assert_eq!(signed_to_decimal(-32768), "-32768");
    assert_eq!(signed_to_decimal(i64::MAX), "9223372036854775807");
    assert_eq!(signed_to_decimal(i64::MIN), "-9223372036854775808");
}

#[test]
fn decimal_agrees_with_the_standard_library() {
    let mut n: u64 = 1;
    for _ in 0..19 {
        assert_eq!(unsigned_to_decimal(n), n.to_string());
        assert_eq!(unsigned_to_decimal(n - 1), (n - 1).to_string());
        assert_eq!(signed_to_decimal(-(n as i64)), (-(n as i64)).to_string());
        n *= 10;
    }
}
