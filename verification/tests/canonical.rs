use stringx::Canonical;
use stringx::canonical::u64_decimal;

#[test]
fn decimal_zero() {
    assert_eq!("0", u64_decimal(0));
}

#[test]
fn decimal_single_digit() {
    assert_eq!("7", u64_decimal(7));
}

#[test]
fn decimal_round_number() {
    assert_eq!("10", u64_decimal(10));
    assert_eq!("100", u64_decimal(100));
}

#[test]
fn decimal_large_number() {
    assert_eq!("4598645", u64_decimal(4598645));
    assert_eq!("18446744073709551615", u64_decimal(u64::MAX));
}

#[test]
fn canonical_string_of_u64() {
    assert_eq!("2134", 2134u64.canonical_string());
}

#[test]
fn canonical_string_of_string_is_itself() {
    let s = String::from("hello world");
    assert_eq!("hello world", s.canonical_string());
}
