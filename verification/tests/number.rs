use noviq::number::Number;

#[test]
fn whole_numbers_lose_leading_zeros() {
    assert_eq!(Number::parse("25").to_text(), "25");
    assert_eq!(Number::parse("007").to_text(), "7");
    assert_eq!(Number::parse("0").to_text(), "0");
    assert_eq!(Number::parse("000").to_text(), "0");
    assert_eq!(Number::parse("100").to_text(), "100");
}

#[test]
fn fractions_lose_trailing_zeros() {
    assert_eq!(Number::parse("25.0").to_text(), "25");
    assert_eq!(Number::parse("1.50").to_text(), "1.5");
    assert_eq!(Number::parse("3.14").to_text(), "3.14");
    assert_eq!(Number::parse("0.10").to_text(), "0.1");
    assert_eq!(Number::parse("10.010").to_text(), "10.01");
    assert_eq!(Number::parse("0.0").to_text(), "0");
}

#[test]
fn point_at_either_end_is_accepted() {
    assert_eq!(Number::parse("5.").to_text(), "5");
    assert_eq!(Number::parse(".5").to_text(), "0.5");
}

#[test]
fn anything_else_is_zero() {
    assert_eq!(Number::parse("").to_text(), "0");
    assert_eq!(Number::parse(".").to_text(), "0");
    assert_eq!(Number::parse("1.2.3").to_text(), "0");
    assert_eq!(Number::parse("1..2").to_text(), "0");
    assert_eq!(Number::parse("12a").to_text(), "0");
    assert_eq!(Number::parse("-1").to_text(), "0");
    assert_eq!(Number::parse("\u{0663}").to_text(), "0");
}

#[test]
fn long_decimals_are_kept_exactly() {
    assert_eq!(
        Number::parse("12345678901234567890.12345678901234567890").to_text(),
        "12345678901234567890.1234567890123456789"
    );
}

#[test]
fn equal_decimals_are_the_same_number() {
    assert_eq!(Number::parse("30.0"), Number::parse("030"));
    assert!(Number::parse("30.0").same_as(&Number::parse("30")));
    assert!(!Number::parse("30.1").same_as(&Number::parse("30")));
    assert_eq!(Number::parse("2.5").clone(), Number::parse("2.5"));
}
