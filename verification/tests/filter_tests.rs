use text_input::CustomFilter;
use text_input::TextInputFilter;

#[test]
fn positive_integer_accepts_digits() {
    let f = TextInputFilter::PositiveInteger;
    assert!(f.is_match("0123456789"));
    assert!(f.is_match(""));
    assert!(!f.is_match("12a"));
    assert!(!f.is_match("-12"));
    assert!(!f.is_match("1 2"));
}

#[test]
fn integer_accepts_leading_sign() {
    let f = TextInputFilter::Integer;
    assert!(f.is_match("123"));
    assert!(f.is_match("-123"));
    assert!(f.is_match(""));
    assert!(f.is_match("-"));
    assert!(!f.is_match("1-2"));
    assert!(!f.is_match("--1"));
    assert!(!f.is_match("1.2"));
}

#[test]
fn decimal_accepts_one_point() {
    let f = TextInputFilter::Decimal;
    assert!(f.is_match("3.14"));
    assert!(f.is_match("-3.14"));
    assert!(f.is_match("."));
    assert!(f.is_match("-.5"));
    assert!(f.is_match("10"));
    assert!(f.is_match(""));
    assert!(!f.is_match("1.2.3"));
    assert!(!f.is_match("1..2"));
    assert!(!f.is_match("1a"));
    assert!(!f.is_match("1-2"));
}

#[test]
fn hex_accepts_hex_digits() {
    let f = TextInputFilter::Hex;
    assert!(f.is_match("0aF9"));
    assert!(f.is_match("deadBEEF"));
    assert!(f.is_match(""));
    assert!(!f.is_match("0x1"));
    assert!(!f.is_match("g"));
}

#[test]
fn alphanumeric_accepts_letters_and_digits() {
    let f = TextInputFilter::Alphanumeric;
    assert!(f.is_match("abc123XYZ"));
    assert!(f.is_match(""));
    assert!(!f.is_match("a b"));
    assert!(!f.is_match("a-b"));
}

struct NoFives;

impl CustomFilter for NoFives {
    fn accepts(&self, text: &str) -> bool {
        !text.contains('5')
    }
}

#[test]
fn custom_filter_decides_for_itself() {
    let f = TextInputFilter::custom(Box::new(NoFives));
    assert!(f.is_match("1234"));
    assert!(!f.is_match("15"));
    assert!(f.is_match(""));
}

struct NonEmptyOnly;

impl CustomFilter for NonEmptyOnly {
    fn accepts(&self, text: &str) -> bool {
        !text.is_empty()
    }
}

#[test]
fn custom_filter_sees_empty_text() {
    // The built-in filters accept empty text outright; a custom filter is
    // consulted even then.
    let f = TextInputFilter::custom(Box::new(NonEmptyOnly));
    assert!(!f.is_match(""));
    assert!(f.is_match("x"));
}
