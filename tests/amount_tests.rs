use currency_convert::amount::{parse_amount, Amount, ParseNumError};

fn value(a: &Amount) -> f64 {
    let digits = std::str::from_utf8(a.digits()).unwrap();
    format!("{}e{}", digits, a.exponent()).parse().unwrap()
}

fn parsed(s: &str) -> f64 {
    value(&parse_amount(s).unwrap())
}

#[test]
fn parses_thousands_suffix() {
    assert_eq!(parsed("1k"), 1000.0);
}

#[test]
fn parses_fraction_with_upper_case_suffix() {
    assert_eq!(parsed("2.5M"), 2500000.0);
}

#[test]
fn parses_plain_integer() {
    assert_eq!(parsed("100"), 100.0);
}

#[test]
fn keeps_amount_exactly() {
    let a = parse_amount("2.5M").unwrap();
    assert_eq!(a.digits().as_slice(), b"25");
    assert_eq!(a.scale(), 1);
    assert_eq!(a.magnitude(), 2);
    assert_eq!(a.exponent(), 5);
}

#[test]
fn every_magnitude_letter_in_both_cases() {
    assert_eq!(parsed("3k"), 3e3);
    assert_eq!(parsed("3K"), 3e3);
    assert_eq!(parsed("3m"), 3e6);
    assert_eq!(parsed("3M"), 3e6);
    assert_eq!(parsed("3b"), 3e9);
    assert_eq!(parsed("3B"), 3e9);
    assert_eq!(parsed("3t"), 3e12);
    assert_eq!(parsed("3T"), 3e12);
}

#[test]
fn numeral_times_factor() {
    assert_eq!(parsed("0.001T"), 1e9);
    assert_eq!(parsed("42b"), 42e9);
    assert_eq!(parsed("3.14"), 3.14);
    assert_eq!(parsed("007"), 7.0);
    assert_eq!(parsed("1.50k"), 1500.0);
}

#[test]
fn long_numeral_is_still_an_amount() {
    let a = parse_amount("123456789012345678901234567890.5").unwrap();
    assert_eq!(a.digits().len(), 31);
    assert_eq!(a.exponent(), -1);
}

#[test]
fn rejects_letters_empty_and_unknown_suffix() {
    assert_eq!(parse_amount("abc").err(), Some(ParseNumError::InvalidFormat));
    assert_eq!(parse_amount("").err(), Some(ParseNumError::InvalidFormat));
    assert_eq!(parse_amount("12x").err(), Some(ParseNumError::InvalidFormat));
}

#[test]
fn rejects_malformed_numerals() {
    for s in ["1.", ".5", "1..2", "1.2.3", "1kk", "k", "-1", " 1", "1 ", "1e5", "1,000", "1.k", "\u{0661}"] {
        assert_eq!(parse_amount(s).err(), Some(ParseNumError::InvalidFormat), "{}", s);
    }
}

#[test]
fn reading_twice_gives_the_same_result() {
    for s in ["2.5M", "12x", "0.75", ""] {
        let a = parse_amount(s);
        let b = parse_amount(s);
        match (a, b) {
            (Ok(x), Ok(y)) => {
                assert_eq!(x.digits(), y.digits());
                assert_eq!(x.scale(), y.scale());
                assert_eq!(x.magnitude(), y.magnitude());
            }
            (Err(x), Err(y)) => assert_eq!(x, y),
            _ => panic!("readings of {} differ", s),
        }
    }
}
