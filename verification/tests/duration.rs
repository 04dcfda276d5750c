use remindme::duration::{parse_duration, ParseError};

#[test]
fn parses_plain_tokens() {
    assert_eq!(parse_duration("3days"), Ok(259200));
    assert_eq!(parse_duration("2 hours"), Ok(7200));
    assert_eq!(parse_duration("90minutes"), Ok(5400));
    assert_eq!(parse_duration("1 day"), Ok(86400));
    assert_eq!(parse_duration("2weeks"), Ok(1209600));
    assert_eq!(parse_duration("10s"), Ok(10));
    assert_eq!(parse_duration("5 min"), Ok(300));
    assert_eq!(parse_duration("1w"), Ok(604800));
    assert_eq!(parse_duration("12 hrs"), Ok(43200));
    assert_eq!(parse_duration("1 second"), Ok(1));
    assert_eq!(parse_duration("7 m"), Ok(420));
    assert_eq!(parse_duration("2 d"), Ok(172800));
}

#[test]
fn accepts_every_unit_spelling() {
    for (unit, secs) in [
        ("s", 1),
        ("sec", 1),
        ("secs", 1),
        ("second", 1),
        ("seconds", 1),
        ("m", 60),
        ("min", 60),
        ("mins", 60),
        ("minute", 60),
        ("minutes", 60),
        ("h", 3600),
        ("hr", 3600),
        ("hrs", 3600),
        ("hour", 3600),
        ("hours", 3600),
        ("d", 86400),
        ("day", 86400),
        ("days", 86400),
        ("w", 604800),
        ("week", 604800),
        ("weeks", 604800),
    ] {
        assert_eq!(parse_duration(&format!("3{}", unit)), Ok(3 * secs));
        assert_eq!(parse_duration(&format!("3 {}", unit)), Ok(3 * secs));
    }
}

#[test]
fn rejects_missing_magnitude() {
    assert_eq!(parse_duration("days"), Err(ParseError::MissingMagnitude));
    assert_eq!(parse_duration(""), Err(ParseError::MissingMagnitude));
    assert_eq!(parse_duration(" 3days"), Err(ParseError::MissingMagnitude));
    assert_eq!(parse_duration("-3days"), Err(ParseError::MissingMagnitude));
}

#[test]
fn rejects_missing_or_unknown_unit() {
    assert_eq!(parse_duration("3"), Err(ParseError::UnknownUnit));
    assert_eq!(parse_duration("3 "), Err(ParseError::UnknownUnit));
    assert_eq!(parse_duration("3 fortnights"), Err(ParseError::UnknownUnit));
    assert_eq!(parse_duration("3  days"), Err(ParseError::UnknownUnit));
    assert_eq!(parse_duration("3dayss"), Err(ParseError::UnknownUnit));
    assert_eq!(parse_duration("3 days "), Err(ParseError::UnknownUnit));
    assert_eq!(parse_duration("3days4hours"), Err(ParseError::UnknownUnit));
}

#[test]
fn rejects_zero_magnitude() {
    assert_eq!(parse_duration("0days"), Err(ParseError::ZeroMagnitude));
    assert_eq!(parse_duration("0 s"), Err(ParseError::ZeroMagnitude));
    assert_eq!(parse_duration("000w"), Err(ParseError::ZeroMagnitude));
}

#[test]
fn rejects_overflow() {
    // one past u64::MAX seconds
    assert_eq!(
        parse_duration("18446744073709551616s"),
        Err(ParseError::Overflow)
    );
    // magnitude itself far beyond u64
    assert_eq!(
        parse_duration("99999999999999999999999s"),
        Err(ParseError::Overflow)
    );
    // magnitude fits, product does not
    assert_eq!(
        parse_duration("100000000000000w"),
        Err(ParseError::Overflow)
    );
    // the largest representable duration still parses
    assert_eq!(parse_duration("18446744073709551615s"), Ok(u64::MAX));
}

#[test]
fn leading_zeros_are_plain_digits() {
    assert_eq!(parse_duration("007 days"), Ok(604800));
}
