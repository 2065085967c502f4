use net_traffic_capture::args::{
    at_least_one, at_least_one_of, is_safe_duration_text, nanos_of, parse_duration,
};

#[test]
fn counts_of_one_and_more_are_accepted() {
    assert_eq!(at_least_one("1"), Ok(1));
    assert_eq!(at_least_one("42"), Ok(42));
    assert_eq!(at_least_one("+7"), Ok(7));
    assert_eq!(at_least_one("007"), Ok(7));
    assert_eq!(at_least_one(&usize::MAX.to_string()), Ok(usize::MAX));
}

#[test]
fn a_count_of_zero_is_refused() {
    assert_eq!(at_least_one("0"), Err("cannot be zero".to_string()));
    assert_eq!(at_least_one("+0"), Err("cannot be zero".to_string()));
    assert_eq!(at_least_one("000"), Err("cannot be zero".to_string()));
    assert_eq!(at_least_one_of(Ok(0)), Err("cannot be zero".to_string()));
}

#[test]
fn what_is_no_count_is_refused_with_the_parse_error() {
    for text in ["", "+", "-", "-1", "1.5", "abc", "1 ", " 1", "1_000", "٣", "18446744073709551616000"] {
        let expected = text.parse::<usize>().map_err(|e| e.to_string());
        assert!(expected.is_err());
        assert_eq!(at_least_one(text), expected);
    }
    assert_eq!(at_least_one("x"), Err("invalid digit found in string".to_string()));
    assert_eq!(at_least_one(""), Err("cannot parse integer from empty string".to_string()));
}

#[test]
fn a_parsed_count_is_passed_on() {
    assert_eq!(at_least_one_of(Ok(3)), Ok(3));
    assert_eq!(at_least_one_of(Err("no number".to_string())), Err("no number".to_string()));
}

#[test]
fn durations_are_parsed_into_nanoseconds() {
    assert_eq!(parse_duration("50ns"), Ok(50));
    assert_eq!(parse_duration("2us"), Ok(2_000));
    assert_eq!(parse_duration("3ms"), Ok(3_000_000));
    assert_eq!(parse_duration("1s"), Ok(1_000_000_000));
    assert_eq!(parse_duration("10m"), Ok(600_000_000_000));
    assert_eq!(parse_duration("1h45m"), Ok(6_300_000_000_000));
    assert_eq!(parse_duration("2h30m"), Ok(9_000_000_000_000));
    assert_eq!(parse_duration("1.5h"), Ok(5_400_000_000_000));
    assert_eq!(parse_duration("0"), Ok(0));
    assert_eq!(parse_duration("+0.25s"), Ok(250_000_000));
    assert_eq!(parse_duration("1500000000ns"), Ok(1_500_000_000));
}

#[test]
fn a_negative_duration_keeps_its_bits() {
    assert_eq!(parse_duration("-5s"), Ok((-5_000_000_000i64) as u64));
    assert_eq!(nanos_of(Ok(-1)), Ok(u64::MAX));
    assert_eq!(nanos_of(Ok(12)), Ok(12));
    assert_eq!(nanos_of(Err("bad".to_string())), Err("bad".to_string()));
}

#[test]
fn the_parser_s_errors_are_passed_on() {
    assert_eq!(parse_duration("1"), Err("missing unit in duration: 1".to_string()));
    assert_eq!(parse_duration(""), Err("invalid duration: ".to_string()));
    assert_eq!(parse_duration("s"), Err("invalid duration: s".to_string()));
    assert_eq!(parse_duration("1x"), Err("unknown unit x in duration 1x".to_string()));
    assert_eq!(parse_duration(".s"), Err("invalid duration: .s".to_string()));
}

#[test]
fn text_that_the_parser_cannot_be_given_is_refused() {
    let long_fraction = "0.1234567890123456789s";
    assert!(!is_safe_duration_text(long_fraction));
    assert_eq!(parse_duration(long_fraction), Err(format!("invalid duration: {}", long_fraction)));
    assert!(!is_safe_duration_text("1µs"));
    assert_eq!(parse_duration("1µs"), Err("invalid duration: 1µs".to_string()));
    let many_terms = "1000000h1000000h1000000h";
    assert!(!is_safe_duration_text(many_terms));
    assert_eq!(parse_duration(many_terms), Err(format!("invalid duration: {}", many_terms)));
}

#[test]
fn safe_text_is_ascii_with_short_fractions_and_one_term_or_few_digits() {
    assert!(is_safe_duration_text(""));
    assert!(is_safe_duration_text("1h"));
    assert!(is_safe_duration_text("-1.123456789012345678h"));
    assert!(!is_safe_duration_text("-1.1234567890123456789h"));
    assert!(is_safe_duration_text("1234567890123456789012345ns"));
    assert!(is_safe_duration_text("12h34m56s"));
    assert!(!is_safe_duration_text("12h34m56.7s"));
    assert!(is_safe_duration_text("1.5.5s"));
    assert!(is_safe_duration_text("-s"));
    assert!(!is_safe_duration_text("1234567s1ms"));
}

#[test]
fn the_parser_returns_on_fractions_and_numbers_at_the_limits() {
    let fraction = parse_duration("0.999999999999999999s");
    assert!(matches!(fraction, Ok(n) if (999_999_999..=1_000_000_000).contains(&n)));
    assert_eq!(parse_duration("1.000000000000000000s"), Ok(1_000_000_000));
    assert_eq!(
        parse_duration("99999999999999999999h"),
        Err("invalid duration: 99999999999999999999h".to_string())
    );
    assert_eq!(parse_duration("999h999m"), Ok(999 * 3_600_000_000_000 + 999 * 60_000_000_000));
    assert_eq!(parse_duration("1281023h"), Ok(1_281_023 * 3_600_000_000_000));
    assert_eq!(parse_duration("1281024h"), Err("invalid duration 1281024h".to_string()));
    assert_eq!(
        parse_duration("1.2.3s"),
        Err("missing unit in duration: 1.2.3s".to_string())
    );
}
