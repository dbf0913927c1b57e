use self_meter::{parse_uptime, parse_uptime_line, ParseIntError, UptimeError};

#[test]
fn normal_uptime() {
    assert_eq!(parse_uptime("1927830.69").unwrap(), 192783069);
}

#[test]
fn one_zero_uptime() {
    assert_eq!(parse_uptime("4780.0").unwrap(), 478000);
}

#[test]
fn uptime_single_decimal_counts_tenths() {
    assert_eq!(parse_uptime("123.4").unwrap(), 12340);
    assert_eq!(parse_uptime("123.45").unwrap(), 12345);
    assert_eq!(parse_uptime("000.05").unwrap(), 5);
}

#[test]
fn uptime_without_dot_is_bad_format() {
    assert!(matches!(parse_uptime("12345"), Err(UptimeError::BadFormat)));
}

#[test]
fn uptime_without_digits_is_bad_format() {
    assert!(matches!(parse_uptime("abc"), Err(UptimeError::BadFormat)));
    assert!(matches!(parse_uptime(""), Err(UptimeError::BadFormat)));
    assert!(matches!(parse_uptime("."), Err(UptimeError::BadFormat)));
}

#[test]
fn uptime_may_be_short() {
    assert_eq!(parse_uptime("1.5").unwrap(), 150);
    assert_eq!(parse_uptime("9.9").unwrap(), 990);
    assert_eq!(parse_uptime("0.0").unwrap(), 0);
    assert_eq!(parse_uptime("0.07").unwrap(), 7);
}

#[test]
fn uptime_with_nothing_before_the_dot_is_bad_format() {
    assert!(matches!(parse_uptime(".5"), Err(UptimeError::BadFormat)));
    assert!(matches!(parse_uptime(".50"), Err(UptimeError::BadFormat)));
    assert!(matches!(parse_uptime("..12"), Err(UptimeError::BadFormat)));
}

#[test]
fn uptime_with_a_sign_is_a_parse_error() {
    assert!(matches!(
        parse_uptime("12.+5"),
        Err(UptimeError::ParseInt(ParseIntError::InvalidDigit))
    ));
    assert!(matches!(
        parse_uptime("+12.5"),
        Err(UptimeError::ParseInt(ParseIntError::InvalidDigit))
    ));
    assert!(matches!(
        parse_uptime("-12.5"),
        Err(UptimeError::ParseInt(ParseIntError::InvalidDigit))
    ));
    assert!(matches!(
        parse_uptime("12. 5"),
        Err(UptimeError::ParseInt(ParseIntError::InvalidDigit))
    ));
}

#[test]
fn uptime_with_two_dots_is_an_error() {
    assert!(matches!(parse_uptime("1.2.3"), Err(UptimeError::BadFormat)));
    assert!(matches!(
        parse_uptime("1..2"),
        Err(UptimeError::ParseInt(ParseIntError::InvalidDigit))
    ));
    assert!(matches!(
        parse_uptime("12.3."),
        Err(UptimeError::ParseInt(ParseIntError::InvalidDigit))
    ));
}

#[test]
fn uptime_with_three_decimals_is_bad_format() {
    assert!(matches!(parse_uptime("12.345"), Err(UptimeError::BadFormat)));
}

#[test]
fn uptime_with_no_decimal_is_bad_format() {
    assert!(matches!(parse_uptime("1234."), Err(UptimeError::BadFormat)));
}

#[test]
fn uptime_with_letters_is_a_parse_error() {
    assert!(matches!(
        parse_uptime("12a4.5"),
        Err(UptimeError::ParseInt(ParseIntError::InvalidDigit))
    ));
    assert!(matches!(
        parse_uptime("1234.x"),
        Err(UptimeError::ParseInt(ParseIntError::InvalidDigit))
    ));
}

#[test]
fn uptime_with_a_sign_alone_is_a_parse_error() {
    assert!(matches!(
        parse_uptime("+.12"),
        Err(UptimeError::ParseInt(ParseIntError::InvalidDigit))
    ));
    assert!(matches!(
        parse_uptime("123.-"),
        Err(UptimeError::ParseInt(ParseIntError::InvalidDigit))
    ));
    assert!(matches!(
        parse_uptime("123.+"),
        Err(UptimeError::ParseInt(ParseIntError::InvalidDigit))
    ));
    assert!(matches!(parse_uptime("...12"), Err(UptimeError::BadFormat)));
}

#[test]
fn uptime_beyond_64_bits_overflows() {
    assert_eq!(parse_uptime("184467440737095516.15").unwrap(), u64::MAX);
    assert!(matches!(
        parse_uptime("184467440737095516.16"),
        Err(UptimeError::ParseInt(ParseIntError::PosOverflow))
    ));
    assert!(matches!(
        parse_uptime("18446744073709551616.0"),
        Err(UptimeError::ParseInt(ParseIntError::PosOverflow))
    ));
}

#[test]
fn uptime_line_gives_uptime_and_idle() {
    assert_eq!(parse_uptime_line("1927830.69 3510849.42\n").unwrap(), (192783069, 351084942));
    assert_eq!(parse_uptime_line("  4780.0\t12.5  ").unwrap(), (478000, 1250));
}

#[test]
fn uptime_line_with_one_word_is_bad_format() {
    assert!(matches!(parse_uptime_line("1927830.69\n"), Err(UptimeError::BadFormat)));
    assert!(matches!(parse_uptime_line(""), Err(UptimeError::BadFormat)));
    assert!(matches!(parse_uptime_line(" \n"), Err(UptimeError::BadFormat)));
}

#[test]
fn uptime_line_reports_the_first_bad_word() {
    assert!(matches!(parse_uptime_line("12345 1.50"), Err(UptimeError::BadFormat)));
    assert!(matches!(
        parse_uptime_line("1234.5 12x.50"),
        Err(UptimeError::ParseInt(ParseIntError::InvalidDigit))
    ));
}
