use date_diff::ymd::{Field, ParseError, Ymd};

fn date(y: i32, m: u32, d: u32) -> Ymd {
    Ymd::from_ymd(y, m, d).unwrap()
}

#[test]
fn leap_year_rule() {
    assert!(date_diff::calendar::is_leap_year(2000));
    assert!(!date_diff::calendar::is_leap_year(1900));
    assert!(date_diff::calendar::is_leap_year(2024));
    assert!(!date_diff::calendar::is_leap_year(2023));
    assert!(date_diff::calendar::is_leap_year(2400));
}

#[test]
fn day_bounds_follow_month_and_leap_year() {
    let today = date(2024, 3, 15);
    let d = Ymd::new("2/29/2024", &today).unwrap();
    assert_eq!(d, date(2024, 2, 29));
    match Ymd::new("2/29/2023", &today) {
        Err(ParseError::DayOutOfRange(2, Some(2023))) => {}
        other => panic!("expected DayOutOfRange for 2/29/2023, got {:?}", other),
    }
    match Ymd::new("4/31/2024", &today) {
        Err(ParseError::DayOutOfRange(4, None)) => {}
        other => panic!("expected DayOutOfRange for 4/31/2024, got {:?}", other),
    }
    assert_eq!(Ymd::new("4/30/2024", &today).unwrap(), date(2024, 4, 30));
}

#[test]
fn omitted_year_rollover() {
    let today = date(2024, 3, 15);
    assert_eq!(Ymd::new("1/1", &today).unwrap(), date(2025, 1, 1));
    assert_eq!(Ymd::new("3/15", &today).unwrap(), date(2024, 3, 15));
    assert_eq!(Ymd::new("3/20", &today).unwrap(), date(2024, 3, 20));
    assert_eq!(Ymd::new("3/1", &today).unwrap(), date(2025, 3, 1));
}

#[test]
fn omitted_year_february_29_edge() {
    let today = date(2023, 6, 1);
    assert_eq!(Ymd::new("2/29", &today).unwrap(), date(2024, 2, 29));
    let today = date(2024, 6, 1);
    match Ymd::new("2/29", &today) {
        Err(ParseError::DayOutOfRange(2, Some(2025))) => {}
        other => panic!("expected DayOutOfRange for 2/29 from 2024-06-01, got {:?}", other),
    }
}

#[test]
fn malformed_inputs() {
    let today = date(2024, 3, 15);
    assert!(matches!(Ymd::new("13/1/2024", &today), Err(ParseError::MonthOutOfRange)));
    match Ymd::new("abc/1/2024", &today) {
        Err(ParseError::NotANumber(Field::Month, t)) => assert_eq!(t, "abc"),
        other => panic!("expected NotANumber for abc/1/2024, got {:?}", other),
    }
    assert!(matches!(Ymd::new("1/2/3/4", &today), Err(ParseError::WrongFormat)));
    assert!(matches!(Ymd::new("", &today), Err(ParseError::WrongFormat)));
    assert!(matches!(Ymd::new("7", &today), Err(ParseError::WrongFormat)));
    match Ymd::new("/2", &today) {
        Err(ParseError::NotANumber(Field::Month, t)) => assert_eq!(t, ""),
        other => panic!("expected NotANumber for /2, got {:?}", other),
    }
    match Ymd::new("1/2/", &today) {
        Err(ParseError::NotANumber(Field::Year, t)) => assert_eq!(t, ""),
        other => panic!("expected NotANumber for 1/2/, got {:?}", other),
    }
    match Ymd::new("1/x/2024", &today) {
        Err(ParseError::NotANumber(Field::Day, t)) => assert_eq!(t, "x"),
        other => panic!("expected NotANumber for 1/x/2024, got {:?}", other),
    }
    match Ymd::new("13/1/zz", &today) {
        Err(ParseError::NotANumber(Field::Year, t)) => assert_eq!(t, "zz"),
        other => panic!("expected the year to be checked first, got {:?}", other),
    }
}

#[test]
fn year_field_bounds() {
    assert_eq!(Ymd::validate_year("2024").unwrap(), 2024);
    assert_eq!(Ymd::validate_year("+7").unwrap(), 7);
    assert_eq!(Ymd::validate_year("0").unwrap(), 0);
    assert_eq!(Ymd::validate_year("2147483647").unwrap(), i32::MAX);
    assert!(matches!(
        Ymd::validate_year("2147483648"),
        Err(ParseError::NotANumber(Field::Year, _))
    ));
    assert!(matches!(
        Ymd::validate_year("4294967296"),
        Err(ParseError::NotANumber(Field::Year, _))
    ));
    assert!(matches!(Ymd::validate_year(""), Err(ParseError::NotANumber(Field::Year, _))));
    assert!(matches!(Ymd::validate_year("-1"), Err(ParseError::NotANumber(Field::Year, _))));
    assert!(matches!(Ymd::validate_year("1 "), Err(ParseError::NotANumber(Field::Year, _))));
}

#[test]
fn checked_construction() {
    assert!(Ymd::from_ymd(2024, 2, 29).is_some());
    assert!(Ymd::from_ymd(2023, 2, 29).is_none());
    assert!(Ymd::from_ymd(2024, 4, 31).is_none());
    assert!(Ymd::from_ymd(2024, 12, 31).is_some());
    assert!(Ymd::from_ymd(2024, 13, 1).is_none());
    assert!(Ymd::from_ymd(2024, 0, 1).is_none());
    assert!(Ymd::from_ymd(2024, 1, 0).is_none());
    assert!(Ymd::from_ymd(1900, 2, 29).is_none());
    assert!(Ymd::from_ymd(2000, 2, 29).is_some());
}

#[test]
fn error_messages() {
    let today = date(2024, 3, 15);
    let e = Ymd::new("2/29/2023", &today).unwrap_err();
    assert_eq!(
        e.message(),
        "ValidationError: The given day does not exist in the month of February, 2023."
    );
    let e = Ymd::new("4/31/2024", &today).unwrap_err();
    assert_eq!(
        e.message(),
        "ValidationError: The given day does not exist in the month of April."
    );
    let e = Ymd::new("abc/1/2024", &today).unwrap_err();
    assert_eq!(e.message(), "ParseMonthError: Expected a number; given \"abc\".");
    let e = Ymd::new("1/2/zz", &today).unwrap_err();
    assert_eq!(e.message(), "ParseYearError: Expected a number; given \"zz\".");
    let e = Ymd::new("1/yy/2024", &today).unwrap_err();
    assert_eq!(e.message(), "ParseDayError: Expected a number; given \"yy\".");
    let e = Ymd::new("13/1/2024", &today).unwrap_err();
    assert_eq!(e.message(), "ValidationError: The given month does not exist.");
    let e = Ymd::new("1/2/3/4", &today).unwrap_err();
    assert_eq!(e.message(), "WrongFormat: The given input might be incorrectly formatted.");
}

#[test]
fn parse_input_fills_the_date_in_place() {
    let today = date(2024, 3, 15);
    let mut d = Ymd::default();
    assert!(d.parse_input("7/4/1776", &today).is_ok());
    assert_eq!(d, date(1776, 7, 4));
    let mut d = Ymd::default();
    assert!(d.parse_input("12/31", &today).is_ok());
    assert_eq!(d, date(2024, 12, 31));
}

#[test]
fn field_parsers_store_their_fields() {
    let mut d = Ymd::default();
    assert!(d.parse_year("1999").is_ok());
    assert!(d.parse_month("12").is_ok());
    assert!(d.parse_day("31").is_ok());
    assert_eq!(d, date(1999, 12, 31));
    assert!(d.parse_month("0").is_err());
    assert!(matches!(d.parse_num("13", Field::Month), Err(ParseError::MonthOutOfRange)));
    assert!(d.parse_num("11", Field::Month).is_ok());
    assert!(d.parse_num("30", Field::Day).is_ok());
    assert!(matches!(d.parse_num("31", Field::Day), Err(ParseError::DayOutOfRange(11, None))));
}

#[test]
fn day_too_large_for_any_year_without_a_year_field() {
    // With the year still unfilled, the day check runs against the
    // parser's zero placeholder (a leap year, so February allows 29),
    // and a February failure reports that placeholder year.
    let today = date(2024, 3, 15);
    match Ymd::new("2/30", &today) {
        Err(ParseError::DayOutOfRange(2, Some(0))) => {}
        other => panic!("expected DayOutOfRange for 2/30, got {:?}", other),
    }
    match Ymd::new("4/31", &today) {
        Err(ParseError::DayOutOfRange(4, None)) => {}
        other => panic!("expected DayOutOfRange for 4/31, got {:?}", other),
    }
}

#[test]
fn rollover_resolves_before_the_leap_check() {
    let mut d = Ymd::default();
    assert!(d.parse_month("2").is_ok());
    assert!(d.parse_day("29").is_ok());
    let today = date(2023, 6, 1);
    assert!(d.handle_missing_year(&today).is_ok());
    assert_eq!(d, date(2024, 2, 29));
}
