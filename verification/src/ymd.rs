use vstd::prelude::*;
use vstd::string::*;

use crate::calendar::{
    chrono_day_number, chrono_weekday, day_ok, is_leap_year, lemma_day_number_bounds,
    spec_day_number, spec_is_leap_year, MAX_YEAR, MIN_YEAR,
};
use crate::text::{
    append_2digits, append_4digits, append_decimal, dec_digits, pad2, pad4, parse_u32_field,
    u32_of_str,
};

verus! {

/// Which field of a date a piece of text was read as.
#[derive(Clone, Copy, Debug, PartialEq, Eq, Structural)]
pub enum Field {
    Year,
    Month,
    Day,
}

/// Why an input string was rejected.
#[derive(Debug)]
pub enum ParseError {
    /// The input does not split into two or three `/`-separated fields.
    WrongFormat,
    /// A field is not a non-negative decimal number; carries the field
    /// and the offending text.
    NotANumber(Field, String),
    /// The month is not in 1 through 12.
    MonthOutOfRange,
    /// The day does not exist in the named month; carries the year as
    /// well when the month is February and a year was at hand.
    DayOutOfRange(u32, Option<i32>),
}

/// A calendar date: year, month and day, as parsed from the input.
#[derive(Clone, Copy, Debug, PartialEq, Eq, Structural)]
pub struct Ymd {
    pub year: i32,
    pub month: u32,
    pub day: u32,
}

/// What `str::parse::<i32>` would accept of a non-negative decimal field:
/// the `u32` reading, provided it also fits an `i32`.
pub open spec fn year_of_str(s: Seq<char>) -> Option<i32> {
    match u32_of_str(s) {
        Some(v) => if v <= i32::MAX as u32 {
            Some(v as i32)
        } else {
            None
        },
        None => None,
    }
}

impl Default for Ymd {
    /// The all-zero placeholder that parsing fills in.
    fn default() -> (r: Self)
        ensures
            r.year == 0 && r.month == 0 && r.day == 0,
    {
        Ymd { year: 0, month: 0, day: 0 }
    }
}

impl Ymd {
    /// The date exists in the proleptic Gregorian calendar.
    pub open spec fn inv(&self) -> bool {
        &&& 1 <= self.month as int <= 12
        &&& day_ok(self.month as int, self.day as int, spec_is_leap_year(self.year as int))
    }

    /// Builds a date after checking that it exists.
    pub fn from_ymd(year: i32, month: u32, day: u32) -> (r: Option<Ymd>)
        ensures
            match r {
                Some(d) => d == (Ymd { year, month, day }) && d.inv(),
                None => !(Ymd { year, month, day }).inv(),
            },
    {
        let d = Ymd { year, month, day };
        if 1 <= month && month <= 12 {
            match d.validate_day() {
                Ok(()) => Some(d),
                Err(_) => None,
            }
        } else {
            None
        }
    }

    /// Reads a year field: the digits of a non-negative number that fits
    /// an `i32`; anything else is rejected with the offending text.
    pub fn validate_year(y: &str) -> (r: Result<i32, ParseError>)
        ensures
            match year_of_str(y@) {
                Some(v) => r == Ok::<i32, ParseError>(v),
                None => match r {
                    Err(ParseError::NotANumber(f, t)) => f == Field::Year && t@ == y@,
                    _ => false,
                },
            },
    {
        match parse_u32_field(y) {
            Some(v) => if v <= i32::MAX as u32 {
                Ok(v as i32)
            } else {
                Err(ParseError::NotANumber(Field::Year, String::from_str(y)))
            },
            None => Err(ParseError::NotANumber(Field::Year, String::from_str(y))),
        }
    }

    /// The month names a month, 1 through 12.
    pub fn validate_month(&self) -> (r: Result<(), ParseError>)
        ensures
            match r {
                Ok(()) => 1 <= self.month <= 12,
                Err(ParseError::MonthOutOfRange) => !(1 <= self.month <= 12),
                _ => false,
            },
    {
        if 1 <= self.month && self.month <= 12 {
            Ok(())
        } else {
            Err(ParseError::MonthOutOfRange)
        }
    }

    /// The day exists in the month, under the year's leap-year status; a
    /// rejection names the month, and for February the year too.
    pub fn validate_day(&self) -> (r: Result<(), ParseError>)
        ensures
            match r {
                Ok(()) => day_ok(self.month as int, self.day as int, spec_is_leap_year(self.year as int)),
                Err(ParseError::DayOutOfRange(m, y)) => {
                    &&& !day_ok(self.month as int, self.day as int, spec_is_leap_year(self.year as int))
                    &&& m == self.month
                    &&& y == (if self.month == 2 {
                        Some(self.year)
                    } else {
                        None::<i32>
                    })
                },
                _ => false,
            },
    {
        let leap = is_leap_year(self.year);
        let bound: u32 = if self.month == 1 || self.month == 3 || self.month == 5 || self.month == 7
            || self.month == 8 || self.month == 10 || self.month == 12 {
            31
        } else if self.month == 4 || self.month == 6 || self.month == 9 || self.month == 11 {
            30
        } else if leap {
            29
        } else {
            28
        };
        if 1 <= self.day && self.day <= bound {
            Ok(())
        } else {
            Err(
                ParseError::DayOutOfRange(
                    self.month,
                    if self.month == 2 {
                        Some(self.year)
                    } else {
                        None
                    },
                ),
            )
        }
    }

    /// Reads one field into its place: a year is stored as parsed, a
    /// month or a day is stored and then validated.
    pub fn parse_num(&mut self, n: &str, ymd_ty: Field) -> (r: Result<(), ParseError>)
        ensures
            parse_num_post(*old(self), *final(self), n@, ymd_ty, r),
    {
        match ymd_ty {
            Field::Year => {
                match Self::validate_year(n) {
                    Ok(v) => {
                        self.year = v;
                        Ok(())
                    },
                    Err(e) => Err(e),
                }
            },
            Field::Month => {
                match parse_u32_field(n) {
                    Some(v) => {
                        self.month = v;
                        self.validate_month()
                    },
                    None => Err(ParseError::NotANumber(Field::Month, String::from_str(n))),
                }
            },
            Field::Day => {
                match parse_u32_field(n) {
                    Some(v) => {
                        self.day = v;
                        self.validate_day()
                    },
                    None => Err(ParseError::NotANumber(Field::Day, String::from_str(n))),
                }
            },
        }
    }

    /// Stores the year field; see `parse_num`.
    pub fn parse_year(&mut self, y: &str) -> (r: Result<(), ParseError>)
        ensures
            parse_num_post(*old(self), *final(self), y@, Field::Year, r),
    {
        self.parse_num(y, Field::Year)
    }

    /// Stores and validates the month field; see `parse_num`.
    pub fn parse_month(&mut self, m: &str) -> (r: Result<(), ParseError>)
        ensures
            parse_num_post(*old(self), *final(self), m@, Field::Month, r),
    {
        self.parse_num(m, Field::Month)
    }

    /// Stores and validates the day field; see `parse_num`.
    pub fn parse_day(&mut self, d: &str) -> (r: Result<(), ParseError>)
        ensures
            parse_num_post(*old(self), *final(self), d@, Field::Day, r),
    {
        self.parse_num(d, Field::Day)
    }
}

/// Whether a month/day with no year, measured against today, has already
/// gone by this year and so belongs to the next one; a date equal to
/// today does not roll over.
pub open spec fn rolls_over(month: int, day: int, today: Ymd) -> bool {
    month < today.month as int || (month == today.month as int && day < today.day as int)
}

/// The year an input without one resolves to: today's year, or the next
/// when the month/day has already passed.
pub open spec fn resolved_year(month: int, day: int, today: Ymd) -> int {
    if rolls_over(month, day, today) {
        today.year as int + 1
    } else {
        today.year as int
    }
}

impl Ymd {
    /// Fills in the year of an input that had none: today's year, or the
    /// next one when the month/day has already passed this year; February
    /// 29 is then rejected when the year it resolved to is not a leap
    /// year.
    pub fn handle_missing_year(&mut self, today: &Ymd) -> (r: Result<(), ParseError>)
        requires
            today.year < i32::MAX,
        ensures
            ({
                let y = resolved_year(old(self).month as int, old(self).day as int, *today);
                &&& final(self).year as int == y
                &&& final(self).month == old(self).month
                &&& final(self).day == old(self).day
                &&& if old(self).month == 2 && old(self).day == 29 && !spec_is_leap_year(y) {
                    match r {
                        Err(ParseError::DayOutOfRange(m, yr)) => m == 2 && yr == Some(y as i32),
                        _ => false,
                    }
                } else {
                    r == Ok::<(), ParseError>(())
                }
            }),
    {
        self.year = today.year;
        if self.month < today.month || (self.month == today.month && self.day < today.day) {
            self.year = self.year + 1;
        }
        if self.month == 2 && !is_leap_year(self.year) && self.day == 29 {
            return Err(ParseError::DayOutOfRange(2, Some(self.year)));
        }
        Ok(())
    }
}

/// Exactly what `parse_num` does: how the chosen field is filled from the
/// text, which validation runs, and the error each failure carries.
pub open spec fn parse_num_post(
    pre: Ymd,
    post: Ymd,
    n: Seq<char>,
    ymd_ty: Field,
    r: Result<(), ParseError>,
) -> bool {
    match ymd_ty {
        Field::Year => match year_of_str(n) {
            Some(v) => post == (Ymd { year: v, ..pre }) && r == Ok::<(), ParseError>(()),
            None => post == pre && (match r {
                Err(ParseError::NotANumber(f, t)) => f == Field::Year && t@ == n,
                _ => false,
            }),
        },
        Field::Month => match u32_of_str(n) {
            Some(v) => post == (Ymd { month: v, ..pre }) && (match r {
                Ok(()) => 1 <= v <= 12,
                Err(ParseError::MonthOutOfRange) => !(1 <= v <= 12),
                _ => false,
            }),
            None => post == pre && (match r {
                Err(ParseError::NotANumber(f, t)) => f == Field::Month && t@ == n,
                _ => false,
            }),
        },
        Field::Day => match u32_of_str(n) {
            Some(v) => post == (Ymd { day: v, ..pre }) && (match r {
                Ok(()) => day_ok(post.month as int, v as int, spec_is_leap_year(post.year as int)),
                Err(ParseError::DayOutOfRange(m, y)) => {
                    &&& !day_ok(post.month as int, v as int, spec_is_leap_year(post.year as int))
                    &&& m == post.month
                    &&& y == (if post.month == 2 {
                        Some(post.year)
                    } else {
                        None::<i32>
                    })
                },
                _ => false,
            }),
            None => post == pre && (match r {
                Err(ParseError::NotANumber(f, t)) => f == Field::Day && t@ == n,
                _ => false,
            }),
        },
    }
}

/// Everything parsing an input can come to.
pub enum ParseOutcome {
    Parsed { year: i32, month: u32, day: u32 },
    WrongFormat,
    NotANumber { field: Field, text: Seq<char> },
    MonthOutOfRange,
    DayOutOfRange { month: u32, year: Option<i32> },
}

/// The whole parse, as a function of the input text and today's date:
/// split on `/` into exactly three fields (year read first, then month,
/// then day) or exactly two (month, day, and the year resolved from
/// today, with February 29 then re-checked against the resolved year);
/// any other field count is a format error.  A day with no year yet is
/// bounded by 29 for February, the re-check coming once the year is
/// known.
pub open spec fn parse_spec(s: Seq<char>, today: Ymd) -> ParseOutcome {
    let parts = crate::split::split_slash(s);
    if parts.len() == 3 {
        match year_of_str(parts[2]) {
            None => ParseOutcome::NotANumber { field: Field::Year, text: parts[2] },
            Some(y) => match u32_of_str(parts[0]) {
                None => ParseOutcome::NotANumber { field: Field::Month, text: parts[0] },
                Some(m) => if !(1 <= m <= 12) {
                    ParseOutcome::MonthOutOfRange
                } else {
                    match u32_of_str(parts[1]) {
                        None => ParseOutcome::NotANumber { field: Field::Day, text: parts[1] },
                        Some(d) => if day_ok(m as int, d as int, spec_is_leap_year(y as int)) {
                            ParseOutcome::Parsed { year: y, month: m, day: d }
                        } else {
                            ParseOutcome::DayOutOfRange {
                                month: m,
                                year: if m == 2 {
                                    Some(y)
                                } else {
                                    None
                                },
                            }
                        },
                    }
                },
            },
        }
    } else if parts.len() == 2 {
        match u32_of_str(parts[0]) {
            None => ParseOutcome::NotANumber { field: Field::Month, text: parts[0] },
            Some(m) => if !(1 <= m <= 12) {
                ParseOutcome::MonthOutOfRange
            } else {
                match u32_of_str(parts[1]) {
                    None => ParseOutcome::NotANumber { field: Field::Day, text: parts[1] },
                    Some(d) => if !day_ok(m as int, d as int, true) {
                        ParseOutcome::DayOutOfRange {
                            month: m,
                            year: if m == 2 {
                                Some(0)
                            } else {
                                None
                            },
                        }
                    } else {
                        let y = resolved_year(m as int, d as int, today);
                        if m == 2 && d == 29 && !spec_is_leap_year(y) {
                            ParseOutcome::DayOutOfRange { month: 2, year: Some(y as i32) }
                        } else {
                            ParseOutcome::Parsed { year: y as i32, month: m, day: d }
                        }
                    },
                }
            },
        }
    } else {
        ParseOutcome::WrongFormat
    }
}

/// The parse result and the outcome the specification names agree.
pub open spec fn parse_result_matches(
    o: ParseOutcome,
    post: Ymd,
    r: Result<(), ParseError>,
) -> bool {
    match o {
        ParseOutcome::Parsed { year, month, day } => {
            &&& r == Ok::<(), ParseError>(())
            &&& post == (Ymd { year, month, day })
            &&& post.inv()
        },
        ParseOutcome::WrongFormat => r matches Err(ParseError::WrongFormat),
        ParseOutcome::NotANumber { field, text } => match r {
            Err(ParseError::NotANumber(f, t)) => f == field && t@ == text,
            _ => false,
        },
        ParseOutcome::MonthOutOfRange => r matches Err(ParseError::MonthOutOfRange),
        ParseOutcome::DayOutOfRange { month, year } => match r {
            Err(ParseError::DayOutOfRange(m, y)) => m == month && y == year,
            _ => false,
        },
    }
}

impl Ymd {
    /// Parses and validates a whole input against today's date; on
    /// success `self` holds the date, on failure it reports why.
    pub fn parse_input(&mut self, input: &str, today: &Ymd) -> (r: Result<(), ParseError>)
        requires
            today.year < i32::MAX,
        ensures
            parse_result_matches(parse_spec(input@, *today), *final(self), r),
    {
        self.year = 0;
        self.month = 0;
        self.day = 0;
        let parts = crate::split::split_input(input);
        if parts.len() == 3 {
            match self.parse_year(parts[2]) {
                Ok(()) => {},
                Err(e) => {
                    return Err(e);
                },
            }
            match self.parse_month(parts[0]) {
                Ok(()) => {},
                Err(e) => {
                    return Err(e);
                },
            }
            match self.parse_day(parts[1]) {
                Ok(()) => {},
                Err(e) => {
                    return Err(e);
                },
            }
            Ok(())
        } else if parts.len() == 2 {
            match self.parse_month(parts[0]) {
                Ok(()) => {},
                Err(e) => {
                    return Err(e);
                },
            }
            match self.parse_day(parts[1]) {
                Ok(()) => {},
                Err(e) => {
                    return Err(e);
                },
            }
            match self.handle_missing_year(today) {
                Ok(()) => {},
                Err(e) => {
                    return Err(e);
                },
            }
            Ok(())
        } else {
            Err(ParseError::WrongFormat)
        }
    }

    /// Parses an input string into a date; the caller reports the error.
    pub fn new(input: &str, today: &Ymd) -> (r: Result<Ymd, ParseError>)
        requires
            today.year < i32::MAX,
        ensures
            match parse_spec(input@, *today) {
                ParseOutcome::Parsed { year, month, day } => r == Ok::<Ymd, ParseError>(
                    Ymd { year, month, day },
                ) && (Ymd { year, month, day }).inv(),
                o => match r {
                    Ok(_) => false,
                    Err(e) => parse_result_matches(o, Ymd { year: 0, month: 0, day: 0 }, Err(e)),
                },
            },
    {
        let mut ymd = Ymd::default();
        match ymd.parse_input(input, today) {
            Ok(()) => Ok(ymd),
            Err(e) => Err(e),
        }
    }
}

/// English name of a month numbered 1 through 12; any other number has
/// none (the parser never produces one).
pub open spec fn month_name(m: int) -> Seq<char> {
    if m == 1 {
        "January"@
    } else if m == 2 {
        "February"@
    } else if m == 3 {
        "March"@
    } else if m == 4 {
        "April"@
    } else if m == 5 {
        "May"@
    } else if m == 6 {
        "June"@
    } else if m == 7 {
        "July"@
    } else if m == 8 {
        "August"@
    } else if m == 9 {
        "September"@
    } else if m == 10 {
        "October"@
    } else if m == 11 {
        "November"@
    } else if m == 12 {
        "December"@
    } else {
        Seq::<char>::empty()
    }
}

/// Label of the field a number was expected for.
pub open spec fn field_label(f: Field) -> Seq<char> {
    match f {
        Field::Year => "ParseYearError"@,
        Field::Month => "ParseMonthError"@,
        Field::Day => "ParseDayError"@,
    }
}

/// Decimal digits of a year, a minus sign first when it is negative.
pub open spec fn signed_digits(y: int) -> Seq<char> {
    if y >= 0 {
        dec_digits(y as nat)
    } else {
        "-"@ + dec_digits((-y) as nat)
    }
}

/// The diagnostic line each rejection prints.
pub open spec fn error_message(e: ParseError) -> Seq<char> {
    match e {
        ParseError::WrongFormat => "WrongFormat: The given input might be incorrectly formatted."@,
        ParseError::NotANumber(f, t) => field_label(f) + ": Expected a number; given \""@ + t@
            + "\"."@,
        ParseError::MonthOutOfRange => "ValidationError: The given month does not exist."@,
        ParseError::DayOutOfRange(m, y) => match y {
            None => "ValidationError: The given day does not exist in the month of "@ + month_name(
                m as int,
            ) + "."@,
            Some(yr) => "ValidationError: The given day does not exist in the month of "@
                + month_name(m as int) + ", "@ + signed_digits(yr as int) + "."@,
        },
    }
}

/// Appends the English name of the month, nothing for a number that
/// names none.
fn append_month_name(s: &mut String, m: u32)
    ensures
        final(s)@ == old(s)@ + month_name(m as int),
{
    if m == 1 {
        s.append("January");
    } else if m == 2 {
        s.append("February");
    } else if m == 3 {
        s.append("March");
    } else if m == 4 {
        s.append("April");
    } else if m == 5 {
        s.append("May");
    } else if m == 6 {
        s.append("June");
    } else if m == 7 {
        s.append("July");
    } else if m == 8 {
        s.append("August");
    } else if m == 9 {
        s.append("September");
    } else if m == 10 {
        s.append("October");
    } else if m == 11 {
        s.append("November");
    } else if m == 12 {
        s.append("December");
    } else {
        proof {
            assert(s@ =~= old(s)@ + month_name(m as int));
        }
    }
}

impl ParseError {
    /// The diagnostic line for this rejection.
    pub fn message(&self) -> (r: String)
        ensures
            r@ == error_message(*self),
    {
        let mut s = String::new();
        match self {
            ParseError::WrongFormat => {
                s.append("WrongFormat: The given input might be incorrectly formatted.");
            },
            ParseError::NotANumber(f, t) => {
                match f {
                    Field::Year => s.append("ParseYearError"),
                    Field::Month => s.append("ParseMonthError"),
                    Field::Day => s.append("ParseDayError"),
                }
                s.append(": Expected a number; given \"");
                s.append(t.as_str());
                s.append("\".");
            },
            ParseError::MonthOutOfRange => {
                s.append("ValidationError: The given month does not exist.");
            },
            ParseError::DayOutOfRange(m, y) => {
                s.append("ValidationError: The given day does not exist in the month of ");
                append_month_name(&mut s, *m);
                match y {
                    None => {},
                    Some(yr) => {
                        s.append(", ");
                        let yv: i64 = *yr as i64;
                        if yv >= 0 {
                            append_decimal(&mut s, yv as u64);
                        } else {
                            s.append("-");
                            append_decimal(&mut s, (-yv) as u64);
                        }
                    },
                }
                s.append(".");
            },
        }
        proof {
            assert(s@ =~= error_message(*self));
        }
        s
    }
}

/// Day count of a date, as `spec_day_number` over its fields.
pub open spec fn day_number_of(d: Ymd) -> int {
    spec_day_number(d.year as int, d.month as int, d.day as int)
}

/// Signed day offset from today to the given date: zero for today,
/// positive for the future, negative for the past.
pub open spec fn spec_offset(date: Ymd, today: Ymd) -> int {
    day_number_of(date) - day_number_of(today)
}

/// Name of the weekday numbered from Monday as 0 through Sunday as 6.
pub open spec fn weekday_name(w: int) -> Seq<char> {
    if w == 0 {
        "Monday"@
    } else if w == 1 {
        "Tuesday"@
    } else if w == 2 {
        "Wednesday"@
    } else if w == 3 {
        "Thursday"@
    } else if w == 4 {
        "Friday"@
    } else if w == 5 {
        "Saturday"@
    } else {
        "Sunday"@
    }
}

/// Direction phrase: a strictly positive offset lies ahead, any other
/// has passed (zero counts as passed, printed with magnitude zero).
pub open spec fn phrase(offset: int) -> Seq<char> {
    if offset > 0 {
        "days left until"@
    } else {
        "days has passed since"@
    }
}

/// Magnitude of the offset: the printed number is never negative.
pub open spec fn magnitude(offset: int) -> int {
    if offset > 0 {
        offset
    } else {
        -offset
    }
}

/// The date in `YYYY-MM-DD` form: the year zero-padded to four places,
/// month and day to two.
pub open spec fn iso_date(date: Ymd) -> Seq<char> {
    pad4(date.year as nat) + "-"@ + pad2(date.month as nat) + "-"@ + pad2(date.day as nat)
}

/// The printed sentence: magnitude, direction phrase, the date in
/// `YYYY-MM-DD` form, and the weekday name.
pub open spec fn diff_message(offset: int, date: Ymd) -> Seq<char> {
    dec_digits(magnitude(offset) as nat) + " "@ + phrase(offset) + " "@ + iso_date(date) + ", "@
        + weekday_name((day_number_of(date) - 1) % 7) + "."@
}

/// What `report` prints for a date against today.
pub open spec fn report_spec(date: Ymd, today: Ymd) -> Seq<char> {
    diff_message(spec_offset(date, today), date)
}

/// Signed day offset from today to the given date, by proleptic
/// Gregorian day-number subtraction.
pub fn count_days(date: &Ymd, today: &Ymd) -> (r: i64)
    requires
        date.inv(),
        today.inv(),
        MIN_YEAR as int <= date.year as int <= MAX_YEAR as int,
        MIN_YEAR as int <= today.year as int <= MAX_YEAR as int,
    ensures
        r == spec_offset(*date, *today),
{
    let a = chrono_day_number(date.year, date.month, date.day);
    let b = chrono_day_number(today.year, today.month, today.day);
    proof {
        lemma_day_number_bounds(date.year as int, date.month as int, date.day as int);
        lemma_day_number_bounds(today.year as int, today.month as int, today.day as int);
    }
    a - b
}

/// Builds the sentence for a day offset to a date: magnitude and
/// direction, then the date and its weekday.
pub fn print_days_diff(days_diff: i64, date: &Ymd) -> (r: String)
    requires
        date.inv(),
        0 <= date.year as int <= MAX_YEAR as int,
        days_diff > i64::MIN,
    ensures
        r@ == diff_message(days_diff as int, *date),
{
    let mag: u64 = if days_diff > 0 {
        days_diff as u64
    } else {
        (-days_diff) as u64
    };
    let mut s = String::new();
    append_decimal(&mut s, mag);
    s.append(" ");
    if days_diff > 0 {
        s.append("days left until");
    } else {
        s.append("days has passed since");
    }
    s.append(" ");
    append_4digits(&mut s, date.year as u64);
    s.append("-");
    append_2digits(&mut s, date.month as u64);
    s.append("-");
    append_2digits(&mut s, date.day as u64);
    s.append(", ");
    let w = chrono_weekday(date.year, date.month, date.day);
    if w == 0 {
        s.append("Monday");
    } else if w == 1 {
        s.append("Tuesday");
    } else if w == 2 {
        s.append("Wednesday");
    } else if w == 3 {
        s.append("Thursday");
    } else if w == 4 {
        s.append("Friday");
    } else if w == 5 {
        s.append("Saturday");
    } else {
        s.append("Sunday");
    }
    s.append(".");
    proof {
        assert(s@ =~= diff_message(days_diff as int, *date));
    }
    s
}

/// The full sentence for a date against today.
pub fn report(date: &Ymd, today: &Ymd) -> (r: String)
    requires
        date.inv(),
        today.inv(),
        0 <= date.year as int <= MAX_YEAR as int,
        MIN_YEAR as int <= today.year as int <= MAX_YEAR as int,
    ensures
        r@ == report_spec(*date, *today),
{
    let days_diff = count_days(date, today);
    proof {
        lemma_day_number_bounds(date.year as int, date.month as int, date.day as int);
        lemma_day_number_bounds(today.year as int, today.month as int, today.day as int);
    }
    print_days_diff(days_diff, date)
}

} // verus!
