use chrono::Datelike;
use date_diff::ymd::{count_days, print_days_diff, report, Ymd};

fn date(y: i32, m: u32, d: u32) -> Ymd {
    Ymd::from_ymd(y, m, d).unwrap()
}

#[test]
fn day_offsets_between_known_dates() {
    assert_eq!(count_days(&date(2000, 1, 1), &date(1970, 1, 1)), 10957);
    assert_eq!(count_days(&date(1970, 1, 1), &date(2000, 1, 1)), -10957);
    assert_eq!(count_days(&date(2024, 3, 1), &date(2024, 2, 28)), 2);
    assert_eq!(count_days(&date(2023, 3, 1), &date(2023, 2, 28)), 1);
    assert_eq!(count_days(&date(2024, 3, 15), &date(2024, 3, 15)), 0);
    assert_eq!(count_days(&date(1, 1, 2), &date(1, 1, 1)), 1);
}

#[test]
fn offsets_agree_with_chrono() {
    let pairs = [
        ((2024, 3, 15), (2024, 3, 20)),
        ((1999, 12, 31), (2000, 3, 1)),
        ((1900, 2, 28), (1904, 2, 29)),
        ((2026, 10, 11), (1969, 7, 20)),
    ];
    for ((ya, ma, da), (yb, mb, db)) in pairs {
        let a = chrono::NaiveDate::from_ymd_opt(ya, ma, da).unwrap();
        let b = chrono::NaiveDate::from_ymd_opt(yb, mb, db).unwrap();
        assert_eq!(
            count_days(&date(yb, mb, db), &date(ya, ma, da)),
            b.signed_duration_since(a).num_days()
        );
    }
}

#[test]
fn weekdays_agree_with_an_independent_reckoning() {
    // Known weekdays: the epoch was a Thursday, 2000 began on a Saturday.
    let today = date(2024, 3, 15);
    assert!(report(&date(1970, 1, 1), &today).ends_with("1970-01-01, Thursday."));
    assert!(report(&date(2000, 1, 1), &today).ends_with("2000-01-01, Saturday."));
    assert!(report(&date(2024, 3, 15), &today).ends_with("2024-03-15, Friday."));
    // And against chrono's own weekday numbering on a spread of dates.
    for (y, m, d) in [(1600, 12, 25), (1903, 1, 31), (2024, 2, 29), (2077, 7, 7)] {
        let names = ["Monday", "Tuesday", "Wednesday", "Thursday", "Friday", "Saturday", "Sunday"];
        let wd = chrono::NaiveDate::from_ymd_opt(y, m, d)
            .unwrap()
            .weekday()
            .num_days_from_monday() as usize;
        assert!(report(&date(y, m, d), &today).ends_with(&format!("{}.", names[wd])));
    }
}

#[test]
fn direction_phrasing() {
    let today = date(2024, 3, 15);
    assert_eq!(
        report(&date(2024, 3, 20), &today),
        "5 days left until 2024-03-20, Wednesday."
    );
    assert_eq!(
        report(&date(2024, 3, 10), &today),
        "5 days has passed since 2024-03-10, Sunday."
    );
    assert_eq!(
        report(&date(2024, 3, 15), &today),
        "0 days has passed since 2024-03-15, Friday."
    );
}

#[test]
fn print_days_diff_formats_the_offset_it_is_given() {
    assert_eq!(
        print_days_diff(365, &date(2025, 3, 15)),
        "365 days left until 2025-03-15, Saturday."
    );
    assert_eq!(
        print_days_diff(-1, &date(2024, 3, 14)),
        "1 days has passed since 2024-03-14, Thursday."
    );
}

#[test]
fn dates_are_zero_padded() {
    let today = date(2024, 3, 15);
    assert!(report(&date(7, 1, 2), &today).contains("0007-01-02"));
    assert!(report(&date(987, 11, 9), &today).contains("0987-11-09"));
}

#[test]
fn parse_then_report_round_trips() {
    let today = date(2024, 3, 15);
    for input in ["3/20/2024", "2/29/2024", "12/31/1999", "7/4/1776"] {
        let d = Ymd::new(input, &today).unwrap();
        let printed = report(&d, &today);
        let date_part = printed
            .split(' ')
            .rev()
            .nth(1)
            .unwrap()
            .trim_end_matches(',');
        let nums: Vec<i64> = date_part.split('-').map(|p| p.parse().unwrap()).collect();
        let given: Vec<i64> = input.split('/').map(|p| p.parse().unwrap()).collect();
        assert_eq!(nums, vec![given[2], given[0], given[1]]);
        let back = chrono::NaiveDate::from_ymd_opt(d.year, d.month, d.day).unwrap();
        assert_eq!((back.year(), back.month(), back.day()), (d.year, d.month, d.day));
    }
}
