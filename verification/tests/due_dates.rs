use chrono::{Datelike, Duration, Local, NaiveDate, NaiveDateTime, Timelike};
use taskcli::due::{format_due_date, format_due_date_on, parse_due_date, DueColor, DueDateTime};

fn due(dt: NaiveDateTime) -> DueDateTime {
    DueDateTime::new(dt.num_days_from_ce(), dt.num_seconds_from_midnight(), dt.nanosecond()).unwrap()
}

#[test]
fn parse_due_date_parses_datetime() {
    let parsed = parse_due_date("2026-03-10T14:45:59Z");

    assert_eq!(
        parsed,
        Some(due(
            NaiveDate::from_ymd_opt(2026, 3, 10)
                .unwrap()
                .and_hms_opt(14, 45, 59)
                .unwrap()
        ))
    );
}

#[test]
fn parse_due_date_parses_date_only_to_midnight() {
    let parsed = parse_due_date("2026-03-10");

    assert_eq!(
        parsed,
        Some(due(
            NaiveDate::from_ymd_opt(2026, 3, 10)
                .unwrap()
                .and_hms_opt(0, 0, 0)
                .unwrap()
        ))
    );
}

#[test]
fn parse_due_date_returns_none_for_invalid_input() {
    let parsed = parse_due_date("not-a-date");

    assert_eq!(parsed, None);
}

#[test]
fn format_due_date_returns_empty_for_none() {
    assert_eq!(format_due_date(None).to_string(), "");
}

#[test]
fn date_to_display_handles_yesterday_with_time() {
    let today = Local::now().date_naive();
    let date = today
        .checked_sub_signed(Duration::days(1))
        .unwrap()
        .and_hms_opt(9, 30, 0)
        .unwrap();

    assert_eq!(format_due_date(Some(due(date))).to_string(), "Yesterday 09:30");
}

#[test]
fn date_to_display_handles_yesterday_without_time() {
    let today = Local::now().date_naive();
    let date = today
        .checked_sub_signed(Duration::days(1))
        .unwrap()
        .and_hms_opt(0, 0, 0)
        .unwrap();

    assert_eq!(format_due_date(Some(due(date))).to_string(), "Yesterday");
}

#[test]
fn date_to_display_handles_today_with_time() {
    let today = Local::now().date_naive();
    let date = today.and_hms_opt(16, 20, 0).unwrap();

    assert_eq!(format_due_date(Some(due(date))).to_string(), "Today 16:20");
}

#[test]
fn date_to_display_handles_today_without_time() {
    let today = Local::now().date_naive();
    let date = today.and_hms_opt(0, 0, 0).unwrap();

    assert_eq!(format_due_date(Some(due(date))).to_string(), "Today");
}

#[test]
fn date_to_display_handles_tomorrow_with_time() {
    let today = Local::now().date_naive();
    let date = today
        .checked_add_signed(Duration::days(1))
        .unwrap()
        .and_hms_opt(7, 5, 0)
        .unwrap();

    assert_eq!(format_due_date(Some(due(date))).to_string(), "Tomorrow 07:05");
}

#[test]
fn date_to_display_handles_tomorrow_without_time() {
    let today = Local::now().date_naive();
    let date = today
        .checked_add_signed(Duration::days(1))
        .unwrap()
        .and_hms_opt(0, 0, 0)
        .unwrap();

    assert_eq!(format_due_date(Some(due(date))).to_string(), "Tomorrow");
}

#[test]
fn date_to_display_handles_within_next_week_with_time() {
    let today = Local::now().date_naive();
    let date = today
        .checked_add_signed(Duration::days(5))
        .unwrap()
        .and_hms_opt(11, 40, 0)
        .unwrap();

    assert_eq!(
        format_due_date(Some(due(date))).to_string(),
        date.format("%A %H:%M").to_string()
    );
}

#[test]
fn date_to_display_handles_within_next_week_without_time() {
    let today = Local::now().date_naive();
    let date = today
        .checked_add_signed(Duration::days(6))
        .unwrap()
        .and_hms_opt(0, 0, 0)
        .unwrap();

    assert_eq!(
        format_due_date(Some(due(date))).to_string(),
        date.format("%A").to_string()
    );
}

#[test]
fn date_to_display_defaults_for_other_dates_with_time() {
    let today = Local::now().date_naive();
    let date = today
        .checked_sub_signed(Duration::days(2))
        .unwrap()
        .and_hms_opt(22, 10, 0)
        .unwrap();

    assert_eq!(
        format_due_date(Some(due(date))).to_string(),
        date.format("%Y-%m-%d %H:%M").to_string()
    );
}

#[test]
fn date_to_display_defaults_for_other_dates_without_time() {
    let today = Local::now().date_naive();
    let date = today
        .checked_add_signed(Duration::days(8))
        .unwrap()
        .and_hms_opt(0, 0, 0)
        .unwrap();

    assert_eq!(
        format_due_date(Some(due(date))).to_string(),
        date.format("%Y-%m-%d").to_string()
    );
}

fn day_of(y: i32, m: u32, d: u32) -> i32 {
    NaiveDate::from_ymd_opt(y, m, d).unwrap().num_days_from_ce()
}

#[test]
fn parse_due_date_keeps_leap_second() {
    let parsed = parse_due_date("2016-12-31T23:59:60Z").unwrap();
    assert_eq!(parsed.day(), day_of(2016, 12, 31));
    assert_eq!(parsed.second_of_day(), 86399);
    assert_eq!(parsed.nanosecond(), 1_000_000_000);
}

#[test]
fn parse_due_date_rejects_other_forms() {
    assert_eq!(parse_due_date(""), None);
    assert_eq!(parse_due_date("none"), None);
    assert_eq!(parse_due_date("2026-13-01"), None);
    assert_eq!(parse_due_date("2026-02-30"), None);
    assert_eq!(parse_due_date("2026-03-10T25:00:00Z"), None);
}

#[test]
fn from_ymd_hms_counts_days_as_chrono() {
    let d = DueDateTime::from_ymd_hms(2026, 3, 10, 14, 45, 59).unwrap();
    assert_eq!(d.day(), day_of(2026, 3, 10));
    assert_eq!(d.day(), 739685);
    assert_eq!(d.second_of_day(), 14 * 3600 + 45 * 60 + 59);
    assert_eq!(DueDateTime::from_ymd_hms(2026, 2, 29, 0, 0, 0), None);
    assert_eq!(DueDateTime::from_ymd_hms(2026, 2, 28, 24, 0, 0), None);
    assert_eq!(DueDateTime::from_ymd_hms(1, 1, 1, 0, 0, 0).unwrap().day(), 1);
}

#[test]
fn new_refuses_values_out_of_range() {
    assert!(DueDateTime::new(1, 86400, 0).is_none());
    assert!(DueDateTime::new(1, 59, 1_500_000_000).is_some());
    assert!(DueDateTime::new(1, 58, 1_500_000_000).is_none());
    assert!(DueDateTime::new(95745399, 0, 0).is_some());
    assert!(DueDateTime::new(95745400, 0, 0).is_none());
    assert!(DueDateTime::new(-95746129, 0, 0).is_some());
    assert!(DueDateTime::new(-95746130, 0, 0).is_none());
}

#[test]
fn chrono_range_matches_day_bounds() {
    assert_eq!(NaiveDate::MAX.num_days_from_ce(), 95745399);
    assert_eq!(NaiveDate::MIN.num_days_from_ce(), -95746129);
}

#[test]
fn format_on_fixed_day_gives_each_label_and_colour() {
    let today = day_of(2026, 3, 10); // a Tuesday
    let at = |y, m, d, h, mi| DueDateTime::from_ymd_hms(y, m, d, h, mi, 0).unwrap();

    let y = format_due_date_on(Some(at(2026, 3, 9, 9, 30)), today);
    assert_eq!((y.to_string().as_str(), y.color), ("Yesterday 09:30", DueColor::Red));
    let t = format_due_date_on(Some(at(2026, 3, 10, 0, 0)), today);
    assert_eq!((t.to_string().as_str(), t.color), ("Today", DueColor::Green));
    let m = format_due_date_on(Some(at(2026, 3, 11, 7, 5)), today);
    assert_eq!((m.to_string().as_str(), m.color), ("Tomorrow 07:05", DueColor::Yellow));
    let w = format_due_date_on(Some(at(2026, 3, 15, 11, 40)), today);
    assert_eq!((w.to_string().as_str(), w.color), ("Sunday 11:40", DueColor::Purple));
    let w7 = format_due_date_on(Some(at(2026, 3, 17, 0, 0)), today);
    assert_eq!((w7.to_string().as_str(), w7.color), ("Tuesday", DueColor::Purple));
    let later = format_due_date_on(Some(at(2026, 3, 18, 0, 0)), today);
    assert_eq!((later.to_string().as_str(), later.color), ("2026-03-18", DueColor::Normal));
    let past = format_due_date_on(Some(at(2026, 3, 8, 22, 10)), today);
    assert_eq!((past.to_string().as_str(), past.color), ("2026-03-08 22:10", DueColor::Red));
    let none = format_due_date_on(None, today);
    assert_eq!((none.to_string().as_str(), none.color), ("", DueColor::Plain));
}

#[test]
fn colour_goes_by_the_day_only() {
    let today = day_of(2026, 3, 10);
    for h in [0u32, 1, 12, 23] {
        let d = DueDateTime::from_ymd_hms(2026, 3, 1, h, 0, 0).unwrap();
        assert_eq!(format_due_date_on(Some(d), today).color, DueColor::Red);
        let e = DueDateTime::from_ymd_hms(2026, 4, 1, h, 0, 0).unwrap();
        assert_eq!(format_due_date_on(Some(e), today).color, DueColor::Normal);
    }
}

#[test]
fn ordering_compares_day_then_time() {
    let a = DueDateTime::from_ymd_hms(2026, 3, 10, 23, 0, 0).unwrap();
    let b = DueDateTime::from_ymd_hms(2026, 3, 11, 1, 0, 0).unwrap();
    assert!(a.le(&b));
    assert!(!b.le(&a));
    assert!(a.le(&a));
    assert!(!a.is_midnight());
    assert!(DueDateTime::from_ymd_hms(2026, 3, 10, 0, 0, 0).unwrap().is_midnight());
}

fn leap(y: i64) -> bool {
    (y.rem_euclid(4) == 0 && y.rem_euclid(100) != 0) || y.rem_euclid(400) == 0
}

fn month_days(y: i64, m: i64) -> i64 {
    match m {
        2 => {
            if leap(y) {
                29
            } else {
                28
            }
        }
        4 | 6 | 9 | 11 => 30,
        _ => 31,
    }
}

fn formula_days(y: i64, m: i64, d: i64) -> i64 {
    let before = [0, 31, 59, 90, 120, 151, 181, 212, 243, 273, 304, 334][(m - 1) as usize]
        + if m > 2 && leap(y) { 1 } else { 0 };
    let p = y - 1;
    365 * p + p.div_euclid(4) - p.div_euclid(100) + p.div_euclid(400) + before + d
}

#[test]
fn calendar_formula_matches_chrono() {
    let mut years: Vec<i32> = (-1205..2405).step_by(7).collect();
    years.extend([-262143, -262142, -400, -100, -4, -1, 0, 1, 4, 100, 400, 1900, 2000, 22222, 262142]);
    for y in years {
        for m in 1..=12u32 {
            for d in [1u32, 28, 29, 30, 31] {
                let chrono = NaiveDate::from_ymd_opt(y, m, d);
                let ours = DueDateTime::from_ymd_hms(y, m, d, 0, 0, 0);
                let valid = (d as i64) <= month_days(y as i64, m as i64);
                assert_eq!(chrono.is_some(), valid, "{y}-{m}-{d}");
                assert_eq!(ours.is_some(), valid, "{y}-{m}-{d}");
                if let Some(date) = chrono {
                    assert_eq!(date.num_days_from_ce() as i64, formula_days(y as i64, m as i64, d as i64));
                    assert_eq!(ours.unwrap().day(), date.num_days_from_ce());
                }
            }
        }
    }
    assert!(DueDateTime::from_ymd_hms(262143, 1, 1, 0, 0, 0).is_none());
    assert!(DueDateTime::from_ymd_hms(-262144, 12, 31, 0, 0, 0).is_none());
}

#[test]
fn fallback_due_day_is_22222_01_01() {
    assert_eq!(DueDateTime::from_ymd_hms(22222, 1, 1, 0, 0, 0).unwrap().day(), 8116054);
}
