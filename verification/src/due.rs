//! Due dates: parsing the dates that the task service sends, and the short
//! form in which a listing shows them relative to today.
//!
//! A date and time is held as chrono holds it: the day counted from the
//! proleptic Gregorian 1 January of year 1 (day 1), the second of that day,
//! and the nanosecond within the second (at least 10^9 only during a leap
//! second).  Parsing, calendar conversion and formatting are chrono's.

use vstd::prelude::*;
use std::fmt::Write;
use chrono::{Datelike, Local, NaiveDate, NaiveDateTime, NaiveTime, Timelike};
use crate::text::opt_view;

verus! {

/// The first day that chrono can represent (1 January of the year -262143).
pub open spec fn first_day() -> int {
    -95746129
}

/// The last day that chrono can represent (31 December 262142).
pub open spec fn last_day() -> int {
    95745399
}

/// The day, second and nanosecond that chrono accepts as a date and time.
pub open spec fn valid_parts(day: int, secs: int, nanos: int) -> bool {
    &&& first_day() <= day <= last_day()
    &&& 0 <= secs < 86400
    &&& 0 <= nanos
    &&& (nanos < 1_000_000_000 || (nanos < 2_000_000_000 && secs % 60 == 59))
}

/// What a date and time is: its day, its second of the day and its nanosecond.
pub struct DueParts {
    pub day: int,
    pub secs: int,
    pub nanos: int,
}

/// A date and time without time zone, as the task service writes due dates.
#[derive(Clone, Copy, Debug, PartialEq, Eq, Structural)]
pub struct DueDateTime {
    day: i32,
    secs: u32,
    nanos: u32,
}

impl View for DueDateTime {
    type V = DueParts;

    closed spec fn view(&self) -> DueParts {
        DueParts { day: self.day as int, secs: self.secs as int, nanos: self.nanos as int }
    }
}

/// `a` comes no later than `b`.
pub open spec fn due_le(a: DueParts, b: DueParts) -> bool {
    ||| a.day < b.day
    ||| (a.day == b.day && a.secs < b.secs)
    ||| (a.day == b.day && a.secs == b.secs && a.nanos <= b.nanos)
}

/// The time of day is exactly midnight.
pub open spec fn at_midnight(d: DueParts) -> bool {
    d.secs == 0 && d.nanos == 0
}

impl DueDateTime {
    #[verifier::type_invariant]
    spec fn inv(self) -> bool {
        valid_parts(self.day as int, self.secs as int, self.nanos as int)
    }

    /// The date and time with the given day, second and nanosecond, when
    /// chrono can represent it.
    pub fn new(day: i32, secs: u32, nanos: u32) -> (r: Option<DueDateTime>)
        ensures
            r is Some <==> valid_parts(day as int, secs as int, nanos as int),
            r matches Some(d) ==> d@ == (DueParts {
                day: day as int,
                secs: secs as int,
                nanos: nanos as int,
            }),
    {
        if -95746129 <= day && day <= 95745399 && secs < 86400 && (nanos < 1_000_000_000 || (
        nanos < 2_000_000_000 && secs % 60 == 59)) {
            Some(DueDateTime { day, secs, nanos })
        } else {
            None
        }
    }

    /// The day, counted from 1 January of year 1 as day 1.
    pub fn day(&self) -> (r: i32)
        ensures
            r == self@.day,
            first_day() <= r <= last_day(),
    {
        proof {
            use_type_invariant(self);
        }
        self.day
    }

    /// The second of the day.
    pub fn second_of_day(&self) -> (r: u32)
        ensures
            r == self@.secs,
            r < 86400,
    {
        proof {
            use_type_invariant(self);
        }
        self.secs
    }

    /// The nanosecond within the second.
    pub fn nanosecond(&self) -> (r: u32)
        ensures
            r == self@.nanos,
    {
        self.nanos
    }

    /// Whether the time of day is midnight.
    pub fn is_midnight(&self) -> (r: bool)
        ensures
            r == at_midnight(self@),
    {
        self.secs == 0 && self.nanos == 0
    }

    /// Whether `self` comes no later than `other`.
    pub fn le(&self, other: &DueDateTime) -> (r: bool)
        ensures
            r == due_le(self@, other@),
    {
        self.day < other.day || (self.day == other.day && self.secs < other.secs) || (self.day
            == other.day && self.secs == other.secs && self.nanos <= other.nanos)
    }
}


/// What `NaiveDateTime::parse_from_str(s, fmt)` gives, as the day counted
/// from the common era, the second of the day and the nanosecond.
pub uninterp spec fn chrono_parse_date_time(s: Seq<char>, fmt: Seq<char>) -> Option<(i32, u32, u32)>;

/// What `NaiveDate::parse_from_str(s, fmt)` gives, as the day counted from
/// the common era.
pub uninterp spec fn chrono_parse_date(s: Seq<char>, fmt: Seq<char>) -> Option<i32>;

/// A leap year of the proleptic Gregorian calendar.
pub open spec fn is_leap_year(year: int) -> bool {
    (year % 4 == 0 && year % 100 != 0) || year % 400 == 0
}

/// The number of days of a month.
pub open spec fn days_in_month(year: int, month: int) -> int {
    if month == 2 {
        if is_leap_year(year) {
            29
        } else {
            28
        }
    } else if month == 4 || month == 6 || month == 9 || month == 11 {
        30
    } else {
        31
    }
}

/// The number of days of a year before the first of a month.
pub open spec fn days_before_month(year: int, month: int) -> int {
    let common: int = if month == 1 {
        0
    } else if month == 2 {
        31
    } else if month == 3 {
        59
    } else if month == 4 {
        90
    } else if month == 5 {
        120
    } else if month == 6 {
        151
    } else if month == 7 {
        181
    } else if month == 8 {
        212
    } else if month == 9 {
        243
    } else if month == 10 {
        273
    } else if month == 11 {
        304
    } else {
        334
    };
    if month > 2 && is_leap_year(year) {
        common + 1
    } else {
        common
    }
}

/// A calendar date that chrono can represent.
pub open spec fn valid_ymd(year: int, month: int, day: int) -> bool {
    &&& -262143 <= year <= 262142
    &&& 1 <= month <= 12
    &&& 1 <= day <= days_in_month(year, month)
}

/// The day of a calendar date, counted from 1 January of year 1 as day 1.
pub open spec fn days_from_ce(year: int, month: int, day: int) -> int {
    let y = year - 1;
    365 * y + y / 4 - y / 100 + y / 400 + days_before_month(year, month) + day
}

/// What formatting the date and time of the given parts with the strftime
/// string `fmt` writes, or none where chrono reports a formatting error.
pub uninterp spec fn chrono_format(day: int, secs: int, nanos: int, fmt: Seq<char>) -> Option<
    Seq<char>,
>;

/// A strftime string whose only specifiers are `%Y`, `%m`, `%d`, `%H`, `%M`
/// and `%A`, for which chrono writes any date and time without error.
pub open spec fn plain_strftime(fmt: Seq<char>) -> bool
    decreases fmt.len(),
{
    if fmt.len() == 0 {
        true
    } else if fmt[0] == '%' {
        &&& fmt.len() >= 2
        &&& (fmt[1] == 'Y' || fmt[1] == 'm' || fmt[1] == 'd' || fmt[1] == 'H' || fmt[1] == 'M'
            || fmt[1] == 'A')
        &&& plain_strftime(fmt.skip(2))
    } else {
        plain_strftime(fmt.skip(1))
    }
}

/// Calls `NaiveDateTime::parse_from_str`; the contract names its result and
/// claims that a parsed value lies in chrono's range.
#[verifier::external_body]
fn parse_date_time(s: &str, fmt: &str) -> (r: Option<(i32, u32, u32)>)
    ensures
        r == chrono_parse_date_time(s@, fmt@),
        r matches Some(p) ==> valid_parts(p.0 as int, p.1 as int, p.2 as int),
{
    match NaiveDateTime::parse_from_str(s, fmt) {
        Ok(dt) => Some((dt.num_days_from_ce(), dt.num_seconds_from_midnight(), dt.nanosecond())),
        Err(_) => None,
    }
}

/// Calls `NaiveDate::parse_from_str`; the contract names its result and
/// claims that a parsed day lies in chrono's range.
#[verifier::external_body]
fn parse_date(s: &str, fmt: &str) -> (r: Option<i32>)
    ensures
        r == chrono_parse_date(s@, fmt@),
        r matches Some(d) ==> first_day() <= d <= last_day(),
{
    match NaiveDate::parse_from_str(s, fmt) {
        Ok(d) => Some(d.num_days_from_ce()),
        Err(_) => None,
    }
}

/// Calls `NaiveDate::from_ymd_opt` and `num_days_from_ce`; the contract
/// claims that a date exists exactly when it is a valid calendar date in
/// chrono's year range, and that its day is counted by the proleptic
/// Gregorian calendar from 1 January of year 1.
#[verifier::external_body]
fn days_from_ymd(year: i32, month: u32, day: u32) -> (r: Option<i32>)
    ensures
        r is Some <==> valid_ymd(year as int, month as int, day as int),
        r matches Some(d) ==> d == days_from_ce(year as int, month as int, day as int),
        r matches Some(d) ==> first_day() <= d <= last_day(),
{
    match NaiveDate::from_ymd_opt(year, month, day) {
        Some(d) => Some(d.num_days_from_ce()),
        None => None,
    }
}

/// Calls `NaiveDateTime::format` and writes the result to a string; the
/// contract names the text and claims that writing succeeds for a plain
/// strftime string.
#[verifier::external_body]
fn format_parts(dt: &DueDateTime, fmt: &str) -> (r: Option<String>)
    ensures
        opt_view(r) == chrono_format(dt@.day, dt@.secs, dt@.nanos, fmt@),
        plain_strftime(fmt@) ==> r is Some,
{
    let date = NaiveDate::from_num_days_from_ce_opt(dt.day)?;
    let time = NaiveTime::from_num_seconds_from_midnight_opt(dt.secs, dt.nanos)?;
    let mut out = String::new();
    match write!(out, "{}", NaiveDateTime::new(date, time).format(fmt)) {
        Ok(()) => Some(out),
        Err(_) => None,
    }
}

/// Calls `Local::now().date_naive()`: today in the machine's time zone, as a
/// day counted from the common era.  Nothing is claimed of which day it is.
#[verifier::external_body]
pub(crate) fn local_today() -> (r: i32)
    ensures
        first_day() <= r <= last_day(),
{
    Local::now().date_naive().num_days_from_ce()
}


/// The strftime string of a due date with a time of day.
pub open spec fn date_time_format() -> Seq<char> {
    "%Y-%m-%dT%H:%M:%SZ"@
}

/// The strftime string of a due date without a time of day.
pub open spec fn date_format() -> Seq<char> {
    "%Y-%m-%d"@
}

/// The parts of a date and time as chrono's parse gives them.
pub open spec fn parts_of(p: (i32, u32, u32)) -> DueParts {
    DueParts { day: p.0 as int, secs: p.1 as int, nanos: p.2 as int }
}

/// The parts of an optional date and time.
pub open spec fn opt_parts(o: Option<DueDateTime>) -> Option<DueParts> {
    match o {
        Some(d) => Some(d@),
        None => None,
    }
}

/// What a parsed date and time, or failing that a parsed date at
/// midnight, amounts to.
pub open spec fn due_from_parts(date_time: Option<(i32, u32, u32)>, date: Option<i32>) -> Option<
    DueParts,
> {
    match date_time {
        Some(p) => Some(parts_of(p)),
        None => match date {
            Some(d) => Some(DueParts { day: d as int, secs: 0, nanos: 0 }),
            None => None,
        },
    }
}

/// The due date that the text `s` denotes: a date and time written
/// `YYYY-MM-DDTHH:MM:SSZ`, or else a date written `YYYY-MM-DD` at midnight,
/// as chrono reads these forms.
pub open spec fn spec_parse_due_date(s: Seq<char>) -> Option<DueParts> {
    match chrono_parse_date_time(s, date_time_format()) {
        Some(p) => Some(parts_of(p)),
        None => due_from_parts(None, chrono_parse_date(s, date_format())),
    }
}

/// The due date made of chrono's parse of a date and time, or failing that
/// of a date, which then stands at midnight.
pub fn due_from_parsed(date_time: Option<(i32, u32, u32)>, date: Option<i32>) -> (r: Option<
    DueDateTime,
>)
    requires
        date_time matches Some(p) ==> valid_parts(p.0 as int, p.1 as int, p.2 as int),
        date matches Some(d) ==> first_day() <= d <= last_day(),
    ensures
        opt_parts(r) == due_from_parts(date_time, date),
{
    match date_time {
        Some(p) => Some(DueDateTime { day: p.0, secs: p.1, nanos: p.2 }),
        None => match date {
            Some(d) => Some(DueDateTime { day: d, secs: 0, nanos: 0 }),
            None => None,
        },
    }
}

/// Parses a due date as the task service writes it: first as a date and
/// time (`2026-03-10T14:45:59Z`), then as a date alone (`2026-03-10`), which
/// is taken at midnight.  Text of neither form gives no date.
pub fn parse_due_date(s: &str) -> (r: Option<DueDateTime>)
    ensures
        opt_parts(r) == spec_parse_due_date(s@),
{
    let date_time = parse_date_time(s, "%Y-%m-%dT%H:%M:%SZ");
    if date_time.is_some() {
        due_from_parsed(date_time, None)
    } else {
        due_from_parsed(None, parse_date(s, "%Y-%m-%d"))
    }
}

/// The date and time that chrono makes of a calendar date and a time of day.
pub open spec fn spec_from_ymd_hms(year: int, month: int, day: int, hour: int, minute: int, second: int) -> Option<DueParts> {
    if valid_ymd(year, month, day) && 0 <= hour < 24 && 0 <= minute < 60 && 0 <= second < 60 {
        Some(DueParts { day: days_from_ce(year, month, day), secs: hour * 3600 + minute * 60 + second, nanos: 0 })
    } else {
        None
    }
}

impl DueDateTime {
    /// The date and time of a calendar date and a time of day, as
    /// `NaiveDate::from_ymd_opt(..)` and `and_hms_opt(..)` make it.
    pub fn from_ymd_hms(year: i32, month: u32, day: u32, hour: u32, minute: u32, second: u32) -> (r: Option<DueDateTime>)
        ensures
            opt_parts(r) == spec_from_ymd_hms(year as int, month as int, day as int, hour as int, minute as int, second as int),
            (-262143 <= year <= 262142 && 1 <= month <= 12 && 1 <= day <= 28 && hour < 24
                && minute < 60 && second < 60) ==> r is Some,
    {
        match days_from_ymd(year, month, day) {
            Some(d) => if hour < 24 && minute < 60 && second < 60 {
                Some(DueDateTime { day: d, secs: hour * 3600 + minute * 60 + second, nanos: 0 })
            } else {
                None
            },
            None => None,
        }
    }
}


/// The colour in which a due date is shown.
#[derive(Clone, Copy, Debug, PartialEq, Eq, Structural)]
pub enum DueColor {
    /// No due date: no styling at all.
    Plain,
    Red,
    Green,
    Yellow,
    Purple,
    /// The terminal's normal colour.
    Normal,
}

/// A due date as a listing shows it: its text and its colour.
#[derive(Clone, Debug)]
pub struct DueDisplay {
    pub text: String,
    pub color: DueColor,
}

impl DueDisplay {
    /// The text that is shown, without colour.
    pub fn to_string(&self) -> (r: String)
        ensures
            r@ == self.text@,
    {
        self.text.clone()
    }
}

/// What chrono writes for `d` with the strftime string `fmt`.
pub open spec fn formatted(d: DueParts, fmt: Seq<char>) -> Seq<char> {
    chrono_format(d.day, d.secs, d.nanos, fmt).unwrap()
}

/// `fmt_time` when the time of day is not midnight, else `plain`.
pub open spec fn with_time(d: DueParts, plain: Seq<char>, fmt_time: Seq<char>) -> Seq<char> {
    if at_midnight(d) {
        plain
    } else {
        formatted(d, fmt_time)
    }
}

/// The text shown for a due date, relative to the day `today`: "Yesterday",
/// "Today" or "Tomorrow" for those days, the weekday for the rest of the
/// coming week, the ISO date otherwise; each followed by the time of day
/// unless the due date is at midnight.  No due date shows nothing.
pub open spec fn due_text(date: Option<DueParts>, today: int) -> Seq<char> {
    match date {
        None => Seq::empty(),
        Some(d) => if d.day == today - 1 {
            with_time(d, "Yesterday"@, "Yesterday %H:%M"@)
        } else if d.day == today {
            with_time(d, "Today"@, "Today %H:%M"@)
        } else if d.day == today + 1 {
            with_time(d, "Tomorrow"@, "Tomorrow %H:%M"@)
        } else if today < d.day <= today + 7 {
            with_time(d, formatted(d, "%A"@), "%A %H:%M"@)
        } else {
            with_time(d, formatted(d, "%Y-%m-%d"@), "%Y-%m-%d %H:%M"@)
        },
    }
}

/// The colour of a due date relative to the day `today`: past days red,
/// today green, tomorrow yellow, the rest of the coming week purple, later
/// days normal.
pub open spec fn due_color(date: Option<DueParts>, today: int) -> DueColor {
    match date {
        None => DueColor::Plain,
        Some(d) => if d.day == today - 1 {
            DueColor::Red
        } else if d.day == today {
            DueColor::Green
        } else if d.day == today + 1 {
            DueColor::Yellow
        } else if today < d.day <= today + 7 {
            DueColor::Purple
        } else if d.day < today {
            DueColor::Red
        } else {
            DueColor::Normal
        },
    }
}

fn format_with(dt: &DueDateTime, fmt: &str) -> (r: String)
    requires
        plain_strftime(fmt@),
    ensures
        r@ == formatted(dt@, fmt@),
{
    match format_parts(dt, fmt) {
        Some(text) => text,
        None => {
            assert(false);
            String::new()
        },
    }
}

fn with_time_of(dt: &DueDateTime, plain: String, fmt_time: &str) -> (r: String)
    requires
        plain_strftime(fmt_time@),
    ensures
        r@ == with_time(dt@, plain@, fmt_time@),
{
    if dt.is_midnight() {
        plain
    } else {
        format_with(dt, fmt_time)
    }
}

/// Shows a due date relative to the day `today` (counted as `DueDateTime`
/// counts days).
pub fn format_due_date_on(date: Option<DueDateTime>, today: i32) -> (r: DueDisplay)
    ensures
        r.text@ == due_text(opt_parts(date), today as int),
        r.color == due_color(opt_parts(date), today as int),
{
    proof {
        reveal_with_fuel(plain_strftime, 20);
        reveal_strlit("Yesterday %H:%M");
        reveal_strlit("Today %H:%M");
        reveal_strlit("Tomorrow %H:%M");
        reveal_strlit("%A");
        reveal_strlit("%A %H:%M");
        reveal_strlit("%Y-%m-%d");
        reveal_strlit("%Y-%m-%d %H:%M");
    }
    match date {
        None => DueDisplay { text: String::new(), color: DueColor::Plain },
        Some(d) => {
            let day = d.day() as i64;
            let today = today as i64;
            if day == today - 1 {
                DueDisplay {
                    text: with_time_of(&d, String::from_str("Yesterday"), "Yesterday %H:%M"),
                    color: DueColor::Red,
                }
            } else if day == today {
                DueDisplay {
                    text: with_time_of(&d, String::from_str("Today"), "Today %H:%M"),
                    color: DueColor::Green,
                }
            } else if day == today + 1 {
                DueDisplay {
                    text: with_time_of(&d, String::from_str("Tomorrow"), "Tomorrow %H:%M"),
                    color: DueColor::Yellow,
                }
            } else if today < day && day <= today + 7 {
                DueDisplay {
                    text: with_time_of(&d, format_with(&d, "%A"), "%A %H:%M"),
                    color: DueColor::Purple,
                }
            } else {
                let text = with_time_of(&d, format_with(&d, "%Y-%m-%d"), "%Y-%m-%d %H:%M");
                let color = if day < today {
                    DueColor::Red
                } else {
                    DueColor::Normal
                };
                DueDisplay { text, color }
            }
        },
    }
}

/// Shows a due date relative to today on the machine's clock.  Whatever day
/// the clock gives, the display is the one `format_due_date_on` gives for
/// that day; no due date shows nothing.
pub fn format_due_date(date: Option<DueDateTime>) -> (r: DueDisplay)
    ensures
        exists|today: int|
            first_day() <= today <= last_day() && r.text@ == due_text(opt_parts(date), today)
                && r.color == due_color(opt_parts(date), today),
        date is None ==> r.text@ == Seq::<char>::empty() && r.color == DueColor::Plain,
{
    let today = local_today();
    format_due_date_on(date, today)
}


/// A due date shows red exactly when its day is before today.
pub proof fn lemma_red_iff_past(d: DueParts, today: int)
    ensures
        (due_color(Some(d), today) == DueColor::Red) <==> d.day < today,
{
}

/// The colours a due date shows go by its day alone: the time of day
/// changes only the text.
pub proof fn lemma_color_ignores_time(d: DueParts, e: DueParts, today: int)
    requires
        d.day == e.day,
    ensures
        due_color(Some(d), today) == due_color(Some(e), today),
{
}

/// A due date at a time of day other than midnight shows its hour and
/// minute: its text is chrono's rendering of it with a strftime string that
/// ends in " %H:%M".
pub proof fn lemma_time_shown_unless_midnight(d: DueParts, today: int)
    requires
        !at_midnight(d),
    ensures
        exists|label: Seq<char>| #[trigger] formatted(d, label + " %H:%M"@) == due_text(Some(d), today),
{
    reveal_strlit(" %H:%M");
    reveal_strlit("Yesterday %H:%M");
    reveal_strlit("Yesterday");
    reveal_strlit("Today %H:%M");
    reveal_strlit("Today");
    reveal_strlit("Tomorrow %H:%M");
    reveal_strlit("Tomorrow");
    reveal_strlit("%A %H:%M");
    reveal_strlit("%A");
    reveal_strlit("%Y-%m-%d %H:%M");
    reveal_strlit("%Y-%m-%d");
    if d.day == today - 1 {
        assert("Yesterday"@ + " %H:%M"@ =~= "Yesterday %H:%M"@);
        assert(formatted(d, "Yesterday"@ + " %H:%M"@) == due_text(Some(d), today));
    } else if d.day == today {
        assert("Today"@ + " %H:%M"@ =~= "Today %H:%M"@);
        assert(formatted(d, "Today"@ + " %H:%M"@) == due_text(Some(d), today));
    } else if d.day == today + 1 {
        assert("Tomorrow"@ + " %H:%M"@ =~= "Tomorrow %H:%M"@);
        assert(formatted(d, "Tomorrow"@ + " %H:%M"@) == due_text(Some(d), today));
    } else if today < d.day <= today + 7 {
        assert("%A"@ + " %H:%M"@ =~= "%A %H:%M"@);
        assert(formatted(d, "%A"@ + " %H:%M"@) == due_text(Some(d), today));
    } else {
        assert("%Y-%m-%d"@ + " %H:%M"@ =~= "%Y-%m-%d %H:%M"@);
        assert(formatted(d, "%Y-%m-%d"@ + " %H:%M"@) == due_text(Some(d), today));
    }
}

/// A due date before yesterday or more than a week ahead shows as its ISO
/// date, followed by its hour and minute unless it is at midnight.
pub proof fn lemma_far_dates_show_iso_date(d: DueParts, today: int)
    requires
        d.day < today - 1 || d.day > today + 7,
    ensures
        at_midnight(d) ==> due_text(Some(d), today) == formatted(d, "%Y-%m-%d"@),
        !at_midnight(d) ==> due_text(Some(d), today) == formatted(d, "%Y-%m-%d %H:%M"@),
{
}

/// Yesterday, today and tomorrow show as those words, and the rest of the
/// coming week as the weekday; each followed by the hour and minute unless
/// the due date is at midnight.
pub proof fn lemma_near_dates_show_labels(d: DueParts, today: int)
    ensures
        d.day == today - 1 && at_midnight(d) ==> due_text(Some(d), today) == "Yesterday"@,
        d.day == today - 1 && !at_midnight(d) ==> due_text(Some(d), today) == formatted(d, "Yesterday %H:%M"@),
        d.day == today && at_midnight(d) ==> due_text(Some(d), today) == "Today"@,
        d.day == today && !at_midnight(d) ==> due_text(Some(d), today) == formatted(d, "Today %H:%M"@),
        d.day == today + 1 && at_midnight(d) ==> due_text(Some(d), today) == "Tomorrow"@,
        d.day == today + 1 && !at_midnight(d) ==> due_text(Some(d), today) == formatted(d, "Tomorrow %H:%M"@),
        today + 1 < d.day <= today + 7 && at_midnight(d) ==> due_text(Some(d), today) == formatted(d, "%A"@),
        today + 1 < d.day <= today + 7 && !at_midnight(d) ==> due_text(Some(d), today) == formatted(d, "%A %H:%M"@),
{
}

/// The colour of a due date by its day: red before today, green today,
/// yellow tomorrow, purple for the rest of the coming week, normal later;
/// no due date shows plain.
pub proof fn lemma_color_by_day(d: DueParts, today: int)
    ensures
        (due_color(Some(d), today) == DueColor::Green) <==> d.day == today,
        (due_color(Some(d), today) == DueColor::Yellow) <==> d.day == today + 1,
        (due_color(Some(d), today) == DueColor::Purple) <==> today + 1 < d.day <= today + 7,
        (due_color(Some(d), today) == DueColor::Normal) <==> d.day > today + 7,
        due_color(Some(d), today) != DueColor::Plain,
        due_color(None, today) == DueColor::Plain,
{
}

} // verus!
