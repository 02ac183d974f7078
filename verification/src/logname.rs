//! The name and the shown folder of a session's log file.
use vstd::prelude::*;
use crate::text::{chars_of, replace_all, replace_all_vec, string_of};
use crate::cmdline::joined;

verus! {

/// The `width` last decimal digits of `n`, with leading zeros.
pub open spec fn padded(n: nat, width: nat) -> Seq<char>
    decreases width,
{
    if width == 0 {
        Seq::empty()
    } else {
        padded(n / 10, (width - 1) as nat).push(((n % 10) + 0x30) as char)
    }
}

/// A leap year of the proleptic Gregorian calendar.
pub open spec fn is_leap_year(year: int) -> bool {
    year % 4 == 0 && (year % 100 != 0 || year % 400 == 0)
}

/// The number of days in a month of a year.
pub open spec fn days_in_month(year: int, month: int) -> int {
    if month == 2 {
        if is_leap_year(year) {
            29
        } else {
            28
        }
    } else if month == 4 || month == 6 || month == 9 || month == 11 {
        30
    } else {
        31
    }
}

/// A moment as a calendar date and a time of day that the `time` crate can
/// hold: a year within four digits, a day that its month has.
pub open spec fn valid_moment(year: i32, month: u8, day: u8, hour: u8, minute: u8, second: u8) -> bool {
    &&& -9999 <= year <= 9999
    &&& 1 <= month <= 12
    &&& 1 <= day <= days_in_month(year as int, month as int)
    &&& hour < 24
    &&& minute < 60
    &&& second < 60
}

/// Whether the fields make a moment that `log_stamp` takes.
pub fn moment_is_valid(year: i32, month: u8, day: u8, hour: u8, minute: u8, second: u8) -> (b: bool)
    ensures
        b == valid_moment(year, month, day, hour, minute, second),
{
    if !(-9999 <= year && year <= 9999 && 1 <= month && month <= 12 && hour < 24 && minute < 60 && second < 60) {
        return false;
    }
    let leap = year % 4 == 0 && (year % 100 != 0 || year % 400 == 0);
    let days: u8 = if month == 2 {
        if leap {
            29
        } else {
            28
        }
    } else if month == 4 || month == 6 || month == 9 || month == 11 {
        30
    } else {
        31
    };
    1 <= day && day <= days
}

/// The moment written as `[year][month][day]_[hour][minute][second]`: a
/// `-` before a negative year, then four digits of the year and two of each
/// other field, all padded with zeros.
pub open spec fn stamp(year: i32, month: u8, day: u8, hour: u8, minute: u8, second: u8) -> Seq<char> {
    let abs_year = if year < 0 { -year } else { year as int };
    (if year < 0 { seq!['-'] } else { Seq::empty() })
        + padded(abs_year as nat, 4)
        + padded(month as nat, 2)
        + padded(day as nat, 2)
        + seq!['_']
        + padded(hour as nat, 2)
        + padded(minute as nat, 2)
        + padded(second as nat, 2)
}

/// The format description of the stamp, in the `time` crate's syntax.
pub open spec fn stamp_description() -> Seq<char> {
    "[year][month][day]_[hour][minute][second]"@
}

/// `time::PlainDateTime::format` on the moment, with the format description
/// `description` parsed by `time::format_description::parse_borrowed::<1>`.
/// Claimed: for the stamp's description, the text is the year (a `-` before
/// a negative one) in four digits, then month and day, `_`, hour, minute and
/// second in two digits each, all padded with zeros, as the crate documents
/// these components' default modifiers.
#[verifier::external_body]
fn format_moment(description: &str, year: i32, month: u8, day: u8, hour: u8, minute: u8, second: u8) -> (r: String)
    requires
        description@ == stamp_description(),
        valid_moment(year, month, day, hour, minute, second),
    ensures
        r@ == stamp(year, month, day, hour, minute, second),
{
    let month = time::Month::try_from(month).unwrap();
    let date = time::Date::from_calendar_date(year, month, day).unwrap();
    let time_of_day = time::Time::from_hms(hour, minute, second).unwrap();
    let items = time::format_description::parse_borrowed::<1>(description).unwrap();
    time::PrimitiveDateTime::new(date, time_of_day).format(&items).unwrap()
}

/// The moment as it appears in a log file's name, formatted by the `time`
/// crate.
pub fn log_stamp(year: i32, month: u8, day: u8, hour: u8, minute: u8, second: u8) -> (r: String)
    requires
        valid_moment(year, month, day, hour, minute, second),
    ensures
        r@ == stamp(year, month, day, hour, minute, second),
{
    let description = "[year][month][day]_[hour][minute][second]";
    format_moment(description, year, month, day, hour, minute, second)
}

/// The log file of a tool: `<prefix>_<stamp>.log`.
pub fn log_file_name(prefix: &str, stamp: &str) -> (r: String)
    ensures
        r@ == prefix@ + "_"@ + stamp@ + ".log"@,
{
    let a = joined(prefix, "_");
    let b = joined(a.as_str(), stamp);
    joined(b.as_str(), ".log")
}

/// The folder of the log file as it is shown: backslashes become slashes.
pub fn shown_folder(folder: &str) -> (r: String)
    ensures
        r@ == replace_all(folder@, "\\"@, "/"@),
{
    let f = chars_of(folder);
    let pat = chars_of("\\");
    let rep = chars_of("/");
    proof {
        reveal_strlit("\\");
    }
    let r = replace_all_vec(&f, &pat, &rep);
    string_of(&r)
}

} // verus!
