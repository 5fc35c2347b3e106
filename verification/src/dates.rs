//! What the accounting reads from a timestamp: its calendar day and its year.
//!
//! A timestamp is text that begins with a date, `YYYY-MM-DD`, and may go on with a
//! time of day. Text that holds no date is not an error: it gives no day and no year.

use vstd::prelude::*;
use vstd::string::*;

verus! {

/// The first `n` characters of `text`, or all of it where it is shorter.
pub open spec fn prefix(text: Seq<char>, n: nat) -> Seq<char> {
    if text.len() <= n {
        text
    } else {
        text.subrange(0, n as int)
    }
}

/// The date part of a timestamp: its first ten characters.
pub open spec fn date_part(timestamp: Seq<char>) -> Seq<char> {
    prefix(timestamp, 10)
}

/// The day number, counted from 1 January of year 1 as day 1, of the date that
/// `chrono` reads from `text` under the format `%Y-%m-%d`; `None` where it reads none.
pub uninterp spec fn date_day_number(text: Seq<char>) -> Option<i32>;

/// Calls `chrono::NaiveDate::parse_from_str` with the format `%Y-%m-%d` and, on a date,
/// `chrono::Datelike::num_days_from_ce`. Trusted: the outcome depends on `text` alone,
/// which is all that naming it `date_day_number` claims.
#[verifier::external_body]
fn parse_day_number(text: &str) -> (day: Option<i32>)
    ensures
        day == date_day_number(text@),
{
    match chrono::NaiveDate::parse_from_str(text, "%Y-%m-%d") {
        Ok(date) => Some(chrono::Datelike::num_days_from_ce(&date)),
        Err(_) => None,
    }
}

/// The day on which a timestamp falls.
pub open spec fn timestamp_day_spec(timestamp: Seq<char>) -> Option<i32> {
    date_day_number(date_part(timestamp))
}

/// The first `n` characters of `text`.
pub fn leading<'a>(text: &'a str, n: usize) -> (head: &'a str)
    ensures
        head@ == prefix(text@, n as nat),
{
    let len = text.unicode_len();
    if len <= n {
        text
    } else {
        text.substring_char(0, n)
    }
}

/// The day on which a timestamp falls, `None` where its date part is no date.
pub fn timestamp_day(timestamp: &str) -> (day: Option<i32>)
    ensures
        day == timestamp_day_spec(timestamp@),
{
    parse_day_number(leading(timestamp, 10))
}

/// Whether `c` is one of the ten decimal digits.
pub open spec fn is_digit(c: char) -> bool {
    '0' <= c <= '9'
}

/// The value of a decimal digit.
pub open spec fn digit_value(c: char) -> int {
    c as int - '0' as int
}

/// The number that three decimal digits write.
pub open spec fn three_digits(a: char, b: char, c: char) -> int {
    100 * digit_value(a) + 10 * digit_value(b) + digit_value(c)
}

/// The year that the first four characters of a timestamp write: four digits, or a
/// sign and three digits. `None` where they are anything else.
pub open spec fn timestamp_year_spec(timestamp: Seq<char>) -> Option<i32> {
    if timestamp.len() < 4 {
        None
    } else if !(is_digit(timestamp[1]) && is_digit(timestamp[2]) && is_digit(timestamp[3])) {
        None
    } else {
        let low = three_digits(timestamp[1], timestamp[2], timestamp[3]);
        if is_digit(timestamp[0]) {
            Some((1000 * digit_value(timestamp[0]) + low) as i32)
        } else if timestamp[0] == '+' {
            Some(low as i32)
        } else if timestamp[0] == '-' {
            Some((-low) as i32)
        } else {
            None
        }
    }
}

fn digit_of(c: char) -> (d: Option<i32>)
    ensures
        d is Some <==> is_digit(c),
        d matches Some(v) ==> v == digit_value(c) && 0 <= v <= 9,
{
    if '0' <= c && c <= '9' {
        Some((c as u32 - '0' as u32) as i32)
    } else {
        None
    }
}

/// The year of a timestamp, `None` where its first four characters write none.
pub fn timestamp_year(timestamp: &str) -> (year: Option<i32>)
    ensures
        year == timestamp_year_spec(timestamp@),
{
    if timestamp.unicode_len() < 4 {
        return None;
    }
    let c0 = timestamp.get_char(0);
    let d1 = digit_of(timestamp.get_char(1));
    let d2 = digit_of(timestamp.get_char(2));
    let d3 = digit_of(timestamp.get_char(3));
    match (d1, d2, d3) {
        (Some(a), Some(b), Some(c)) => {
            let low: i32 = 100 * a + 10 * b + c;
            match digit_of(c0) {
                Some(top) => Some(1000 * top + low),
                None => if c0 == '+' {
                    Some(low)
                } else if c0 == '-' {
                    Some(-low)
                } else {
                    None
                },
            }
        },
        _ => None,
    }
}

/// Whether a disposal at `timestamp` is reported under the year filter.
pub open spec fn in_tax_year_spec(timestamp: Seq<char>, tax_year: Option<i32>) -> bool {
    match tax_year {
        Some(year) => timestamp_year_spec(timestamp) == Some(year),
        None => true,
    }
}

/// Whether a disposal at `timestamp` is reported: always without a filter, and with
/// one only where the timestamp's year is the filter's.
pub fn in_tax_year(timestamp: &str, tax_year: Option<i32>) -> (reported: bool)
    ensures
        reported == in_tax_year_spec(timestamp@, tax_year),
{
    match tax_year {
        Some(year) => match timestamp_year(timestamp) {
            Some(found) => found == year,
            None => false,
        },
        None => true,
    }
}

/// Days from acquisition to disposal; 0 where either day is unknown.
pub open spec fn holding_days_spec(acquired: Option<i32>, disposed: Option<i32>) -> int {
    match (acquired, disposed) {
        (Some(from), Some(to)) => to - from,
        _ => 0,
    }
}

/// Days from acquisition to disposal; 0 where either day is unknown.
pub fn holding_days(acquired: Option<i32>, disposed: Option<i32>) -> (days: i64)
    ensures
        days == holding_days_spec(acquired, disposed),
{
    match (acquired, disposed) {
        (Some(from), Some(to)) => to as i64 - from as i64,
        _ => 0,
    }
}

/// A holding is long-term when it lasted more than 365 days.
pub open spec fn is_long_term_spec(days: int) -> bool {
    days > 365
}

/// Whether a holding of `days` days is long-term: 365 days is still short-term.
pub fn is_long_term(days: i64) -> (long: bool)
    ensures
        long == is_long_term_spec(days as int),
{
    days > 365
}

/// Days between the dates of two timestamps; 0 where either holds no date.
pub fn days_between(start: &str, end: &str) -> (days: i64)
    ensures
        days == holding_days_spec(timestamp_day_spec(start@), timestamp_day_spec(end@)),
{
    holding_days(timestamp_day(start), timestamp_day(end))
}

} // verus!
