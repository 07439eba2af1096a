//! Calendar dates as day numbers, day 1 being January 1 of the year 1.

use crate::text::{char_is_digit, is_digit, to_chars};
use chrono::Datelike;
use vstd::prelude::*;

verus! {

/// The first day that is written with a plain four-digit year.
pub const FIRST_PLAIN_DAY: i32 = -365;

/// The last day that is written with a plain four-digit year.
pub const LAST_PLAIN_DAY: i32 = 3652059;

/// The day number that chrono reads from a text by the format `%Y-%m-%d`.
pub uninterp spec fn day_of(s: Seq<char>) -> Option<int>;

/// How chrono writes the day with that number, where it has such a day.
pub uninterp spec fn day_text(day: int) -> Option<Seq<char>>;

/// `chrono::NaiveDate::parse_from_str` with `%Y-%m-%d`, and
/// `Datelike::num_days_from_ce` of the date it reads. Which texts it takes is
/// chrono's business; the same text always gives the same day.
#[verifier::external_body]
pub(crate) fn parse_day(s: &str) -> (r: Option<i32>)
    ensures
        match r {
            Some(d) => day_of(s@) == Some(d as int),
            None => day_of(s@) is None,
        },
{
    match chrono::NaiveDate::parse_from_str(s, "%Y-%m-%d") {
        Ok(date) => Some(date.num_days_from_ce()),
        Err(_) => None,
    }
}

/// `chrono::NaiveDate::from_num_days_from_ce_opt` and the date's text form,
/// year, month and day with hyphens between them. Days of the years 0 to 9999
/// exist, and `%Y-%m-%d` reads their text back as the same day.
#[verifier::external_body]
pub(crate) fn format_day(day: i32) -> (r: Option<String>)
    ensures
        crate::text::opt_view(r) == day_text(day as int),
        FIRST_PLAIN_DAY <= day <= LAST_PLAIN_DAY ==> r is Some && day_of(r->0@) == Some(day as int),
{
    match chrono::NaiveDate::from_num_days_from_ce_opt(day) {
        Some(date) => Some(date.to_string()),
        None => None,
    }
}

/// Whether a text has the form `YYYY-MM-DD`: four, two and two digits with
/// hyphens between them.
pub open spec fn date_shape(s: Seq<char>) -> bool {
    s.len() == 10 && forall|i: int|
        0 <= i < 10 ==> if i == 4 || i == 7 {
            #[trigger] s[i] == '-'
        } else {
            is_digit(s[i])
        }
}

/// Whether a text is a calendar date of the form `YYYY-MM-DD`.
pub open spec fn calendar_date(s: Seq<char>) -> bool {
    date_shape(s) && day_of(s) is Some
}

fn has_date_shape(s: &str) -> (b: bool)
    ensures
        b == date_shape(s@),
{
    let v = to_chars(s);
    if v.len() != 10 {
        return false;
    }
    let mut i: usize = 0;
    while i < 10
        invariant
            v@ == s@,
            v@.len() == 10,
            i <= 10,
            forall|k: int|
                0 <= k < i ==> if k == 4 || k == 7 {
                    #[trigger] s@[k] == '-'
                } else {
                    is_digit(s@[k])
                },
        decreases 10 - i,
    {
        let c = v[i];
        let fits: bool = if i == 4 || i == 7 {
            c == '-'
        } else {
            char_is_digit(c)
        };
        if !fits {
            assert(s@[i as int] == c);
            return false;
        }
        i = i + 1;
    }
    true
}

/// Whether a text is a calendar date of the form `YYYY-MM-DD`.
pub fn is_date(s: &str) -> (b: bool)
    ensures
        b == calendar_date(s@),
{
    has_date_shape(s) && parse_day(s).is_some()
}

/// The text of a day.
pub fn date_text(day: i32) -> (r: Option<String>)
    ensures
        crate::text::opt_view(r) == day_text(day as int),
{
    format_day(day)
}

/// The day of a text.
pub fn date_day(s: &str) -> (r: Option<i32>)
    ensures
        match r {
            Some(d) => day_of(s@) == Some(d as int),
            None => day_of(s@) is None,
        },
{
    parse_day(s)
}

} // verus!
