//! The date that a copy is stamped with.

use vstd::prelude::*;

verus! {

/// The date that stands in where the clock's time cannot be written.
pub const EPOCH: &'static str = "1970-01-01T00:00:00Z";

/// The number that the two decimal digits at position `at` spell.
pub open spec fn two_digits(text: Seq<char>, at: int) -> int {
    10 * (text[at] as int - '0' as int) + (text[at + 1] as int - '0' as int)
}

/// Whether the year has a 29 February, in the Gregorian calendar.
pub open spec fn is_leap_year(year: int) -> bool {
    year % 4 == 0 && (year % 100 != 0 || year % 400 == 0)
}

/// The number of days in a month of a year.
pub open spec fn days_in_month(year: int, month: int) -> int {
    if month == 2 {
        if is_leap_year(year) {
            29
        } else {
            28
        }
    } else if month == 4 || month == 6 || month == 9 || month == 11 {
        30
    } else {
        31
    }
}

/// Whether `text` has the form `YYYY-MM-DDTHH:MM:SS.NNNNNNNNNZ`, with a day
/// that is in the calendar and a time of day in its range.
pub open spec fn is_utc_timestamp(text: Seq<char>) -> bool {
    &&& text.len() == 30
    &&& text[4] == '-' && text[7] == '-' && text[10] == 'T'
    &&& text[13] == ':' && text[16] == ':' && text[19] == '.'
    &&& text[29] == 'Z'
    &&& forall|i: int|
        0 <= i < 29 && i != 4 && i != 7 && i != 10 && i != 13 && i != 16 && i != 19
            ==> '0' <= #[trigger] text[i] <= '9'
    &&& 1 <= two_digits(text, 5) <= 12
    &&& 1 <= two_digits(text, 8) <= days_in_month(
        100 * two_digits(text, 0) + two_digits(text, 2),
        two_digits(text, 5),
    )
    &&& two_digits(text, 11) <= 23
    &&& two_digits(text, 14) <= 59
    &&& two_digits(text, 17) <= 59
}

/// Whether `text` can be a stamp's date.
pub open spec fn is_stamp_date(text: Seq<char>) -> bool {
    is_utc_timestamp(text) || text == EPOCH@
}

/// `time::OffsetDateTime::now_utc` reads the system clock, and
/// `time::OffsetDateTime::format` with `Iso8601::DEFAULT` writes a UTC time
/// as date, `T`, time with nine decimal digits, and `Z`. The date is one of
/// the Gregorian calendar. It fails on a year that does not fit in four
/// digits. Which time it is, is not said.
#[verifier::external_body]
fn utc_now() -> (formatted: Option<String>)
    ensures
        formatted matches Some(text) ==> is_utc_timestamp(text@),
{
    time::OffsetDateTime::now_utc().format(
        &time::format_description::well_known::Iso8601::DEFAULT,
    ).ok()
}

/// Whether `formatted` is what a reading of the clock gives at some time.
pub closed spec fn clock_gave(formatted: Option<String>) -> bool {
    call_ensures(utc_now, (), formatted)
}

/// Whether `date` was taken from the clock: it is a time that the clock gave,
/// or the epoch where the clock's time could not be written.
pub open spec fn is_clock_date(date: Seq<char>) -> bool {
    &&& is_stamp_date(date)
    &&& exists|formatted: Option<String>| #[trigger]
        clock_gave(formatted) && date == match formatted {
            Some(text) => text@,
            None => EPOCH@,
        }
}

/// The formatted time, or the epoch where there is none.
pub fn date_or_epoch(formatted: Option<String>) -> (date: String)
    ensures
        date@ == match formatted {
            Some(text) => text@,
            None => EPOCH@,
        },
{
    match formatted {
        Some(text) => text,
        None => EPOCH.to_string(),
    }
}

/// The current time as a stamp's date.
pub fn current_pdf_date() -> (date: String)
    ensures
        is_clock_date(date@),
{
    let formatted = utc_now();
    assert(clock_gave(formatted));
    date_or_epoch(formatted)
}

/// What the clock gave is what a call of `utc_now` returned, and nothing else.
proof fn law_clock_gave_is_a_reading(formatted: Option<String>)
    ensures
        clock_gave(formatted) <==> call_ensures(utc_now, (), formatted),
{
}

/// The current date is what a call of `utc_now` returned, or the start of
/// 1970 where it returned nothing.
proof fn law_current_date_is_a_reading(date: String)
    requires
        call_ensures(current_pdf_date, (), date),
    ensures
        exists|formatted: Option<String>| #[trigger]
            call_ensures(utc_now, (), formatted) && date@ == match formatted {
                Some(text) => text@,
                None => "1970-01-01T00:00:00Z"@,
            },
{
    let formatted = choose|formatted: Option<String>| #[trigger]
        clock_gave(formatted) && date@ == match formatted {
            Some(text) => text@,
            None => EPOCH@,
        };
    assert(call_ensures(utc_now, (), formatted));
}

} // verus!
