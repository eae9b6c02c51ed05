//! The Gregorian calendar as the service's reports use it: month lengths,
//! month names, valid dates and the months between two dates.
use vstd::prelude::*;

use crate::entities::Date;

verus! {

/// The earliest year a date may have.
pub const MIN_YEAR: i32 = -9999;

/// The latest year a date may have.
pub const MAX_YEAR: i32 = 9999;

/// Whether a year has a 29th of February.
pub open spec fn is_leap_year(year: int) -> bool {
    year % 4 == 0 && (year % 100 != 0 || year % 400 == 0)
}

/// The number of days of a month (1 to 12) in a year (`Month::length`).
pub open spec fn days_in_month(month: int, year: int) -> int {
    if month == 2 {
        if is_leap_year(year) { 29 } else { 28 }
    } else if month == 4 || month == 6 || month == 9 || month == 11 {
        30
    } else {
        31
    }
}

/// Whether a date names a day of the calendar in the supported years.
pub open spec fn is_valid_date(d: (i32, u8, u8)) -> bool {
    &&& MIN_YEAR <= d.0 <= MAX_YEAR
    &&& 1 <= d.1 <= 12
    &&& 1 <= d.2 <= days_in_month(d.1 as int, d.0 as int)
}

/// The earliest Unix timestamp that has a date: -9999-01-01T00:00:00Z.
pub const MIN_TIMESTAMP: i64 = -377_705_116_800;

/// The latest Unix timestamp that has a date: 9999-12-31T23:59:59Z.
pub const MAX_TIMESTAMP: i64 = 253_402_300_799;

/// The date, as `(year, month, day)` of the proleptic Gregorian calendar,
/// of a count of days since 1970-01-01 (negative before it). The count is
/// shifted to start on 0000-03-01, split into 400-year eras of 146097 days,
/// and the year, day of year and month are read off with March first, so
/// that a leap day falls at the end of a year.
pub open spec fn civil_date(days: int) -> (int, int, int) {
    let z = days + 719468;
    let era = z / 146097;
    let doe = z - era * 146097;
    let yoe = (doe - doe / 1460 + doe / 36524 - doe / 146096) / 365;
    let doy = doe - (365 * yoe + yoe / 4 - yoe / 100);
    let mp = (5 * doy + 2) / 153;
    let day = doy - (153 * mp + 2) / 5 + 1;
    let month = if mp < 10 { mp + 3 } else { mp - 9 };
    let year = yoe + era * 400 + if month <= 2 { 1int } else { 0int };
    (year, month, day)
}

/// The UTC date, as `(year, month, day)`, of an instant given in seconds
/// since the Unix epoch: the date of its day, the seconds divided by 86400
/// rounded down.
pub open spec fn utc_date_of(timestamp: i64) -> (i32, u8, u8) {
    let d = civil_date(timestamp / 86400);
    (d.0 as i32, d.1 as u8, d.2 as u8)
}

/// The UTC date of a Unix timestamp, by `time::OffsetDateTime::
/// from_unix_timestamp` and `OffsetDateTime::date`. Claims, as that
/// function's source shows, that it succeeds exactly on the timestamps from
/// `MIN_TIMESTAMP` to `MAX_TIMESTAMP`, with the valid date `utc_date_of`,
/// and otherwise fails with the text of a `ComponentRange`
/// error for the component `timestamp`.
#[verifier::external_body]
pub(crate) fn date_of_unix_timestamp(timestamp: i64) -> (res: Result<Date, String>)
    ensures
        res is Ok <==> MIN_TIMESTAMP <= timestamp <= MAX_TIMESTAMP,
        res matches Ok(d) ==> d@ == utc_date_of(timestamp) && is_valid_date(d@),
        res matches Err(e) ==> e@ == "timestamp was not in range"@,
{
    match time::OffsetDateTime::from_unix_timestamp(timestamp) {
        Ok(instant) => {
            let date = instant.date();
            Ok(Date { day: date.day(), month: u8::from(date.month()), year: date.year() })
        },
        Err(error) => Err(error.to_string()),
    }
}

/// What reading a date out of a text by a `time` format description, with
/// the given century for a two-digit year, gives: the date, or the text of
/// the error, marked `true` when the text did not match the description and
/// `false` when what it held is no date.
pub uninterp spec fn described_date(text: Seq<char>, description: Seq<char>, century: i16) -> Result<
    (i32, u8, u8),
    (bool, Seq<char>),
>;

/// Reads a date out of a text: parses the description with
/// `time::format_description::parse`, the text with `Parsed::parse_items`
/// (what follows the date is ignored), sets the century with
/// `Parsed::set_year_century`, and builds the date with `Date::try_from`;
/// an error is reported by its text. Claims that the result is
/// `described_date` of the arguments, and that a date it gives is valid, as
/// every `time::Date` is.
#[verifier::external_body]
pub(crate) fn parse_described_date(text: &str, description: &str, century: i16) -> (res: Result<Date, (bool, String)>)
    ensures
        res is Ok <==> described_date(text@, description@, century) is Ok,
        res matches Ok(d) ==> described_date(text@, description@, century) matches Ok(v) && v == d@ && is_valid_date(d@),
        res matches Err(e) ==> described_date(text@, description@, century) matches Err(v) && v.0 == e.0 && v.1 == e.1@,
{
    let items = time::format_description::parse(description).map_err(|error| (true, error.to_string()))?;
    let mut parsed = time::parsing::Parsed::new();
    parsed.parse_items(text.as_bytes(), &items).map_err(|error| (true, error.to_string()))?;
    let _ = parsed.set_year_century(century, false);
    let date = time::Date::try_from(parsed).map_err(|error| (false, error.to_string()))?;
    Ok(Date { day: date.day(), month: u8::from(date.month()), year: date.year() })
}

/// Whether `a` is an earlier day than `b`.
pub open spec fn date_before(a: (i32, u8, u8), b: (i32, u8, u8)) -> bool {
    a.0 < b.0 || (a.0 == b.0 && (a.1 < b.1 || (a.1 == b.1 && a.2 < b.2)))
}

/// Whether a year has a 29th of February.
pub fn leap_year(year: i32) -> (res: bool)
    ensures
        res == is_leap_year(year as int),
{
    year % 4 == 0 && (year % 100 != 0 || year % 400 == 0)
}

/// The number of days of a month in a year.
pub fn month_length(month: u8, year: i32) -> (res: u8)
    requires
        1 <= month <= 12,
    ensures
        res == days_in_month(month as int, year as int),
{
    if month == 2 {
        if leap_year(year) { 29 } else { 28 }
    } else if month == 4 || month == 6 || month == 9 || month == 11 {
        30
    } else {
        31
    }
}

/// The English name of a month (`<time::Month as Display>`).
pub open spec fn month_name_spec(month: u8) -> Seq<char> {
    if month == 1 { "January"@ }
    else if month == 2 { "February"@ }
    else if month == 3 { "March"@ }
    else if month == 4 { "April"@ }
    else if month == 5 { "May"@ }
    else if month == 6 { "June"@ }
    else if month == 7 { "July"@ }
    else if month == 8 { "August"@ }
    else if month == 9 { "September"@ }
    else if month == 10 { "October"@ }
    else if month == 11 { "November"@ }
    else { "December"@ }
}

/// The English name of a month.
pub fn month_name(month: u8) -> (res: &'static str)
    ensures
        res@ == month_name_spec(month),
{
    if month == 1 { "January" }
    else if month == 2 { "February" }
    else if month == 3 { "March" }
    else if month == 4 { "April" }
    else if month == 5 { "May" }
    else if month == 6 { "June" }
    else if month == 7 { "July" }
    else if month == 8 { "August" }
    else if month == 9 { "September" }
    else if month == 10 { "October" }
    else if month == 11 { "November" }
    else { "December" }
}

/// The date of a year, month and day, or the name of the component that is
/// out of range (`Date::from_calendar_date`): the year is checked first,
/// then the day.
pub open spec fn calendar_date(year: i32, month: u8, day: u8) -> Result<(i32, u8, u8), Seq<char>> {
    if !(MIN_YEAR <= year <= MAX_YEAR) {
        Err("year"@)
    } else if !(1 <= day <= days_in_month(month as int, year as int)) {
        Err("day"@)
    } else {
        Ok((year, month, day))
    }
}

/// Builds a date from its components, or names the one out of range.
pub fn from_calendar_date(year: i32, month: u8, day: u8) -> (res: Result<Date, &'static str>)
    requires
        1 <= month <= 12,
    ensures
        match calendar_date(year, month, day) {
            Ok(d) => res matches Ok(date) && date@ == d,
            Err(name) => res matches Err(n) && n@ == name,
        },
{
    if !(MIN_YEAR <= year && year <= MAX_YEAR) {
        return Err("year");
    }
    if !(1 <= day && day <= month_length(month, year)) {
        return Err("day");
    }
    Ok(Date { day, month, year })
}

/// Whether `a` is an earlier day than `b`.
pub fn is_before(a: &Date, b: &Date) -> (res: bool)
    ensures
        res == date_before(a@, b@),
{
    a.year < b.year || (a.year == b.year && (a.month < b.month || (a.month == b.month && a.day
        < b.day)))
}

/// The month `(month, year)` that comes `i` months after the month with
/// index `start`, a month's index being `12 * year + month - 1`.
pub open spec fn month_at(start: int, i: int) -> (u8, i32) {
    let k = start + i;
    ((k % 12 + 1) as u8, (k / 12) as i32)
}

/// The index of the month of a date.
pub open spec fn month_index(d: (i32, u8, u8)) -> int {
    12 * d.0 + d.1 - 1
}

/// Every month from that of `since` to that of `until`, both included, as
/// `(month, year)`; none when `until` is before `since`.
pub open spec fn months_between(since: (i32, u8, u8), until: (i32, u8, u8)) -> Seq<(u8, i32)> {
    if date_before(until, since) {
        Seq::empty()
    } else {
        Seq::new(
            (month_index(until) - month_index(since) + 1) as nat,
            |i: int| month_at(month_index(since), i),
        )
    }
}

/// The month after `(month, year)`: the next one, or January of the next
/// year after December.
pub open spec fn next_month(m: (u8, i32)) -> (u8, i32) {
    if m.0 == 12 {
        (1u8, (m.1 + 1) as i32)
    } else {
        ((m.0 + 1) as u8, m.1)
    }
}

proof fn lemma_month_at_index(y: int, m: int)
    requires
        1 <= m <= 12,
    ensures
        (12 * y + m - 1) % 12 == m - 1,
        (12 * y + m - 1) / 12 == y,
{
    assert((12 * y + m - 1) % 12 == m - 1 && (12 * y + m - 1) / 12 == y) by (nonlinear_arith)
        requires
            1 <= m <= 12,
    ;
}

proof fn lemma_month_at_step(k: int)
    ensures
        (k % 12 == 11) ==> ((k + 1) % 12 == 0 && (k + 1) / 12 == k / 12 + 1),
        (k % 12 != 11) ==> ((k + 1) % 12 == k % 12 + 1 && (k + 1) / 12 == k / 12),
{
    assert((k % 12 == 11) ==> ((k + 1) % 12 == 0 && (k + 1) / 12 == k / 12 + 1)) by (nonlinear_arith);
    assert((k % 12 != 11) ==> ((k + 1) % 12 == k % 12 + 1 && (k + 1) / 12 == k / 12)) by (nonlinear_arith);
}

/// The months from `since` to `until` start at the month of `since`, end at
/// the month of `until`, and each comes right after the one before it; there
/// are none when `until` is before `since`.
pub proof fn lemma_months_between_steps(since: (i32, u8, u8), until: (i32, u8, u8))
    requires
        is_valid_date(since),
        is_valid_date(until),
    ensures
        date_before(until, since) ==> months_between(since, until).len() == 0,
        !date_before(until, since) ==> {
            let ms = months_between(since, until);
            &&& ms.len() > 0
            &&& ms[0] == (since.1, since.0)
            &&& ms.last() == (until.1, until.0)
            &&& forall|i: int| #![trigger ms[i]] 0 <= i < ms.len() - 1 ==> ms[i + 1] == next_month(ms[i])
            &&& forall|i: int| 0 <= i < ms.len() ==> 1 <= (#[trigger] ms[i]).0 <= 12
        },
{
    if !date_before(until, since) {
        let ms = months_between(since, until);
        let start = month_index(since);
        lemma_month_at_index(since.0 as int, since.1 as int);
        lemma_month_at_index(until.0 as int, until.1 as int);
        assert(ms[0] == month_at(start, 0));
        assert(ms.last() == month_at(start, ms.len() - 1));
        assert forall|i: int| #![trigger ms[i]] 0 <= i < ms.len() - 1 implies ms[i + 1] == next_month(ms[i]) by {
            lemma_month_at_step(start + i);
            assert(ms[i] == month_at(start, i));
            assert(ms[i + 1] == month_at(start, i + 1));
            assert(start + i + 1 == start + (i + 1));
        }
        assert forall|i: int| 0 <= i < ms.len() implies 1 <= (#[trigger] ms[i]).0 <= 12 by {
            assert(ms[i] == month_at(start, i));
        }
    }
}

/// Every month from that of `since` to that of `until`, both included.
pub fn get_months_between(since: Date, until: Date) -> (res: Vec<(u8, i32)>)
    requires
        is_valid_date(since@),
        is_valid_date(until@),
    ensures
        res@ == months_between(since@, until@),
        (until.year < since.year || (until.year == since.year && (until.month < since.month || (until.month == since.month && until.day < since.day)))) ==> res@.len() == 0,
        !(until.year < since.year || (until.year == since.year && (until.month < since.month || (until.month == since.month && until.day < since.day)))) ==> {
            &&& res@.len() > 0
            &&& res@[0] == (since.month, since.year)
            &&& res@.last() == (until.month, until.year)
            &&& forall|i: int| #![trigger res@[i]] 0 <= i < res@.len() - 1 ==> res@[i + 1] == next_month(res@[i])
        },
{
    proof {
        lemma_months_between_steps(since@, until@);
    }
    let mut results: Vec<(u8, i32)> = Vec::new();
    if is_before(&until, &since) {
        assert(results@ =~= months_between(since@, until@));
        return results;
    }
    let mut current_year = since.year;
    let mut current_month = since.month;
    let end_year = until.year;
    let end_month = until.month;
    let ghost start = month_index(since@);
    while current_year < end_year || (current_year == end_year && current_month <= end_month)
        invariant
            1 <= current_month <= 12,
            MIN_YEAR <= current_year <= MAX_YEAR + 1,
            end_year <= MAX_YEAR,
            1 <= end_month <= 12,
            end_year == until.year,
            end_month == until.month,
            start == month_index(since@),
            start <= 12 * current_year + current_month - 1 <= month_index(until@) + 1,
            results@.len() == 12 * current_year + current_month - 1 - start,
            forall|j: int| 0 <= j < results@.len() ==> results@[j] == month_at(start, j),
        decreases month_index(until@) + 1 - (12 * current_year + current_month - 1),
    {
        let ghost k = 12 * current_year + current_month - 1;
        assert(month_at(start, k - start) == (current_month, current_year)) by {
            assert(k % 12 == current_month - 1 && k / 12 == current_year) by (nonlinear_arith)
                requires
                    k == 12 * current_year + current_month - 1,
                    1 <= current_month <= 12,
            ;
        }
        results.push((current_month, current_year));
        if current_month == 12 {
            current_year = current_year + 1;
            current_month = 1;
        } else {
            current_month = current_month + 1;
        }
    }
    assert(results@ =~= months_between(since@, until@));
    results
}

} // verus!
