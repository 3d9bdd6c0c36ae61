use vstd::prelude::*;

verus! {

/// Calendar year, in the proleptic Gregorian calendar at UTC, of the instant
/// `ts` seconds after the Unix epoch.
pub uninterp spec fn year_of(ts: int) -> int;

/// Calendar month (1 to 12) at UTC of the instant `ts` seconds after the
/// Unix epoch.
pub uninterp spec fn month_of(ts: int) -> int;

/// Day of the month (1 to 31) at UTC of the instant `ts` seconds after the
/// Unix epoch.
pub uninterp spec fn day_of(ts: int) -> int;

/// Relies on chrono: `DateTime::<Utc>::from_timestamp` converts a Unix
/// timestamp to a calendar date at UTC, and `Datelike::{year, month, day}`
/// read its parts. The date is a function of the timestamp alone; months lie
/// in 1..=12 and days in 1..=31; every timestamp that fits in `i32` denotes
/// a date between the years 1901 and 2038, well inside chrono's documented
/// range, so the conversion cannot fail.
#[verifier::external_body]
fn civil_date(ts: i32) -> (r: (i32, u8, u8))
    ensures
        r.0 as int == year_of(ts as int),
        r.1 as int == month_of(ts as int),
        r.2 as int == day_of(ts as int),
        1901 <= r.0 <= 2038,
        1 <= r.1 <= 12,
        1 <= r.2 <= 31,
{
    let date = chrono::DateTime::from_timestamp(ts as i64, 0).unwrap();
    let (y, m, d) = (
        chrono::Datelike::year(&date),
        chrono::Datelike::month(&date),
        chrono::Datelike::day(&date),
    );
    (y, m as u8, d as u8)
}

/// Age in whole years of someone born on the calendar date `(by, bm, bd)`,
/// on the reference date `(ry, rm, rd)`: the year difference, less one if
/// the birthday anniversary has not yet been reached in the reference year.
pub open spec fn age_of_dates(by: int, bm: int, bd: int, ry: int, rm: int, rd: int) -> int {
    ry - by - if rm > bm || (rm == bm && rd >= bd) {
        0int
    } else {
        1int
    }
}

/// Age in whole years at the instant `now` of someone born at the instant
/// `birth`, both in seconds since the Unix epoch, computed calendar-exactly.
pub open spec fn spec_age(birth: i32, now: i32) -> int {
    age_of_dates(
        year_of(birth as int),
        month_of(birth as int),
        day_of(birth as int),
        year_of(now as int),
        month_of(now as int),
        day_of(now as int),
    )
}

/// Calendar-exact age in whole years: the year difference between the two
/// instants' dates, less one if the birthday anniversary has not yet been
/// reached in the reference year. Deliberately not a day-count
/// approximation, which would miscount ages near birthdays.
pub fn calculate_age_from_timestamp(birth_date_timestamp: i32, now_timestamp: i32) -> (age: i32)
    ensures
        age as int == spec_age(birth_date_timestamp, now_timestamp),
{
    let (birth_year, birth_month, birth_day) = civil_date(birth_date_timestamp);
    let (now_year, now_month, now_day) = civil_date(now_timestamp);

    let year_diff = now_year - birth_year;

    let did_full_year_pass = now_month > birth_month || (now_month == birth_month && now_day
        >= birth_day);

    if did_full_year_pass {
        year_diff
    } else {
        year_diff - 1
    }
}

/// A date `(y1, m1, d1)` is no later than `(y2, m2, d2)` in calendar order.
pub open spec fn date_le(y1: int, m1: int, d1: int, y2: int, m2: int, d2: int) -> bool {
    y1 < y2 || (y1 == y2 && (m1 < m2 || (m1 == m2 && d1 <= d2)))
}

/// Age never decreases as the reference date advances.
pub proof fn lemma_age_monotone(
    by: int,
    bm: int,
    bd: int,
    y1: int,
    m1: int,
    d1: int,
    y2: int,
    m2: int,
    d2: int,
)
    requires
        date_le(y1, m1, d1, y2, m2, d2),
    ensures
        age_of_dates(by, bm, bd, y1, m1, d1) <= age_of_dates(by, bm, bd, y2, m2, d2),
{
}

/// Within a fixed reference year the age takes exactly two values: one year
/// less than the year difference strictly before the birthday, and exactly
/// the year difference from the birthday on. So the age increases by exactly
/// one when the reference date reaches the birthday, and never earlier.
pub proof fn lemma_age_step_at_birthday(by: int, bm: int, bd: int, ry: int, rm: int, rd: int)
    ensures
        (rm < bm || (rm == bm && rd < bd)) ==> age_of_dates(by, bm, bd, ry, rm, rd) == ry - by - 1,
        (rm > bm || (rm == bm && rd >= bd)) ==> age_of_dates(by, bm, bd, ry, rm, rd) == ry - by,
        age_of_dates(by, bm, bd, ry, bm, bd) == ry - by,
{
}

} // verus!
