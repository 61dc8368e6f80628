//! Proleptic Gregorian calendar arithmetic used by the cron scheduler.
use chrono::Datelike;
use vstd::prelude::*;

verus! {

/// The smallest year that `chrono::NaiveDate` represents.
pub const CHRONO_MIN_YEAR: i32 = -262143;

/// The largest year that `chrono::NaiveDate` represents.
pub const CHRONO_MAX_YEAR: i32 = 262142;

/// Gregorian leap years.
pub open spec fn leap_year(year: int) -> bool {
    (year % 4 == 0 && year % 100 != 0) || year % 400 == 0
}

/// The number of days of `month` in `year`; 30 for a month number outside
/// `1..=12`.
pub open spec fn month_length(year: int, month: int) -> int {
    if month == 1 || month == 3 || month == 5 || month == 7 || month == 8 || month == 10 || month
        == 12 {
        31
    } else if month == 4 || month == 6 || month == 9 || month == 11 {
        30
    } else if month == 2 {
        if leap_year(year) { 29 } else { 28 }
    } else {
        30
    }
}

/// Whether `year-month-day` is a date that `chrono::NaiveDate` can hold.
pub open spec fn valid_date(year: int, month: int, day: int) -> bool {
    &&& CHRONO_MIN_YEAR <= year <= CHRONO_MAX_YEAR
    &&& 1 <= month <= 12
    &&& 1 <= day <= month_length(year, month)
}

/// Per-month term of the day-of-week formula.
pub open spec fn month_term(month: int) -> int {
    if month == 1 { 0 }
    else if month == 2 { 3 }
    else if month == 3 { 2 }
    else if month == 4 { 5 }
    else if month == 5 { 0 }
    else if month == 6 { 3 }
    else if month == 7 { 5 }
    else if month == 8 { 1 }
    else if month == 9 { 4 }
    else if month == 10 { 6 }
    else if month == 11 { 2 }
    else { 4 }
}

/// Day of the week of a Gregorian date, counted from Sunday (`0` = Sunday,
/// `6` = Saturday).
pub open spec fn weekday_from_sunday(year: int, month: int, day: int) -> int {
    let y = if month < 3 { year - 1 } else { year };
    (y + y / 4 - y / 100 + y / 400 + month_term(month) + day) % 7
}

/// Day of the week with Sunday counted as `7` (`1` = Monday .. `7` = Sunday).
pub open spec fn weekday_mon1(year: int, month: int, day: int) -> int {
    let w = weekday_from_sunday(year, month, day);
    if w == 0 { 7 } else { w }
}

/// Consecutive days of one month have consecutive days of the week.
pub proof fn lemma_weekday_step(year: int, month: int, d1: int, d2: int)
    ensures
        weekday_from_sunday(year, month, d2) == (weekday_from_sunday(year, month, d1) + (d2 - d1))
            % 7,
{
    let y = if month < 3 { year - 1 } else { year };
    let base = y + y / 4 - y / 100 + y / 400 + month_term(month);
    assert(weekday_from_sunday(year, month, d2) == (base + d2) % 7);
    assert(weekday_from_sunday(year, month, d1) == (base + d1) % 7);
    assert(((base + d1) % 7 + (d2 - d1)) % 7 == (base + d2) % 7) by (nonlinear_arith);
}

/// `chrono::NaiveDate::from_ymd_opt(year, month, day)`, then the day of the
/// week of the date built (`Weekday::num_days_from_sunday`).
///
/// The contract states chrono's documented behaviour: a date is built exactly
/// when the month is `1..=12`, the day exists in that month of that year, and
/// the year is in chrono's range; and chrono's calendar is the proleptic
/// Gregorian one, whose days of the week the formula above gives.
#[verifier::external_body]
fn chrono_weekday(year: i32, month: u32, day: u32) -> (r: Option<u32>)
    ensures
        r is Some <==> valid_date(year as int, month as int, day as int),
        r matches Some(w) ==> w == weekday_from_sunday(year as int, month as int, day as int),
{
    match chrono::NaiveDate::from_ymd_opt(year, month, day) {
        Some(date) => Some(date.weekday().num_days_from_sunday()),
        None => None,
    }
}

/// Whether `year` is a Gregorian leap year.
pub fn is_leap_year(year: i32) -> (r: bool)
    ensures
        r == leap_year(year as int),
{
    (year % 4 == 0 && year % 100 != 0) || (year % 400 == 0)
}

/// The number of days in `month` of `year` (30 for a month outside `1..=12`).
pub fn days_in_month(year: i32, month: u32) -> (r: u32)
    ensures
        r == month_length(year as int, month as int),
        28 <= r <= 31,
{
    match month {
        1 | 3 | 5 | 7 | 8 | 10 | 12 => 31,
        4 | 6 | 9 | 11 => 30,
        2 => if is_leap_year(year) {
            29
        } else {
            28
        },
        _ => 30,
    }
}

/// The last day number of `month` in `year`.
pub fn last_day_of_month(year: i32, month: u32) -> (r: u32)
    ensures
        r == month_length(year as int, month as int),
{
    days_in_month(year, month)
}

/// `x as i32` for a `u32`: values above `i32::MAX` wrap to negatives.
pub open spec fn u32_as_i32(x: int) -> int {
    if x <= 0x7fff_ffff { x } else { x - 0x1_0000_0000 }
}

/// `a % 7` as Rust computes it on integers: the remainder takes the sign of
/// `a`.
pub open spec fn rem7(a: int) -> int {
    if a >= 0 { a % 7 } else { -((-a) % 7) }
}

/// The distance back from the last day of the month to the last `weekday`,
/// computed as `(last day's weekday - weekday + 7) % 7` in `i32` with the
/// last day's weekday counted `1` = Monday .. `7` = Sunday.
pub open spec fn last_weekday_offset(year: int, month: int, weekday: int) -> int {
    let last = month_length(year, month);
    weekday_mon1(year, month, last) - u32_as_i32(weekday) + 7
}

/// The day of the month of the last `weekday` (`0` or `7` = Sunday,
/// `1` = Monday, ..) in `month` of `year`; `None` when that month does not
/// exist for chrono, or when a `weekday` above 7 leaves a negative distance.
pub open spec fn last_weekday_spec(year: int, month: int, weekday: int) -> Option<u32> {
    let last = month_length(year, month);
    if valid_date(year, month, last) {
        let d = rem7(last_weekday_offset(year, month, weekday));
        if d >= 0 {
            Some((last - d) as u32)
        } else {
            None
        }
    } else {
        None
    }
}

/// The last `weekday` of the month (`0` or `7` = Sunday). The distance is
/// computed in `i32`, so a `weekday` just above `i32::MAX` would overflow;
/// those inputs are left out.
pub fn last_weekday_of_month(year: i32, month: u32, weekday: u32) -> (r: Option<u32>)
    requires
        valid_date(year as int, month as int, month_length(year as int, month as int))
            ==> last_weekday_offset(year as int, month as int, weekday as int) <= i32::MAX,
    ensures
        r == last_weekday_spec(year as int, month as int, weekday as int),
{
    let last = days_in_month(year, month);
    let wd = match chrono_weekday(year, month, last) {
        Some(w) => w,
        None => return None,
    };
    let wd: i64 = if wd == 0 {
        7
    } else {
        wd as i64
    };
    let w: i64 = if weekday <= 0x7fff_ffff {
        weekday as i64
    } else {
        weekday as i64 - 0x1_0000_0000i64
    };
    let t: i64 = wd - w + 7;
    if t >= 0 {
        let d: i64 = t % 7;
        Some(last - d as u32)
    } else {
        let d: i64 = (-t) % 7;
        if d == 0 {
            Some(last)
        } else {
            None
        }
    }
}

/// The working day (Monday to Friday) nearest to `day` within the month
/// (`day` is first clamped to the month's length); `None` when that date
/// does not exist for chrono.
pub open spec fn nearest_weekday_spec(year: int, month: int, day: int) -> Option<u32> {
    let dim = month_length(year, month);
    let d = if day < dim { day } else { dim };
    if valid_date(year, month, d) {
        let w = weekday_from_sunday(year, month, d);
        if w == 0 {
            if d < dim { Some((d + 1) as u32) } else { Some((d - 2) as u32) }
        } else if w == 6 {
            if d > 1 { Some((d - 1) as u32) } else { Some((d + 2) as u32) }
        } else {
            Some(d as u32)
        }
    } else {
        None
    }
}

/// The working day nearest to `day`, without leaving the month.
pub fn nearest_weekday(year: i32, month: u32, day: u32) -> (r: Option<u32>)
    ensures
        r == nearest_weekday_spec(year as int, month as int, day as int),
{
    let dim = days_in_month(year, month);
    let day = if day < dim {
        day
    } else {
        dim
    };
    let wd = match chrono_weekday(year, month, day) {
        Some(w) => w,
        None => return None,
    };
    if wd == 0 {
        if day < dim {
            Some(day + 1)
        } else {
            Some(day - 2)
        }
    } else if wd == 6 {
        if day > 1 {
            Some(day - 1)
        } else {
            Some(day + 2)
        }
    } else {
        Some(day)
    }
}

/// The offset from the 1st to the first `weekday` of the month, computed as
/// `(weekday - first day's weekday + 7) % 7` in `i32`, with the first day's
/// weekday counted `1` = Monday .. `7` = Sunday.
pub open spec fn nth_weekday_offset_raw(year: int, month: int, weekday: int) -> int {
    u32_as_i32(weekday) - weekday_mon1(year, month, 1) + 7
}

/// That offset as a `u32`: a negative remainder wraps around.
pub open spec fn nth_weekday_offset(year: int, month: int, weekday: int) -> int {
    let o = rem7(nth_weekday_offset_raw(year, month, weekday));
    if o >= 0 { o } else { o + 0x1_0000_0000 }
}

/// The day number `1 + offset + (n - 1) * 7`.
pub open spec fn nth_weekday_day(year: int, month: int, weekday: int, n: int) -> int {
    1 + nth_weekday_offset(year, month, weekday) + (n - 1) * 7
}

/// The day of the `n`-th `weekday` (`0` or `7` = Sunday) of the month;
/// `None` when the month has no such day or does not exist for chrono.
pub open spec fn nth_weekday_spec(year: int, month: int, weekday: int, n: int) -> Option<u32> {
    if valid_date(year, month, 1) {
        let day = nth_weekday_day(year, month, weekday, n);
        if day <= month_length(year, month) { Some(day as u32) } else { None }
    } else {
        None
    }
}

/// The `n`-th `weekday` of the month. `n` counts from 1; the inputs on
/// which the `i32` and `u32` arithmetic would overflow are left out.
pub fn nth_weekday(year: i32, month: u32, weekday: u32, n: u32) -> (r: Option<u32>)
    requires
        1 <= n,
        valid_date(year as int, month as int, 1) ==> {
            &&& nth_weekday_offset_raw(year as int, month as int, weekday as int) <= i32::MAX
            &&& nth_weekday_day(year as int, month as int, weekday as int, n as int) <= u32::MAX
        },
    ensures
        r == nth_weekday_spec(year as int, month as int, weekday as int, n as int),
{
    let first_wd = match chrono_weekday(year, month, 1) {
        Some(w) => w,
        None => return None,
    };
    let first_wd: i64 = if first_wd == 0 {
        7
    } else {
        first_wd as i64
    };
    let w: i64 = if weekday <= 0x7fff_ffff {
        weekday as i64
    } else {
        weekday as i64 - 0x1_0000_0000i64
    };
    let t: i64 = w - first_wd + 7;
    let o: i64 = if t >= 0 {
        t % 7
    } else {
        -((-t) % 7)
    };
    let offset: u64 = if o >= 0 {
        o as u64
    } else {
        (o + 0x1_0000_0000i64) as u64
    };
    let day64: u64 = 1 + offset + (n as u64 - 1) * 7;
    let day: u32 = day64 as u32;
    if day <= days_in_month(year, month) {
        Some(day)
    } else {
        None
    }
}

// ───────────────────────── laws ─────────────────────────

/// February has 29 days exactly in leap years; the other months have their
/// fixed lengths.
pub proof fn law_month_lengths(year: int, month: int)
    requires
        1 <= month <= 12,
    ensures
        month == 2 ==> (month_length(year, month) == 29 <==> leap_year(year)),
        month == 2 ==> (month_length(year, month) == 28 <==> !leap_year(year)),
        month != 2 ==> month_length(year, month) == (if month == 4 || month == 6 || month == 9
            || month == 11 { 30int } else { 31int }),
{
}

/// The nearest working day lies in the month, is a Monday to Friday, and is
/// at most two days away from the (clamped) requested day.
pub proof fn law_nearest_weekday_is_working_day(year: int, month: int, day: int)
    requires
        valid_date(year, month, 1),
        1 <= day,
    ensures
        nearest_weekday_spec(year, month, day) matches Some(r) ==> {
            let dim = month_length(year, month);
            let d = if day < dim { day } else { dim };
            &&& 1 <= r <= dim
            &&& 1 <= weekday_from_sunday(year, month, r as int) <= 5
            &&& d - 2 <= r <= d + 2
        },
{
    let dim = month_length(year, month);
    let d = if day < dim { day } else { dim };
    if valid_date(year, month, d) {
        let w = weekday_from_sunday(year, month, d);
        lemma_weekday_step(year, month, d, d + 1);
        lemma_weekday_step(year, month, d, d - 2);
        lemma_weekday_step(year, month, d, d - 1);
        lemma_weekday_step(year, month, d, d + 2);
    }
}

/// The `n`-th weekday found is that day of the week, lies in the month, and
/// is in the `n`-th week of the month.
pub proof fn law_nth_weekday_is_that_weekday(year: int, month: int, weekday: int, n: int)
    requires
        0 <= weekday <= 7,
        1 <= n <= 5,
    ensures
        nth_weekday_spec(year, month, weekday, n) matches Some(r) ==> {
            &&& 1 <= r <= month_length(year, month)
            &&& weekday_from_sunday(year, month, r as int) == weekday % 7
            &&& (n - 1) * 7 < r <= n * 7
        },
{
    if valid_date(year, month, 1) {
        let w1 = weekday_mon1(year, month, 1);
        let day = 1 + (weekday - w1 + 7) % 7 + (n - 1) * 7;
        assert(u32_as_i32(weekday) == weekday);
        assert(nth_weekday_day(year, month, weekday, n) == day);
        lemma_weekday_step(year, month, 1, day);
        let w0 = weekday_from_sunday(year, month, 1);
        assert(0 <= w0 < 7);
        assert((w0 + (day - 1)) % 7 == weekday % 7) by (nonlinear_arith)
            requires
                day - 1 == (weekday - (if w0 == 0 { 7 } else { w0 }) + 7) % 7 + (n - 1) * 7,
                0 <= w0 < 7,
                0 <= weekday <= 7,
                1 <= n <= 5,
        ;
    }
}

/// The last given weekday of the month is that day of the week and lies in
/// the last seven days of the month.
pub proof fn law_last_weekday_is_last(year: int, month: int, weekday: int)
    requires
        0 <= weekday <= 7,
    ensures
        last_weekday_spec(year, month, weekday) matches Some(r) ==> {
            let dim = month_length(year, month);
            &&& dim - 7 < r <= dim
            &&& weekday_from_sunday(year, month, r as int) == weekday % 7
        },
{
    let dim = month_length(year, month);
    if valid_date(year, month, dim) {
        let wl = weekday_from_sunday(year, month, dim);
        let diff = (weekday_mon1(year, month, dim) - weekday + 7) % 7;
        assert(u32_as_i32(weekday) == weekday);
        assert(rem7(last_weekday_offset(year, month, weekday)) == diff);
        lemma_weekday_step(year, month, dim, dim - diff);
        assert((wl + (0 - diff)) % 7 == weekday % 7) by (nonlinear_arith)
            requires
                diff == ((if wl == 0 { 7 } else { wl }) - weekday + 7) % 7,
                0 <= wl < 7,
                0 <= weekday <= 7,
        ;
    }
}

} // verus!
