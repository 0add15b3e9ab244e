//! The proleptic Gregorian calendar, and Howard Hinnant's day-count
//! algorithms proved against it.
use vstd::prelude::*;

verus! {

// ---------------------------------------------------------------------------
// The calendar, stated directly
// ---------------------------------------------------------------------------

/// Gregorian leap-year rule, extended to every integer year (year 0 is leap).
pub open spec fn is_leap_year(y: int) -> bool {
    y % 4 == 0 && (y % 100 != 0 || y % 400 == 0)
}

/// Number of days in year `y`.
pub open spec fn year_length(y: int) -> int {
    if is_leap_year(y) { 366 } else { 365 }
}

/// Number of days in month `m` (1-based) of year `y`.
pub open spec fn days_in_month(y: int, m: int) -> int {
    if m == 2 {
        if is_leap_year(y) { 29 } else { 28 }
    } else if m == 4 || m == 6 || m == 9 || m == 11 {
        30
    } else {
        31
    }
}

/// Days of year `y` that precede the first of month `m`.
pub open spec fn days_before_month(y: int, m: int) -> int
    decreases m,
{
    if m <= 1 { 0 } else { days_before_month(y, m - 1) + days_in_month(y, m - 1) }
}

pub open spec fn abs(x: int) -> nat {
    if x < 0 { (-x) as nat } else { x as nat }
}

/// Days from 0000-01-01 to the first of January of year `y` (negative when `y < 0`).
pub open spec fn days_before_year(y: int) -> int
    decreases abs(y),
{
    if y == 0 {
        0
    } else if y > 0 {
        days_before_year(y - 1) + year_length(y - 1)
    } else {
        days_before_year(y + 1) - year_length(y)
    }
}

/// `(y, m, d)` names a day of the calendar.
pub open spec fn is_valid_date(y: int, m: int, d: int) -> bool {
    1 <= m <= 12 && 1 <= d <= days_in_month(y, m)
}

/// Days from 1970-01-01 to `(y, m, d)`. For `1 <= m <= 12` and a day outside
/// the month this still counts `d - 1` days on from the first of the month.
pub open spec fn days_from_civil_spec(y: int, m: int, d: int) -> int {
    days_before_year(y) - days_before_year(1970) + days_before_month(y, m) + d - 1
}

/// The date that day number `z` (days since 1970-01-01) falls on.
pub open spec fn civil_from_days_spec(z: int) -> (int, int, int) {
    choose|t: (int, int, int)|
        is_valid_date(t.0, t.1, t.2) && days_from_civil_spec(t.0, t.1, t.2) == z
}

// ---------------------------------------------------------------------------
// Closed forms
// ---------------------------------------------------------------------------

/// Days before year `y`, in closed form.
pub open spec fn days_before_year_closed(y: int) -> int {
    365 * y + (y + 3) / 4 - (y + 99) / 100 + (y + 399) / 400
}

proof fn lemma_ceil4(y: int)
    ensures
        (y + 3) / 4 == y / 4 + (if y % 4 == 0 { 0int } else { 1 }),
        (y + 4) / 4 == (y + 3) / 4 + (if y % 4 == 0 { 1int } else { 0 }),
{
}

proof fn lemma_ceil100(y: int)
    ensures
        (y + 99) / 100 == y / 100 + (if y % 100 == 0 { 0int } else { 1 }),
        (y + 100) / 100 == (y + 99) / 100 + (if y % 100 == 0 { 1int } else { 0 }),
        y % 100 == 0 ==> y % 4 == 0,
{
}

proof fn lemma_ceil400(y: int)
    ensures
        (y + 399) / 400 == y / 400 + (if y % 400 == 0 { 0int } else { 1 }),
        (y + 400) / 400 == (y + 399) / 400 + (if y % 400 == 0 { 1int } else { 0 }),
        y % 400 == 0 ==> y % 100 == 0,
{
}

proof fn lemma_closed_step(y: int)
    ensures
        days_before_year_closed(y + 1) == days_before_year_closed(y) + year_length(y),
{
    lemma_ceil4(y);
    lemma_ceil100(y);
    lemma_ceil400(y);
}

pub proof fn lemma_days_before_year_closed(y: int)
    ensures
        days_before_year(y) == days_before_year_closed(y),
    decreases abs(y),
{
    if y > 0 {
        lemma_days_before_year_closed(y - 1);
        lemma_closed_step(y - 1);
    } else if y < 0 {
        lemma_days_before_year_closed(y + 1);
        lemma_closed_step(y);
    }
}

/// Days before month `m`, in closed form (March-based offsets for `m >= 3`).
proof fn lemma_days_before_month_closed(y: int, m: int)
    requires
        1 <= m <= 12,
    ensures
        m == 1 ==> days_before_month(y, m) == 0,
        m == 2 ==> days_before_month(y, m) == 31,
        m >= 3 ==> days_before_month(y, m) == 59 + (if is_leap_year(y) { 1int } else { 0 }) + (153
            * (m - 3) + 2) / 5,
{
    reveal_with_fuel(days_before_month, 13);
}


// ---------------------------------------------------------------------------
// Hinnant's days-from-civil
// ---------------------------------------------------------------------------

/// Years whose day counts fit in `i64` arithmetic.
pub open spec fn year_in_bounds(y: int) -> bool {
    -25_000_000_000_000_000 <= y <= 25_000_000_000_000_000
}

/// March-based day count: days from 0000-03-01 to `y`-03-01.
pub open spec fn march_days(y: int) -> int {
    365 * y + y / 4 - y / 100 + y / 400
}

proof fn lemma_march_days_closed(y: int)
    ensures
        march_days(y) == days_before_year_closed(y) + (if is_leap_year(y) { 1int } else { 0 }) - 1,
{
    lemma_ceil4(y);
    lemma_ceil100(y);
    lemma_ceil400(y);
}

proof fn lemma_march_days(y: int)
    ensures
        march_days(y) == days_before_year(y) + (if is_leap_year(y) { 1int } else { 0 }) - 1,
        march_days(y - 1) == days_before_year(y) - 366,
{
    lemma_days_before_year_closed(y);
    lemma_days_before_year_closed(y - 1);
    lemma_closed_step(y - 1);
    lemma_march_days_closed(y);
    lemma_march_days_closed(y - 1);
}

/// Hinnant's day count, over the integers (the proof's view of [`days_from_civil`]).
spec fn hinnant_days(y: int, m: int, d: int) -> int {
    let y2 = if m <= 2 { y - 1 } else { y };
    let era = y2 / 400;
    let yoe = y2 - era * 400;
    let mp = if m > 2 { m - 3 } else { m + 9 };
    let doy = (153 * mp + 2) / 5 + d - 1;
    let doe = yoe * 365 + yoe / 4 - yoe / 100 + doy;
    era * 146097 + doe - 719468
}

proof fn lemma_era_split(y: int)
    ensures
        (y / 400) * 146097 + (y - (y / 400) * 400) * 365 + (y - (y / 400) * 400) / 4 - (y - (y
            / 400) * 400) / 100 == march_days(y),
{
    let era = y / 400;
    let yoe = y - era * 400;
    assert(0 <= yoe < 400);
    assert(y / 4 == era * 100 + yoe / 4);
    assert(y / 100 == era * 4 + yoe / 100);
}

proof fn lemma_hinnant_days(y: int, m: int, d: int)
    requires
        1 <= m <= 12,
    ensures
        hinnant_days(y, m, d) == days_from_civil_spec(y, m, d),
{
    lemma_days_before_month_closed(y, m);
    lemma_days_before_year_closed(1970);
    let y2 = if m <= 2 { y - 1 } else { y };
    let era = y2 / 400;
    let yoe = y2 - era * 400;
    let mp = if m > 2 { m - 3 } else { m + 9 };
    let doy = (153 * mp + 2) / 5 + d - 1;
    assert(hinnant_days(y, m, d) == era * 146097 + yoe * 365 + yoe / 4 - yoe / 100 + doy - 719468);
    if m <= 2 {
        lemma_era_split(y - 1);
        lemma_march_days(y);
    } else {
        lemma_era_split(y);
        lemma_march_days(y);
    }
}

/// `(y, m, d)` → days since 1970-01-01 (Howard Hinnant's days-from-civil).
///
/// Any day number is taken: a day outside the month (day 0, Feb 30, Apr 31)
/// counts on from the first of the month to a well-defined other date, which
/// is how a caller detects it. The month must name a month (`1..=12`); the
/// year is bounded only so that the day count fits in an `i64`.
pub fn days_from_civil(y: i64, m: u32, d: u32) -> (r: i64)
    requires
        year_in_bounds(y as int),
        1 <= m <= 12,
    ensures
        r == days_from_civil_spec(y as int, m as int, d as int),
{
    let ghost y0 = y as int;
    let y = if m <= 2 { y - 1 } else { y };
    let era = (if y >= 0 { y } else { y - 399 }) / 400;
    assert(era == (y as int) / 400);
    let yoe = y - era * 400;
    assert(0 <= yoe < 400);
    let mp: i64 = if m > 2 { (m - 3) as i64 } else { (m + 9) as i64 };
    assert(0 <= mp <= 11);
    let doy = (153 * mp + 2) / 5 + d as i64 - 1;
    assert(-1 <= doy <= 337 + u32::MAX);
    let doe = yoe * 365 + yoe / 4 - yoe / 100 + doy;
    assert(era * 146_097 + doe - 719_468 == hinnant_days(y0, m as int, d as int));
    proof {
        lemma_hinnant_days(y0, m as int, d as int);
    }
    era * 146_097 + doe - 719_468
}


// ---------------------------------------------------------------------------
// Hinnant's civil-from-days
// ---------------------------------------------------------------------------

/// Days from the start of March-year 0 of an era to the start of March-year `k`.
spec fn era_year_start(k: int) -> int {
    365 * k + k / 4 - k / 100
}

proof fn lemma_year_of_era(doe: int)
    requires
        0 <= doe <= 146096,
    ensures
        ({
            let yoe = (doe - doe / 1460 + doe / 36524 - doe / 146096) / 365;
            &&& 0 <= yoe <= 399
            &&& era_year_start(yoe) <= doe
            &&& yoe == 399 || doe < era_year_start(yoe + 1)
        }),
{
}


proof fn lemma_leap_period(era: int, k: int)
    ensures
        is_leap_year(era * 400 + k) == is_leap_year(k),
{
    let y = era * 400 + k;
    assert(y % 4 == k % 4);
    assert(y % 100 == k % 100);
    assert(y % 400 == k % 400);
}

proof fn lemma_era_year_length(yoe: int, era: int)
    requires
        0 <= yoe <= 399,
    ensures
        (if yoe == 399 { 146097 } else { era_year_start(yoe + 1) }) - era_year_start(yoe) == 365
            + (if is_leap_year(era * 400 + yoe + 1) { 1int } else { 0 }),
{
    lemma_leap_period(era, yoe + 1);
    if yoe < 399 {
        assert((yoe + 1) / 4 == yoe / 4 + (if (yoe + 1) % 4 == 0 { 1int } else { 0 }));
        assert((yoe + 1) / 100 == yoe / 100 + (if (yoe + 1) % 100 == 0 { 1int } else { 0 }));
        assert((yoe + 1) % 400 != 0);
        assert((yoe + 1) % 100 == 0 ==> (yoe + 1) % 4 == 0);
    }
}

/// Day-of-March-year → (month offset from March, day of month).
proof fn lemma_month_of_year(doy: int, len: int)
    requires
        len == 365 || len == 366,
        0 <= doy < len,
    ensures
        ({
            let mp = (5 * doy + 2) / 153;
            let d = doy - (153 * mp + 2) / 5 + 1;
            let m = if mp < 10 { mp + 3 } else { mp - 9 };
            &&& 0 <= mp <= 11
            &&& (153 * mp + 2) / 5 + d - 1 == doy
            &&& 1 <= d
            &&& (m == 2 ==> d <= len - 337)
            &&& (m != 2 ==> d <= days_in_month(0, m))
            &&& 1 <= m <= 12
        }),
{
    let mp = (5 * doy + 2) / 153;
    assert(153 * mp <= 5 * doy + 2 < 153 * mp + 153);
    assert(0 <= mp <= 11);
}

/// Hinnant's civil-from-days, over the integers (the proof's view of [`civil_from_days`]).
spec fn hinnant_civil(z: int) -> (int, int, int) {
    let z2 = z + 719468;
    let era = z2 / 146097;
    let doe = z2 - era * 146097;
    let yoe = (doe - doe / 1460 + doe / 36524 - doe / 146096) / 365;
    let y = yoe + era * 400;
    let doy = doe - (365 * yoe + yoe / 4 - yoe / 100);
    let mp = (5 * doy + 2) / 153;
    let d = doy - (153 * mp + 2) / 5 + 1;
    let m = if mp < 10 { mp + 3 } else { mp - 9 };
    (if m <= 2 { y + 1 } else { y }, m, d)
}

proof fn lemma_hinnant_civil(z: int)
    ensures
        ({
            let t = hinnant_civil(z);
            is_valid_date(t.0, t.1, t.2) && days_from_civil_spec(t.0, t.1, t.2) == z
        }),
{
    let z2 = z + 719468;
    let era = z2 / 146097;
    let doe = z2 - era * 146097;
    assert(0 <= doe <= 146096);
    lemma_year_of_era(doe);
    let yoe = (doe - doe / 1460 + doe / 36524 - doe / 146096) / 365;
    let y = yoe + era * 400;
    let doy = doe - (365 * yoe + yoe / 4 - yoe / 100);
    lemma_era_year_length(yoe, era);
    let len = 365 + (if is_leap_year(era * 400 + yoe + 1) { 1int } else { 0 });
    assert(0 <= doy < len);
    lemma_month_of_year(doy, len);
    let mp = (5 * doy + 2) / 153;
    let d = doy - (153 * mp + 2) / 5 + 1;
    let m = if mp < 10 { mp + 3 } else { mp - 9 };
    let yy = if m <= 2 { y + 1 } else { y };
    assert(hinnant_civil(z) == (yy, m, d));
    // Running the forward algorithm on the result retraces the same era,
    // year of era, and day of year.
    let y2 = if m <= 2 { yy - 1 } else { yy };
    assert(y2 == y);
    assert(y2 / 400 == era);
    let mp2 = if m > 2 { m - 3 } else { m + 9 };
    assert(mp2 == mp);
    assert(hinnant_days(yy, m, d) == z);
    lemma_hinnant_days(yy, m, d);
}


/// Howard Hinnant's civil-from-days: days since 1970-01-01 → `(y, m, d)`.
pub fn civil_from_days(z: i64) -> (r: (i64, u32, u32))
    requires
        z <= i64::MAX - 719_468,
    ensures
        is_valid_date(r.0 as int, r.1 as int, r.2 as int),
        days_from_civil_spec(r.0 as int, r.1 as int, r.2 as int) == z,
        (r.0 as int, r.1 as int, r.2 as int) == civil_from_days_spec(z as int),
{
    let ghost t = hinnant_civil(z as int);
    proof {
        lemma_hinnant_civil(z as int);
        lemma_year_of_era((z as int + 719468) - ((z as int + 719468) / 146097) * 146097);
    }
    let z = z + 719_468;
    let era = (if z >= 0 { z } else { z - 146_096 }) / 146_097;
    assert(era == (z as int) / 146097);
    let doe = z - era * 146_097;
    let yoe = (doe - doe / 1460 + doe / 36524 - doe / 146_096) / 365;
    let y = yoe + era * 400;
    let doy = doe - (365 * yoe + yoe / 4 - yoe / 100);
    let mp = (5 * doy + 2) / 153;
    let d = (doy - (153 * mp + 2) / 5 + 1) as u32;
    let m = (if mp < 10 { mp + 3 } else { mp - 9 }) as u32;
    let r = (if m <= 2 { y + 1 } else { y }, m, d);
    assert((r.0 as int, r.1 as int, r.2 as int) == t);
    proof {
        lemma_civil_from_days_spec(z as int - 719468);
        let c = civil_from_days_spec(z as int - 719468);
        lemma_civil_unique(t.0, t.1, t.2, c);
    }
    r
}

proof fn lemma_days_before_year_mono(a: int, b: int)
    requires
        a <= b,
    ensures
        days_before_year(a) + 365 * (b - a) <= days_before_year(b),
    decreases b - a,
{
    if a < b {
        lemma_days_before_year_mono(a, b - 1);
        lemma_days_before_year_closed(b - 1);
        lemma_days_before_year_closed(b);
        lemma_closed_step(b - 1);
    }
}

proof fn lemma_days_before_month_mono(y: int, a: int, b: int)
    requires
        1 <= a <= b <= 13,
    ensures
        days_before_month(y, a) <= days_before_month(y, b),
        a < b ==> days_before_month(y, a) + days_in_month(y, a) <= days_before_month(y, b),
        days_before_month(y, 13) == year_length(y),
{
    reveal_with_fuel(days_before_month, 14);
}

/// A valid date lies inside its own year's span of day numbers.
proof fn lemma_date_in_year(y: int, m: int, d: int)
    requires
        is_valid_date(y, m, d),
    ensures
        days_before_year(y) <= days_before_year(y) + days_before_month(y, m) + d - 1,
        days_before_year(y) + days_before_month(y, m) + d - 1 < days_before_year(y + 1),
{
    lemma_days_before_month_mono(y, m, 13);
    lemma_days_before_month_mono(y, 1, m);
    reveal_with_fuel(days_before_month, 2);
    lemma_days_before_year_closed(y);
    lemma_days_before_year_closed(y + 1);
    lemma_closed_step(y);
}

/// Distinct valid dates have distinct day numbers.
pub proof fn lemma_civil_unique(y: int, m: int, d: int, t: (int, int, int))
    requires
        is_valid_date(y, m, d),
        is_valid_date(t.0, t.1, t.2),
        days_from_civil_spec(y, m, d) == days_from_civil_spec(t.0, t.1, t.2),
    ensures
        t == (y, m, d),
{
    lemma_date_in_year(y, m, d);
    lemma_date_in_year(t.0, t.1, t.2);
    if y < t.0 {
        lemma_days_before_year_mono(y + 1, t.0);
    } else if t.0 < y {
        lemma_days_before_year_mono(t.0 + 1, y);
    } else {
        if m < t.1 {
            lemma_days_before_month_mono(y, m, t.1);
        } else if t.1 < m {
            lemma_days_before_month_mono(y, t.1, m);
        }
    }
}

/// Valid dates are numbered in calendar order: one date's day number is below
/// another's exactly when it comes first by year, then month, then day.
pub proof fn lemma_date_order(y1: int, m1: int, d1: int, y2: int, m2: int, d2: int)
    requires
        is_valid_date(y1, m1, d1),
        is_valid_date(y2, m2, d2),
    ensures
        days_from_civil_spec(y1, m1, d1) < days_from_civil_spec(y2, m2, d2) <==> (y1 < y2 || (y1
            == y2 && (m1 < m2 || (m1 == m2 && d1 < d2)))),
{
    lemma_date_in_year(y1, m1, d1);
    lemma_date_in_year(y2, m2, d2);
    if y1 < y2 {
        lemma_days_before_year_mono(y1 + 1, y2);
    } else if y2 < y1 {
        lemma_days_before_year_mono(y2 + 1, y1);
    } else if m1 < m2 {
        lemma_days_before_month_mono(y1, m1, m2);
    } else if m2 < m1 {
        lemma_days_before_month_mono(y1, m2, m1);
    }
}

/// Every day number falls on exactly one valid date, and
/// [`civil_from_days_spec`] names it.
pub proof fn lemma_civil_from_days_spec(z: int)
    ensures
        ({
            let t = civil_from_days_spec(z);
            is_valid_date(t.0, t.1, t.2) && days_from_civil_spec(t.0, t.1, t.2) == z
        }),
{
    lemma_hinnant_civil(z);
    let h = hinnant_civil(z);
    assert(is_valid_date(h.0, h.1, h.2) && days_from_civil_spec(h.0, h.1, h.2) == z);
    let t = civil_from_days_spec(z);
    lemma_civil_unique(h.0, h.1, h.2, t);
}


/// Day numbers of four-digit years stay small.
pub proof fn lemma_four_digit_year_days(y: int, m: int, d: int)
    requires
        0 <= y <= 9999,
        1 <= m <= 12,
        1 <= d <= 31,
    ensures
        -719528 <= days_from_civil_spec(y, m, d) <= 3_000_000,
{
    lemma_days_before_year_closed(y);
    lemma_days_before_year_closed(1970);
    lemma_days_before_month_mono(y, 1, m);
    lemma_days_before_month_mono(y, m, 13);
    reveal_with_fuel(days_before_month, 2);
}


/// The day numbers of years 0000 through 9999 are exactly
/// `-719528 ..= 2932896`.
pub proof fn lemma_four_digit_years(y: int, m: int, d: int)
    requires
        is_valid_date(y, m, d),
    ensures
        (0 <= y <= 9999) <==> (-719528 <= days_from_civil_spec(y, m, d) <= 2932896),
{
    lemma_date_in_year(y, m, d);
    lemma_days_before_year_closed(1970);
    lemma_days_before_year_closed(0);
    lemma_days_before_year_closed(10000);
    if y < 0 {
        lemma_days_before_year_mono(y + 1, 0);
    } else if y >= 10000 {
        lemma_days_before_year_mono(10000, y);
    } else {
        lemma_days_before_year_mono(0, y);
        lemma_days_before_year_mono(y + 1, 10000);
    }
}


/// A `(y, m, d)` with `1 <= m <= 12` is a real date exactly when it is the
/// date its own day number falls on: Feb 30, Apr 31 and day 0 all land on
/// another date.
pub proof fn lemma_date_round_trip(y: int, m: int, d: int)
    requires
        1 <= m <= 12,
    ensures
        civil_from_days_spec(days_from_civil_spec(y, m, d)) == (y, m, d) <==> is_valid_date(y, m, d),
{
    let z = days_from_civil_spec(y, m, d);
    lemma_civil_from_days_spec(z);
    let t = civil_from_days_spec(z);
    if is_valid_date(y, m, d) {
        lemma_civil_unique(y, m, d, t);
    }
}

} // verus!
