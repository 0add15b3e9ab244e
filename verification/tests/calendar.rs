use quorum::calendar::{civil_from_days, days_from_civil};
use quorum::timefmt::civil_from_epoch_ms;

#[test]
fn days_from_civil_counts_from_the_epoch() {
    assert_eq!(days_from_civil(1970, 1, 1), 0);
    assert_eq!(days_from_civil(1969, 12, 31), -1);
    assert_eq!(days_from_civil(2000, 2, 29), 11_016);
    assert_eq!(days_from_civil(2000, 3, 1), 11_017);
    assert_eq!(days_from_civil(0, 1, 1), -719_528);
    assert_eq!(days_from_civil(10_000, 1, 1), 2_932_897);
    assert_eq!(days_from_civil(1900, 1, 1), -25_567);
}

#[test]
fn civil_from_days_names_the_date() {
    assert_eq!(civil_from_days(0), (1970, 1, 1));
    assert_eq!(civil_from_days(-1), (1969, 12, 31));
    assert_eq!(civil_from_days(11_016), (2000, 2, 29));
    assert_eq!(civil_from_days(-719_528), (0, 1, 1));
    assert_eq!(civil_from_days(-719_529), (-1, 12, 31));
}

#[test]
fn an_out_of_range_day_lands_on_another_date() {
    // Feb 30 2026 counts on past the month: it is Mar 2.
    let z = days_from_civil(2026, 2, 30);
    assert_eq!(civil_from_days(z), (2026, 3, 2));
    // Apr 31 is May 1; Feb 29 of a non-leap century year is Mar 1.
    assert_eq!(civil_from_days(days_from_civil(2026, 4, 31)), (2026, 5, 1));
    assert_eq!(civil_from_days(days_from_civil(1900, 2, 29)), (1900, 3, 1));
    // A real leap day round-trips.
    assert_eq!(civil_from_days(days_from_civil(2024, 2, 29)), (2024, 2, 29));
}

#[test]
fn epoch_ms_decomposes_in_utc() {
    assert_eq!(civil_from_epoch_ms(1_717_530_000_000), (2024, 6, 4, 19, 40, 0, 0));
    assert_eq!(civil_from_epoch_ms(-1), (1969, 12, 31, 23, 59, 59, 999));
    assert_eq!(civil_from_epoch_ms(1_772_205_426_146), (2026, 2, 27, 15, 17, 6, 146));
}

#[test]
fn any_day_number_counts_on_from_the_first_of_the_month() {
    // Day 0 is the last day of the month before.
    assert_eq!(days_from_civil(2026, 6, 0), days_from_civil(2026, 5, 31));
    assert_eq!(civil_from_days(days_from_civil(2026, 3, 0)), (2026, 2, 28));
    assert_eq!(civil_from_days(days_from_civil(2024, 3, 0)), (2024, 2, 29));
    // Day 367 of January 2024 (a leap year) is the first of January 2025.
    assert_eq!(days_from_civil(2024, 1, 367), days_from_civil(2025, 1, 1));
    // The largest day number is counted on without overflow.
    assert_eq!(days_from_civil(1970, 1, u32::MAX), i64::from(u32::MAX) - 1);
}
