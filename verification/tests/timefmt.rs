use quorum::timefmt::{
    epoch_ms_to_amz_date, epoch_ms_to_en_us_locale, epoch_ms_to_iso, iso_to_epoch_ms,
};

/// `epoch_ms_to_iso` → `iso_to_epoch_ms` is the identity on real instants,
/// including epoch 0 and pre-1970 (negative) ones.
#[test]
fn iso_round_trips_for_real_instants() {
    for ms in [
        0_i64,
        1,
        999,
        1000,
        1_717_530_000_000,  // 2024-06-04T19:40:00.000Z
        1_772_205_426_146,  // a 2026 stamp with ms
        -1,                 // 1969-12-31T23:59:59.999Z
        -86_400_000,        // 1969-12-31T00:00:00.000Z
        -2_208_988_800_000, // 1900-01-01T00:00:00.000Z
        951_782_400_000,    // 2000-02-29 (leap day)
        4_102_444_799_999,  // 2099-12-31T23:59:59.999Z
    ] {
        let iso = epoch_ms_to_iso(ms);
        assert_eq!(
            iso_to_epoch_ms(&iso),
            Some(ms),
            "round trip failed for {ms} ({iso})"
        );
    }
}

/// Every off-shape stamp is unparseable, not "very old" and not "very new".
#[test]
fn iso_rejects_every_off_shape_stamp() {
    for bad in [
        "t",
        "",
        "2026-06-21T15:17:06",
        "2026-06-21T15:17:06.146",
        "2026-06-21T15:17:06.146+00:00",
        "2026-06-21T15:17:06.146z",
        "2026-06-21 15:17:06.146Z",
        "2026/06/21T15:17:06.146Z",
        "2026-06-21T15:17:06,146Z",
        "2026-13-01T00:00:00.000Z",
        "2026-00-01T00:00:00.000Z",
        "2026-02-30T00:00:00.000Z",
        "2026-06-00T00:00:00.000Z",
        "2026-06-21T24:00:00.000Z",
        "2026-06-21T15:60:00.000Z",
        "2026-06-21T15:17:60.000Z",
        "20x6-06-21T15:17:06.146Z",
        "2026-06-21T15:17:06.14zZ",
    ] {
        assert_eq!(iso_to_epoch_ms(bad), None, "should have rejected {bad:?}");
    }
}

/// A non-leap year rejects Feb 29 while a leap year accepts it.
#[test]
fn iso_leap_day_is_calendar_checked() {
    assert_eq!(iso_to_epoch_ms("2026-02-29T00:00:00.000Z"), None);
    assert!(iso_to_epoch_ms("2024-02-29T00:00:00.000Z").is_some());
    assert_eq!(iso_to_epoch_ms("1900-02-29T00:00:00.000Z"), None);
    assert!(iso_to_epoch_ms("2000-02-29T00:00:00.000Z").is_some());
}

#[test]
fn iso_renders_known_instants() {
    assert_eq!(epoch_ms_to_iso(0), "1970-01-01T00:00:00.000Z");
    assert_eq!(epoch_ms_to_iso(1_717_530_000_000), "2024-06-04T19:40:00.000Z");
    assert_eq!(epoch_ms_to_iso(1_772_205_426_146), "2026-02-27T15:17:06.146Z");
    assert_eq!(epoch_ms_to_iso(-1), "1969-12-31T23:59:59.999Z");
    assert_eq!(epoch_ms_to_iso(-2_208_988_800_000), "1900-01-01T00:00:00.000Z");
    assert_eq!(epoch_ms_to_iso(951_782_400_000), "2000-02-29T00:00:00.000Z");
}

#[test]
fn iso_year_outside_four_digits_renders_as_format_does() {
    // 0000-01-01 minus one millisecond lands in year -1: `{:04}` gives "-001".
    assert_eq!(epoch_ms_to_iso(-62_167_219_200_001), "-001-12-31T23:59:59.999Z");
    assert_eq!(epoch_ms_to_iso(-62_167_219_200_000), "0000-01-01T00:00:00.000Z");
    assert_eq!(epoch_ms_to_iso(253_402_300_799_999), "9999-12-31T23:59:59.999Z");
    assert_eq!(epoch_ms_to_iso(253_402_300_800_000), "10000-01-01T00:00:00.000Z");
    // Neither five-digit nor signed years are accepted back.
    assert_eq!(iso_to_epoch_ms("-001-12-31T23:59:59.999Z"), None);
    assert_eq!(iso_to_epoch_ms("10000-01-01T00:00:00.000Z"), None);
}

#[test]
fn iso_extreme_instants_do_not_panic() {
    let lo = epoch_ms_to_iso(i64::MIN);
    let hi = epoch_ms_to_iso(i64::MAX);
    assert!(lo.starts_with('-'));
    assert!(hi.ends_with('Z'));
    assert_eq!(iso_to_epoch_ms(&lo), None);
    assert_eq!(iso_to_epoch_ms(&hi), None);
}

#[test]
fn iso_parses_the_edges_of_the_four_digit_range() {
    assert_eq!(iso_to_epoch_ms("0000-01-01T00:00:00.000Z"), Some(-62_167_219_200_000));
    assert_eq!(iso_to_epoch_ms("9999-12-31T23:59:59.999Z"), Some(253_402_300_799_999));
    assert_eq!(iso_to_epoch_ms("1970-01-01T00:00:00.000Z"), Some(0));
    assert_eq!(iso_to_epoch_ms("2024-06-04T19:40:00.000Z"), Some(1_717_530_000_000));
}

#[test]
fn iso_rejects_non_ascii_of_the_right_byte_length() {
    // 24 bytes, but "é" takes two of them.
    assert_eq!(iso_to_epoch_ms("2026-06-21T15:17:06.1é"), None);
    assert_eq!(iso_to_epoch_ms("2026-06-21T15:17:06.14é"), None);
}

#[test]
fn amz_date_is_the_compact_form() {
    assert_eq!(epoch_ms_to_amz_date(1_717_530_000_000), "20240604T194000Z");
    assert_eq!(epoch_ms_to_amz_date(0), "19700101T000000Z");
    assert_eq!(epoch_ms_to_amz_date(1_772_205_426_146), "20260227T151706Z");
    assert_eq!(&epoch_ms_to_amz_date(1_717_530_000_000)[..8], "20240604");
}

#[test]
fn en_us_locale_renders_in_utc() {
    // 1717530000000 is 2024-06-04T19:40:00Z.
    assert_eq!(epoch_ms_to_en_us_locale(1_717_530_000_000), "6/4/2024, 7:40:00 PM");
}

#[test]
fn en_us_locale_twelve_hour_clock_edges() {
    // Midnight is 12 AM, noon is 12 PM, 11:xx stays AM, 13:xx is 1 PM.
    assert_eq!(epoch_ms_to_en_us_locale(0), "1/1/1970, 12:00:00 AM");
    assert_eq!(epoch_ms_to_en_us_locale(12 * 3_600_000), "1/1/1970, 12:00:00 PM");
    assert_eq!(epoch_ms_to_en_us_locale(11 * 3_600_000 + 59_000), "1/1/1970, 11:00:59 AM");
    assert_eq!(epoch_ms_to_en_us_locale(13 * 3_600_000 + 5 * 60_000), "1/1/1970, 1:05:00 PM");
    assert_eq!(epoch_ms_to_en_us_locale(-1), "12/31/1969, 11:59:59 PM");
}

#[test]
fn accepted_stamps_sort_as_text_in_time_order() {
    let stamps = [
        "0000-01-01T00:00:00.000Z",
        "1900-01-01T00:00:00.000Z",
        "1969-12-31T23:59:59.999Z",
        "1970-01-01T00:00:00.000Z",
        "1970-01-01T00:00:00.001Z",
        "1970-01-01T00:00:01.000Z",
        "1970-01-01T00:01:00.000Z",
        "1970-01-01T01:00:00.000Z",
        "1970-01-02T00:00:00.000Z",
        "1970-02-01T00:00:00.000Z",
        "2000-02-29T00:00:00.000Z",
        "2024-06-04T19:40:00.000Z",
        "2026-02-27T15:17:06.146Z",
        "9999-12-31T23:59:59.999Z",
    ];
    for a in stamps {
        for b in stamps {
            let x = iso_to_epoch_ms(a).unwrap();
            let y = iso_to_epoch_ms(b).unwrap();
            assert_eq!(a < b, x < y, "{a} vs {b}");
            assert_eq!(a == b, x == y, "{a} vs {b}");
        }
    }
}

#[test]
fn amz_date_drops_the_milliseconds() {
    for ms in [0_i64, 999, 1_717_530_000_123, 1_772_205_426_146, -1, -1_001, -86_400_000] {
        assert_eq!(epoch_ms_to_amz_date(ms), epoch_ms_to_amz_date(ms - ms.rem_euclid(1000)));
    }
    assert_eq!(epoch_ms_to_amz_date(1_772_205_426_146), epoch_ms_to_amz_date(1_772_205_426_000));
    assert_ne!(epoch_ms_to_amz_date(1_772_205_426_146), epoch_ms_to_amz_date(1_772_205_427_000));
}

#[test]
fn amz_date_stamp_is_the_utc_day() {
    let stamp = |ms: i64| epoch_ms_to_amz_date(ms)[..8].to_string();
    // 2024-06-04 runs from 1_717_459_200_000 through 1_717_545_599_999.
    assert_eq!(stamp(1_717_459_200_000), stamp(1_717_545_599_999));
    assert_eq!(stamp(1_717_530_000_000), "20240604");
    assert_ne!(stamp(1_717_545_599_999), stamp(1_717_545_600_000));
    assert_eq!(stamp(1_717_545_600_000), "20240605");
    // Before 1970 the day still runs midnight to midnight UTC.
    assert_eq!(stamp(-1), stamp(-86_400_000));
    assert_ne!(stamp(-86_400_000), stamp(-86_400_001));
    assert_eq!(stamp(-86_400_001), "19691230");
}
