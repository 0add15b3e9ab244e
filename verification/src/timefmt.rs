//! Epoch-millisecond timestamp formatting and strict ISO-8601 parsing, in UTC.
use vstd::prelude::*;
use crate::calendar::{civil_from_days, civil_from_days_spec, days_from_civil, days_from_civil_spec, is_valid_date, lemma_date_order};
use crate::textorder::{lemma_digits_order, lemma_lex_irreflexive, lemma_lex_split, lex_less};
use crate::decimal::{fixed_digits, lemma_digits_fixed, lemma_fixed_digits_value, lemma_fmt_padded_fixed, all_digits, digit_value, digits_value, fmt_int, fmt_padded, is_digit, lemma_pow10_small, pow10, push_char, push_int, push_padded};

verus! {

// ---------------------------------------------------------------------------
// What an instant is, civilly
// ---------------------------------------------------------------------------

/// The UTC civil fields of epoch millisecond `ms`:
/// `(year, month, day, hour, minute, second, millisecond)`.
pub open spec fn civil_fields(ms: int) -> (int, int, int, int, int, int, int) {
    let total_secs = ms / 1000;
    let milli = ms % 1000;
    let days = total_secs / 86400;
    let secs_of_day = total_secs % 86400;
    let date = civil_from_days_spec(days);
    (date.0, date.1, date.2, secs_of_day / 3600, (secs_of_day % 3600) / 60, secs_of_day % 60, milli)
}

/// `YYYY-MM-DDTHH:MM:SS.mmmZ`, each field rendered as `format!` renders it
/// (`{:04}` for the year, `{:02}`/`{:03}` for the rest).
pub open spec fn iso_string(ms: int) -> Seq<char> {
    let f = civil_fields(ms);
    fmt_padded(f.0, 4) + seq!['-'] + fmt_padded(f.1, 2) + seq!['-'] + fmt_padded(f.2, 2) + seq![
        'T',
    ] + fmt_padded(f.3, 2) + seq![':'] + fmt_padded(f.4, 2) + seq![':'] + fmt_padded(f.5, 2)
        + seq!['.'] + fmt_padded(f.6, 3) + seq!['Z']
}

/// `YYYYMMDDTHHMMSSZ`: the AWS SigV4 `x-amz-date` long form.
pub open spec fn amz_date_string(ms: int) -> Seq<char> {
    let f = civil_fields(ms);
    fmt_padded(f.0, 4) + fmt_padded(f.1, 2) + fmt_padded(f.2, 2) + seq!['T'] + fmt_padded(f.3, 2)
        + fmt_padded(f.4, 2) + fmt_padded(f.5, 2) + seq!['Z']
}

/// The 12-hour clock hour for a 24-hour clock hour: midnight and noon are 12.
pub open spec fn hour12(h: int) -> int {
    if h == 0 {
        12
    } else if h <= 12 {
        h
    } else {
        h - 12
    }
}

/// `AM` before noon, `PM` from noon on.
pub open spec fn meridiem(h: int) -> Seq<char> {
    if h < 12 { seq!['A', 'M'] } else { seq!['P', 'M'] }
}

/// `M/D/YYYY, H:MM:SS AM` — no leading zero on month, day or hour; minute and
/// second zero-padded; 12-hour clock.
pub open spec fn en_us_string(ms: int) -> Seq<char> {
    let f = civil_fields(ms);
    fmt_int(f.1) + seq!['/'] + fmt_int(f.2) + seq!['/'] + fmt_int(f.0) + seq![',', ' '] + fmt_int(
        hour12(f.3),
    ) + seq![':'] + fmt_padded(f.4, 2) + seq![':'] + fmt_padded(f.5, 2) + seq![' '] + meridiem(
        f.3,
    )
}

// ---------------------------------------------------------------------------
// What the strict parser accepts
// ---------------------------------------------------------------------------

/// The fixed 24-character shape: separators in place, digits everywhere else.
pub open spec fn iso_shape(cs: Seq<char>) -> bool {
    &&& cs.len() == 24
    &&& cs[4] == '-' && cs[7] == '-' && cs[10] == 'T'
    &&& cs[13] == ':' && cs[16] == ':' && cs[19] == '.' && cs[23] == 'Z'
    &&& all_digits(cs.subrange(0, 4)) && all_digits(cs.subrange(5, 7))
    &&& all_digits(cs.subrange(8, 10)) && all_digits(cs.subrange(11, 13))
    &&& all_digits(cs.subrange(14, 16)) && all_digits(cs.subrange(17, 19))
    &&& all_digits(cs.subrange(20, 23))
}

/// The number written at `cs[lo..hi]`.
pub open spec fn field_value(cs: Seq<char>, lo: int, hi: int) -> int {
    digits_value(cs.subrange(lo, hi))
}

/// The instant a strict `YYYY-MM-DDTHH:MM:SS.mmmZ` stamp names, or `None`: the
/// shape must be exact, the date a real calendar date, and the time within
/// `00:00:00` through `23:59:59`.
pub open spec fn iso_parse(cs: Seq<char>) -> Option<int> {
    if !iso_shape(cs) {
        None
    } else {
        let y = field_value(cs, 0, 4);
        let mo = field_value(cs, 5, 7);
        let d = field_value(cs, 8, 10);
        let h = field_value(cs, 11, 13);
        let mi = field_value(cs, 14, 16);
        let s = field_value(cs, 17, 19);
        let milli = field_value(cs, 20, 23);
        if is_valid_date(y, mo, d) && h <= 23 && mi <= 59 && s <= 59 {
            Some((days_from_civil_spec(y, mo, d) * 86400 + h * 3600 + mi * 60 + s) * 1000 + milli)
        } else {
            None
        }
    }
}

/// 0000-01-01T00:00:00.000Z, the first instant whose year renders in four digits.
pub const ISO_MIN_MS: i64 = -62_167_219_200_000;

/// 9999-12-31T23:59:59.999Z, the last instant whose year renders in four digits.
pub const ISO_MAX_MS: i64 = 253_402_300_799_999;

// ---------------------------------------------------------------------------
// The functions
// ---------------------------------------------------------------------------

/// Decomposes epoch ms (UTC) into (year, month, day, hour, min, sec, milli).
pub fn civil_from_epoch_ms(ms: i64) -> (r: (i64, u32, u32, u32, u32, u32, u32))
    ensures
        (r.0 as int, r.1 as int, r.2 as int, r.3 as int, r.4 as int, r.5 as int, r.6 as int)
            == civil_fields(ms as int),
        is_valid_date(r.0 as int, r.1 as int, r.2 as int),
        r.3 <= 23 && r.4 <= 59 && r.5 <= 59 && r.6 <= 999,
{
    let total_secs = ms.checked_div_euclid(1000).unwrap();
    let milli = ms.checked_rem_euclid(1000).unwrap() as u32;
    let days = total_secs.checked_div_euclid(86_400).unwrap();
    let secs_of_day = total_secs.checked_rem_euclid(86_400).unwrap();
    let hour = (secs_of_day / 3600) as u32;
    let min = ((secs_of_day % 3600) / 60) as u32;
    let sec = (secs_of_day % 60) as u32;
    let (y, mo, d) = civil_from_days(days);
    (y, mo, d, hour, min, sec, milli)
}

/// Epoch ms → `YYYY-MM-DDTHH:MM:SS.mmmZ` (UTC), as JavaScript's `Date.toJSON`
/// renders it: always millisecond precision, always UTC.
pub fn epoch_ms_to_iso(ms: i64) -> (r: String)
    ensures
        r@ == iso_string(ms as int),
{
    let (y, mo, d, h, mi, s, milli) = civil_from_epoch_ms(ms);
    let mut out = String::new();
    push_padded(&mut out, y, 4);
    push_char(&mut out, '-');
    push_padded(&mut out, mo as i64, 2);
    push_char(&mut out, '-');
    push_padded(&mut out, d as i64, 2);
    push_char(&mut out, 'T');
    push_padded(&mut out, h as i64, 2);
    push_char(&mut out, ':');
    push_padded(&mut out, mi as i64, 2);
    push_char(&mut out, ':');
    push_padded(&mut out, s as i64, 2);
    push_char(&mut out, '.');
    push_padded(&mut out, milli as i64, 3);
    push_char(&mut out, 'Z');
    assert(out@ =~= iso_string(ms as int));
    out
}


/// Epoch ms → AWS SigV4 `x-amz-date` long form `YYYYMMDDTHHMMSSZ` (UTC, no
/// milliseconds, no separators).
pub fn epoch_ms_to_amz_date(ms: i64) -> (r: String)
    ensures
        r@ == amz_date_string(ms as int),
{
    let (y, mo, d, h, mi, s, _milli) = civil_from_epoch_ms(ms);
    let mut out = String::new();
    push_padded(&mut out, y, 4);
    push_padded(&mut out, mo as i64, 2);
    push_padded(&mut out, d as i64, 2);
    push_char(&mut out, 'T');
    push_padded(&mut out, h as i64, 2);
    push_padded(&mut out, mi as i64, 2);
    push_padded(&mut out, s as i64, 2);
    push_char(&mut out, 'Z');
    assert(out@ =~= amz_date_string(ms as int));
    out
}

/// Epoch ms → en-US `toLocaleString()` form `M/D/YYYY, H:MM:SS AM/PM`, in UTC.
/// No leading zero on month, day or hour; minute and second zero-padded;
/// 12-hour clock; midnight is 12 AM and noon is 12 PM.
#[verifier::rlimit(40)]
pub fn epoch_ms_to_en_us_locale(ms: i64) -> (r: String)
    ensures
        r@ == en_us_string(ms as int),
{
    let (y, mo, d, h24, mi, s, _milli) = civil_from_epoch_ms(ms);
    let (h12, pm) = if h24 == 0 {
        (12u32, false)
    } else if h24 <= 11 {
        (h24, false)
    } else if h24 == 12 {
        (12u32, true)
    } else {
        (h24 - 12, true)
    };
    let mut out = String::new();
    push_int(&mut out, mo as i64);
    push_char(&mut out, '/');
    push_int(&mut out, d as i64);
    push_char(&mut out, '/');
    push_int(&mut out, y);
    push_char(&mut out, ',');
    push_char(&mut out, ' ');
    push_int(&mut out, h12 as i64);
    push_char(&mut out, ':');
    push_padded(&mut out, mi as i64, 2);
    push_char(&mut out, ':');
    push_padded(&mut out, s as i64, 2);
    push_char(&mut out, ' ');
    if pm {
        push_char(&mut out, 'P');
    } else {
        push_char(&mut out, 'A');
    }
    push_char(&mut out, 'M');
    assert(out@ =~= en_us_string(ms as int));
    out
}


/// Reads the digits `b[lo..hi]`, or `None` at the first non-digit.
fn parse_field(b: &[u8], lo: usize, hi: usize, Ghost(cs): Ghost<Seq<char>>) -> (r: Option<i64>)
    requires
        lo < hi <= b@.len(),
        hi - lo <= 4,
        b@.len() == cs.len(),
        forall|i: int| 0 <= i < cs.len() ==> b@[i] == #[trigger] cs[i] as u8,
        forall|i: int| 0 <= i < cs.len() ==> (#[trigger] cs[i] as int) < 128,
    ensures
        all_digits(cs.subrange(lo as int, hi as int)) ==> r == Some(
            field_value(cs, lo as int, hi as int) as i64,
        ),
        !all_digits(cs.subrange(lo as int, hi as int)) ==> r is None,
        r matches Some(v) ==> 0 <= v < pow10((hi - lo) as int) && v == field_value(
            cs,
            lo as int,
            hi as int,
        ),
{
    proof {
        lemma_pow10_small();
    }
    let mut acc: i64 = 0;
    let mut i: usize = lo;
    while i < hi
        invariant
            lo <= i <= hi <= b@.len(),
            hi - lo <= 4,
            b@.len() == cs.len(),
            forall|k: int| 0 <= k < cs.len() ==> b@[k] == #[trigger] cs[k] as u8,
            forall|k: int| 0 <= k < cs.len() ==> (#[trigger] cs[k] as int) < 128,
            all_digits(cs.subrange(lo as int, i as int)),
            acc == digits_value(cs.subrange(lo as int, i as int)),
            0 <= acc < pow10((i - lo) as int),
            pow10(0) == 1 && pow10(1) == 10 && pow10(2) == 100 && pow10(3) == 1000 && pow10(4)
                == 10000,
        decreases hi - i,
    {
        let c = b[i];
        proof {
            lemma_ascii_byte(cs[i as int]);
        }
        if c < 48u8 || c > 57u8 {
            assert(!is_digit(cs.subrange(lo as int, hi as int)[i - lo]));
            return None;
        }
        let ghost prefix = cs.subrange(lo as int, i as int);
        let ghost next = cs.subrange(lo as int, i + 1);
        assert(next.drop_last() =~= prefix);
        assert(next.last() == cs[i as int]);
        assert(digit_value(cs[i as int]) == c as int - 48);
        acc = acc * 10 + (c - 48u8) as i64;
        i = i + 1;
        assert forall|k: int| 0 <= k < next.len() implies is_digit(#[trigger] next[k]) by {
            if k < prefix.len() {
                assert(next[k] == prefix[k]);
            }
        }
    }
    Some(acc)
}

/// `YYYY-MM-DDTHH:MM:SS.mmmZ` (UTC) → epoch ms: the strict inverse of
/// [`epoch_ms_to_iso`]. It accepts that exact fixed-width shape and nothing
/// else; any deviation (length, separator, suffix, a non-digit, a month, day,
/// hour, minute or second out of range, or a date the calendar does not have)
/// is `None`, never a panic.
pub fn iso_to_epoch_ms(s: &str) -> (r: Option<i64>)
    ensures
        r is Some <==> iso_parse(s@) is Some,
        r matches Some(v) ==> iso_parse(s@) == Some(v as int),
{
    if !s.is_ascii() {
        proof {
            if iso_shape(s@) {
                lemma_shape_is_ascii(s@);
            }
        }
        return None;
    }
    let b = s.as_bytes();
    proof {
        lemma_pow10_small();
        vstd::string::is_ascii_spec_bytes(s);
        assert forall|i: int| 0 <= i < s@.len() implies (#[trigger] s@[i] as int) < 128 by {}
    }
    // Exactly `YYYY-MM-DDTHH:MM:SS.mmmZ`: 24 bytes, fixed separators.
    if b.len() != 24 {
        return None;
    }
    let ghost cs = s@;
    assert(forall|i: int| 0 <= i < cs.len() ==> b@[i] == #[trigger] cs[i] as u8);
    if b[4] != 45u8 || b[7] != 45u8 || b[10] != 84u8 {
        return None;
    }
    if b[13] != 58u8 || b[16] != 58u8 || b[19] != 46u8 || b[23] != 90u8 {
        return None;
    }
    let year = match parse_field(b, 0, 4, Ghost(cs)) {
        Some(v) => v,
        None => return None,
    };
    let month = match parse_field(b, 5, 7, Ghost(cs)) {
        Some(v) => v,
        None => return None,
    };
    let day = match parse_field(b, 8, 10, Ghost(cs)) {
        Some(v) => v,
        None => return None,
    };
    let hour = match parse_field(b, 11, 13, Ghost(cs)) {
        Some(v) => v,
        None => return None,
    };
    let min = match parse_field(b, 14, 16, Ghost(cs)) {
        Some(v) => v,
        None => return None,
    };
    let sec = match parse_field(b, 17, 19, Ghost(cs)) {
        Some(v) => v,
        None => return None,
    };
    let milli = match parse_field(b, 20, 23, Ghost(cs)) {
        Some(v) => v,
        None => return None,
    };
    assert(iso_shape(cs));
    if month < 1 || month > 12 || day < 1 || day > 31 {
        return None;
    }
    // `epoch_ms_to_iso` never emits hour 24, minute 60 or a leap second.
    if hour > 23 || min > 59 || sec > 59 {
        return None;
    }
    let days = days_from_civil(year, month as u32, day as u32);
    proof {
        crate::calendar::lemma_four_digit_year_days(year as int, month as int, day as int);
    }
    // The date is real exactly when it is the date its own day number falls on:
    // Feb 30, Apr 31 and the like land on another date.
    let (cy, cm, cd) = civil_from_days(days);
    proof {
        if is_valid_date(year as int, month as int, day as int) {
            crate::calendar::lemma_civil_unique(
                year as int,
                month as int,
                day as int,
                (cy as int, cm as int, cd as int),
            );
        }
    }
    if cy != year || cm as i64 != month || cd as i64 != day {
        return None;
    }
    Some((days * 86_400 + hour * 3600 + min * 60 + sec) * 1000 + milli)
}

/// An ASCII character's byte is its code.
proof fn lemma_ascii_byte(c: char)
    requires
        (c as int) < 128,
    ensures
        (c as u8) as int == c as int,
{
    let x = c as u32;
    assert(x < 128);
    assert((x as u8) as u32 == x) by (bit_vector)
        requires
            x < 128,
    ;
}

/// A string of the strict shape is all ASCII.
proof fn lemma_shape_is_ascii(cs: Seq<char>)
    requires
        iso_shape(cs),
    ensures
        vstd::utf8::is_ascii_chars(cs),
{
    assert forall|i: int| 0 <= i < cs.len() implies '\0' <= #[trigger] cs[i] <= '\u{7f}' by {
        if 0 <= i < 4 {
            assert(is_digit(cs.subrange(0, 4)[i]));
        } else if 5 <= i < 7 {
            assert(is_digit(cs.subrange(5, 7)[i - 5]));
        } else if 8 <= i < 10 {
            assert(is_digit(cs.subrange(8, 10)[i - 8]));
        } else if 11 <= i < 13 {
            assert(is_digit(cs.subrange(11, 13)[i - 11]));
        } else if 14 <= i < 16 {
            assert(is_digit(cs.subrange(14, 16)[i - 14]));
        } else if 17 <= i < 19 {
            assert(is_digit(cs.subrange(17, 19)[i - 17]));
        } else if 20 <= i < 23 {
            assert(is_digit(cs.subrange(20, 23)[i - 20]));
        }
    }
}


// ---------------------------------------------------------------------------
// Laws
// ---------------------------------------------------------------------------

/// Every instant from 0000-01-01T00:00:00.000Z through
/// 9999-12-31T23:59:59.999Z formats to a stamp that parses back to itself:
/// `iso_to_epoch_ms(epoch_ms_to_iso(ms)) == Some(ms)`, negative instants
/// (before 1970) included.
pub proof fn lemma_iso_round_trip(ms: int)
    requires
        ISO_MIN_MS <= ms <= ISO_MAX_MS,
    ensures
        iso_parse(iso_string(ms)) == Some(ms),
{
    let f = civil_fields(ms);
    let total_secs = ms / 1000;
    let days = total_secs / 86400;
    let sod = total_secs % 86400;
    crate::calendar::lemma_civil_from_days_spec(days);
    assert(f.0 == civil_from_days_spec(days).0);
    crate::calendar::lemma_four_digit_years(f.0, f.1, f.2);
    lemma_pow10_small();
    lemma_fmt_padded_fixed(f.0, 4);
    lemma_fmt_padded_fixed(f.1, 2);
    lemma_fmt_padded_fixed(f.2, 2);
    lemma_fmt_padded_fixed(f.3, 2);
    lemma_fmt_padded_fixed(f.4, 2);
    lemma_fmt_padded_fixed(f.5, 2);
    lemma_fmt_padded_fixed(f.6, 3);
    lemma_fixed_digits_value(f.0, 4);
    lemma_fixed_digits_value(f.1, 2);
    lemma_fixed_digits_value(f.2, 2);
    lemma_fixed_digits_value(f.3, 2);
    lemma_fixed_digits_value(f.4, 2);
    lemma_fixed_digits_value(f.5, 2);
    lemma_fixed_digits_value(f.6, 3);
    let cs = iso_string(ms);
    assert(cs.subrange(0, 4) =~= fixed_digits(f.0, 4));
    assert(cs.subrange(5, 7) =~= fixed_digits(f.1, 2));
    assert(cs.subrange(8, 10) =~= fixed_digits(f.2, 2));
    assert(cs.subrange(11, 13) =~= fixed_digits(f.3, 2));
    assert(cs.subrange(14, 16) =~= fixed_digits(f.4, 2));
    assert(cs.subrange(17, 19) =~= fixed_digits(f.5, 2));
    assert(cs.subrange(20, 23) =~= fixed_digits(f.6, 3));
    assert(iso_shape(cs));
    assert(f.3 * 3600 + f.4 * 60 + f.5 == sod);
}

/// The parser is strict: whatever it accepts is exactly the stamp
/// `epoch_ms_to_iso` renders for the instant it returns, so no other spelling
/// of an instant (and no non-stamp at all) is ever read as one.
pub proof fn lemma_iso_parse_strict(cs: Seq<char>)
    requires
        iso_parse(cs) is Some,
    ensures
        iso_string(iso_parse(cs).unwrap()) == cs,
        ISO_MIN_MS <= iso_parse(cs).unwrap() <= ISO_MAX_MS,
{
    lemma_pow10_small();
    let ys = cs.subrange(0, 4);
    let mos = cs.subrange(5, 7);
    let ds = cs.subrange(8, 10);
    let hs = cs.subrange(11, 13);
    let mis = cs.subrange(14, 16);
    let ss = cs.subrange(17, 19);
    let millis = cs.subrange(20, 23);
    lemma_digits_fixed(ys);
    lemma_digits_fixed(mos);
    lemma_digits_fixed(ds);
    lemma_digits_fixed(hs);
    lemma_digits_fixed(mis);
    lemma_digits_fixed(ss);
    lemma_digits_fixed(millis);
    let y = digits_value(ys);
    let mo = digits_value(mos);
    let d = digits_value(ds);
    let h = digits_value(hs);
    let mi = digits_value(mis);
    let s = digits_value(ss);
    let milli = digits_value(millis);
    let days = days_from_civil_spec(y, mo, d);
    let ms = (days * 86400 + h * 3600 + mi * 60 + s) * 1000 + milli;
    assert(iso_parse(cs) == Some(ms));
    crate::calendar::lemma_four_digit_years(y, mo, d);
    crate::calendar::lemma_civil_from_days_spec(days);
    let c = civil_from_days_spec(days);
    crate::calendar::lemma_civil_unique(y, mo, d, c);
    assert(ms / 1000 == days * 86400 + h * 3600 + mi * 60 + s);
    assert(ms % 1000 == milli);
    let f = civil_fields(ms);
    assert(f == (y, mo, d, h, mi, s, milli));
    lemma_fmt_padded_fixed(y, 4);
    lemma_fmt_padded_fixed(mo, 2);
    lemma_fmt_padded_fixed(d, 2);
    lemma_fmt_padded_fixed(h, 2);
    lemma_fmt_padded_fixed(mi, 2);
    lemma_fmt_padded_fixed(s, 2);
    lemma_fmt_padded_fixed(milli, 3);
    assert(iso_string(ms) =~= cs);
}


/// For four-digit years the `x-amz-date` is the ISO stamp without its
/// separators and milliseconds, so its first 8 characters are the
/// `YYYYMMDD` date stamp of the same instant.
pub proof fn lemma_amz_date_is_compact_iso(ms: int)
    requires
        ISO_MIN_MS <= ms <= ISO_MAX_MS,
    ensures
        ({
            let iso = iso_string(ms);
            amz_date_string(ms) == iso.subrange(0, 4) + iso.subrange(5, 7) + iso.subrange(8, 10)
                + seq!['T'] + iso.subrange(11, 13) + iso.subrange(14, 16) + iso.subrange(17, 19)
                + seq!['Z']
        }),
{
    let f = civil_fields(ms);
    let total_secs = ms / 1000;
    let days = total_secs / 86400;
    crate::calendar::lemma_civil_from_days_spec(days);
    crate::calendar::lemma_four_digit_years(f.0, f.1, f.2);
    lemma_pow10_small();
    lemma_fmt_padded_fixed(f.0, 4);
    lemma_fmt_padded_fixed(f.1, 2);
    lemma_fmt_padded_fixed(f.2, 2);
    lemma_fmt_padded_fixed(f.3, 2);
    lemma_fmt_padded_fixed(f.4, 2);
    lemma_fmt_padded_fixed(f.5, 2);
    lemma_fmt_padded_fixed(f.6, 3);
    let iso = iso_string(ms);
    assert(iso.subrange(0, 4) =~= fmt_padded(f.0, 4));
    assert(iso.subrange(5, 7) =~= fmt_padded(f.1, 2));
    assert(iso.subrange(8, 10) =~= fmt_padded(f.2, 2));
    assert(iso.subrange(11, 13) =~= fmt_padded(f.3, 2));
    assert(iso.subrange(14, 16) =~= fmt_padded(f.4, 2));
    assert(iso.subrange(17, 19) =~= fmt_padded(f.5, 2));
    assert(amz_date_string(ms) =~= iso.subrange(0, 4) + iso.subrange(5, 7) + iso.subrange(8, 10)
        + seq!['T'] + iso.subrange(11, 13) + iso.subrange(14, 16) + iso.subrange(17, 19)
        + seq!['Z']);
}

/// The seven numbers a stamp's fields spell: year, month, day, hour, minute,
/// second, millisecond.
spec fn stamp_fields(cs: Seq<char>) -> (int, int, int, int, int, int, int) {
    (
        field_value(cs, 0, 4),
        field_value(cs, 5, 7),
        field_value(cs, 8, 10),
        field_value(cs, 11, 13),
        field_value(cs, 14, 16),
        field_value(cs, 17, 19),
        field_value(cs, 20, 23),
    )
}

/// `p` comes before `q` comparing field by field, year first.
spec fn fields_before(
    p: (int, int, int, int, int, int, int),
    q: (int, int, int, int, int, int, int),
) -> bool {
    p.0 < q.0 || (p.0 == q.0 && (p.1 < q.1 || (p.1 == q.1 && (p.2 < q.2 || (p.2 == q.2 && (p.3
        < q.3 || (p.3 == q.3 && (p.4 < q.4 || (p.4 == q.4 && (p.5 < q.5 || (p.5 == q.5 && p.6
        < q.6)))))))))))
}

/// Two stamps of the strict shape sort as text exactly as their fields sort,
/// year first: the separators stand at the same places in both.
proof fn lemma_stamp_text_order(a: Seq<char>, b: Seq<char>)
    requires
        iso_shape(a),
        iso_shape(b),
    ensures
        lex_less(a, b) == fields_before(stamp_fields(a), stamp_fields(b)),
{
    lemma_lex_split(a, b, 0, 4);
    lemma_lex_split(a, b, 4, 5);
    lemma_lex_split(a, b, 5, 7);
    lemma_lex_split(a, b, 7, 8);
    lemma_lex_split(a, b, 8, 10);
    lemma_lex_split(a, b, 10, 11);
    lemma_lex_split(a, b, 11, 13);
    lemma_lex_split(a, b, 13, 14);
    lemma_lex_split(a, b, 14, 16);
    lemma_lex_split(a, b, 16, 17);
    lemma_lex_split(a, b, 17, 19);
    lemma_lex_split(a, b, 19, 20);
    lemma_lex_split(a, b, 20, 23);
    lemma_lex_split(a, b, 23, 24);
    assert(a.subrange(0, 24) =~= a);
    assert(b.subrange(0, 24) =~= b);
    assert(a.subrange(24, 24) =~= b.subrange(24, 24));
    lemma_lex_irreflexive(a.subrange(24, 24));
    assert(a.subrange(4, 5) =~= b.subrange(4, 5));
    lemma_lex_irreflexive(a.subrange(4, 5));
    assert(a.subrange(7, 8) =~= b.subrange(7, 8));
    lemma_lex_irreflexive(a.subrange(7, 8));
    assert(a.subrange(10, 11) =~= b.subrange(10, 11));
    lemma_lex_irreflexive(a.subrange(10, 11));
    assert(a.subrange(13, 14) =~= b.subrange(13, 14));
    lemma_lex_irreflexive(a.subrange(13, 14));
    assert(a.subrange(16, 17) =~= b.subrange(16, 17));
    lemma_lex_irreflexive(a.subrange(16, 17));
    assert(a.subrange(19, 20) =~= b.subrange(19, 20));
    lemma_lex_irreflexive(a.subrange(19, 20));
    assert(a.subrange(23, 24) =~= b.subrange(23, 24));
    lemma_lex_irreflexive(a.subrange(23, 24));
    lemma_digits_order(a.subrange(0, 4), b.subrange(0, 4));
    lemma_digits_order(a.subrange(5, 7), b.subrange(5, 7));
    lemma_digits_order(a.subrange(8, 10), b.subrange(8, 10));
    lemma_digits_order(a.subrange(11, 13), b.subrange(11, 13));
    lemma_digits_order(a.subrange(14, 16), b.subrange(14, 16));
    lemma_digits_order(a.subrange(17, 19), b.subrange(17, 19));
    lemma_digits_order(a.subrange(20, 23), b.subrange(20, 23));
}

/// The fields of an accepted stamp are in range.
proof fn lemma_stamp_fields_range(cs: Seq<char>)
    requires
        iso_parse(cs) is Some,
    ensures
        ({
            let f = stamp_fields(cs);
            &&& is_valid_date(f.0, f.1, f.2)
            &&& 0 <= f.3 <= 23 && 0 <= f.4 <= 59 && 0 <= f.5 <= 59 && 0 <= f.6 <= 999
            &&& iso_parse(cs) == Some(
                (days_from_civil_spec(f.0, f.1, f.2) * 86400 + f.3 * 3600 + f.4 * 60 + f.5) * 1000
                    + f.6,
            )
        }),
{
    lemma_pow10_small();
    lemma_digits_fixed(cs.subrange(11, 13));
    lemma_digits_fixed(cs.subrange(14, 16));
    lemma_digits_fixed(cs.subrange(17, 19));
    lemma_digits_fixed(cs.subrange(20, 23));
}

/// On accepted stamps text order is time order: of two stamps that
/// `iso_to_epoch_ms` accepts, one sorts before the other (as `str`, byte by
/// byte) exactly when it names the earlier instant, and they are the same text
/// exactly when they name the same instant.
pub proof fn lemma_iso_order_is_time_order(a: Seq<char>, b: Seq<char>)
    requires
        iso_parse(a) is Some,
        iso_parse(b) is Some,
    ensures
        lex_less(a, b) <==> iso_parse(a).unwrap() < iso_parse(b).unwrap(),
        a == b <==> iso_parse(a).unwrap() == iso_parse(b).unwrap(),
{
    lemma_iso_parse_strict(a);
    lemma_iso_parse_strict(b);
    lemma_stamp_text_order(a, b);
    lemma_stamp_fields_range(a);
    lemma_stamp_fields_range(b);
    let p = stamp_fields(a);
    let q = stamp_fields(b);
    lemma_date_order(p.0, p.1, p.2, q.0, q.1, q.2);
    lemma_date_order(q.0, q.1, q.2, p.0, p.1, p.2);
    let da = days_from_civil_spec(p.0, p.1, p.2);
    let db = days_from_civil_spec(q.0, q.1, q.2);
    let ta = p.3 * 3_600_000 + p.4 * 60_000 + p.5 * 1000 + p.6;
    let tb = q.3 * 3_600_000 + q.4 * 60_000 + q.5 * 1000 + q.6;
    assert(iso_parse(a).unwrap() == da * 86_400_000 + ta);
    assert(iso_parse(b).unwrap() == db * 86_400_000 + tb);
    assert(0 <= ta < 86_400_000);
    assert(0 <= tb < 86_400_000);
    if da < db {
        assert(iso_parse(a).unwrap() < iso_parse(b).unwrap());
    } else if db < da {
        assert(iso_parse(b).unwrap() < iso_parse(a).unwrap());
    } else {
        assert(p.0 == q.0 && p.1 == q.1 && p.2 == q.2);
    }
}

/// `(ms / 1000) / 86400` is the UTC day number `ms / 86_400_000`.
proof fn lemma_day_of_ms(ms: int)
    ensures
        (ms / 1000) / 86400 == ms / 86_400_000,
{
    let q1 = ms / 1000;
    let r1 = ms % 1000;
    let q2 = q1 / 86400;
    let r2 = q1 % 86400;
    assert(ms == q2 * 86_400_000 + (r2 * 1000 + r1));
    vstd::arithmetic::div_mod::lemma_fundamental_div_mod_converse(
        ms,
        86_400_000,
        q2,
        r2 * 1000 + r1,
    );
}

/// The `x-amz-date` carries no milliseconds: an instant renders as the start
/// of its own second does, `amz(ms) == amz(ms - ms.rem_euclid(1000))`.
pub proof fn lemma_amz_date_ignores_millis(ms: int)
    ensures
        amz_date_string(ms) == amz_date_string(ms - ms % 1000),
{
    let m2 = ms - ms % 1000;
    vstd::arithmetic::div_mod::lemma_fundamental_div_mod_converse(m2, 1000, ms / 1000, 0);
    assert(m2 / 1000 == ms / 1000);
    assert(amz_date_string(ms) =~= amz_date_string(m2));
}

/// For four-digit years the first eight characters of the `x-amz-date` (the
/// SigV4 date stamp `YYYYMMDD`) agree exactly when the two instants fall on
/// the same UTC day.
pub proof fn lemma_amz_date_stamp_is_the_day(a: int, b: int)
    requires
        ISO_MIN_MS <= a <= ISO_MAX_MS,
        ISO_MIN_MS <= b <= ISO_MAX_MS,
    ensures
        amz_date_string(a).subrange(0, 8) == amz_date_string(b).subrange(0, 8) <==> a
            / 86_400_000 == b / 86_400_000,
{
    lemma_day_of_ms(a);
    lemma_day_of_ms(b);
    let fa = civil_fields(a);
    let fb = civil_fields(b);
    let da = (a / 1000) / 86400;
    let db = (b / 1000) / 86400;
    crate::calendar::lemma_civil_from_days_spec(da);
    crate::calendar::lemma_civil_from_days_spec(db);
    crate::calendar::lemma_four_digit_years(fa.0, fa.1, fa.2);
    crate::calendar::lemma_four_digit_years(fb.0, fb.1, fb.2);
    lemma_pow10_small();
    lemma_fmt_padded_fixed(fa.0, 4);
    lemma_fmt_padded_fixed(fa.1, 2);
    lemma_fmt_padded_fixed(fa.2, 2);
    lemma_fmt_padded_fixed(fb.0, 4);
    lemma_fmt_padded_fixed(fb.1, 2);
    lemma_fmt_padded_fixed(fb.2, 2);
    let pa = amz_date_string(a).subrange(0, 8);
    let pb = amz_date_string(b).subrange(0, 8);
    assert(pa =~= fixed_digits(fa.0, 4) + fixed_digits(fa.1, 2) + fixed_digits(fa.2, 2));
    assert(pb =~= fixed_digits(fb.0, 4) + fixed_digits(fb.1, 2) + fixed_digits(fb.2, 2));
    if pa == pb {
        lemma_fixed_digits_value(fa.0, 4);
        lemma_fixed_digits_value(fa.1, 2);
        lemma_fixed_digits_value(fa.2, 2);
        lemma_fixed_digits_value(fb.0, 4);
        lemma_fixed_digits_value(fb.1, 2);
        lemma_fixed_digits_value(fb.2, 2);
        assert(pa.subrange(0, 4) =~= fixed_digits(fa.0, 4));
        assert(pb.subrange(0, 4) =~= fixed_digits(fb.0, 4));
        assert(pa.subrange(4, 6) =~= fixed_digits(fa.1, 2));
        assert(pb.subrange(4, 6) =~= fixed_digits(fb.1, 2));
        assert(pa.subrange(6, 8) =~= fixed_digits(fa.2, 2));
        assert(pb.subrange(6, 8) =~= fixed_digits(fb.2, 2));
        assert(fa.0 == fb.0 && fa.1 == fb.1 && fa.2 == fb.2);
        assert(da == db);
    }
}

/// The clock of the en-US form ends `:MM:SS AM` or `:MM:SS PM` (UTC): after
/// the hour come a `:`, the minute of the hour in exactly two digits, a `:`,
/// the second of the minute in exactly two digits (zero-padded), a space, and
/// `PM` exactly from noon on, else `AM`.
pub proof fn lemma_en_us_clock_tail(ms: int)
    ensures
        ({
            let r = en_us_string(ms);
            let k = r.len() as int;
            let x = ms / 1000;
            &&& k >= 9
            &&& r[k - 9] == ':' && r[k - 6] == ':' && r[k - 3] == ' ' && r[k - 1] == 'M'
            &&& all_digits(r.subrange(k - 8, k - 6))
            &&& digits_value(r.subrange(k - 8, k - 6)) == (x / 60) % 60
            &&& all_digits(r.subrange(k - 5, k - 3))
            &&& digits_value(r.subrange(k - 5, k - 3)) == x % 60
            &&& r[k - 2] == (if x % 86400 >= 43200 { 'P' } else { 'A' })
        }),
{
    let x = ms / 1000;
    let f = civil_fields(ms);
    let q = x / 86400;
    let sod = x % 86400;
    let h = sod / 3600;
    let rr = sod % 3600;
    let mi = rr / 60;
    let sec = rr % 60;
    assert(f.3 == h && f.4 == mi);
    // sod % 60 is the second of the minute.
    vstd::arithmetic::div_mod::lemma_fundamental_div_mod_converse(sod, 60, 60 * h + mi, sec);
    assert(f.5 == sec);
    // x = 60 * (1440 q + 60 h + mi) + sec.
    vstd::arithmetic::div_mod::lemma_fundamental_div_mod_converse(x, 60, 1440 * q + 60 * h + mi, sec);
    vstd::arithmetic::div_mod::lemma_fundamental_div_mod_converse(
        1440 * q + 60 * h + mi,
        60,
        24 * q + h,
        mi,
    );
    lemma_pow10_small();
    lemma_fmt_padded_fixed(mi, 2);
    lemma_fmt_padded_fixed(sec, 2);
    lemma_fixed_digits_value(mi, 2);
    lemma_fixed_digits_value(sec, 2);
    let r = en_us_string(ms);
    let head = fmt_int(f.1) + seq!['/'] + fmt_int(f.2) + seq!['/'] + fmt_int(f.0) + seq![',', ' ']
        + fmt_int(hour12(f.3));
    let tail = seq![':'] + fixed_digits(mi, 2) + seq![':'] + fixed_digits(sec, 2) + seq![' ']
        + meridiem(f.3);
    assert(r =~= head + tail);
    let k = r.len() as int;
    assert(tail.len() == 9);
    assert(r.subrange(k - 8, k - 6) =~= fixed_digits(mi, 2));
    assert(r.subrange(k - 5, k - 3) =~= fixed_digits(sec, 2));
    assert(r[k - 9] == tail[0]);
    assert(r[k - 6] == tail[3]);
    assert(r[k - 3] == tail[6]);
    assert(r[k - 2] == tail[7]);
    assert(r[k - 1] == tail[8]);
}

/// `{}` renders an integer from 1 to 99 as its one or two digits.
proof fn lemma_fmt_int_small(n: int)
    requires
        1 <= n <= 99,
    ensures
        fmt_int(n) == fixed_digits(n, if n < 10 { 1 } else { 2 }),
{
    lemma_pow10_small();
    let w: int = if n < 10 { 1 } else { 2 };
    lemma_fmt_padded_fixed(n, w);
    let ds = crate::decimal::decimal(n as nat);
    assert(ds.len() >= 1);
    assert(fmt_padded(n, w).len() == w);
    if n >= 10 && ds.len() == 1 {
        assert(fmt_padded(n, w)[0] == '0');
        assert(fixed_digits(n, w)[0] == crate::decimal::digit_char(n / 10));
    }
    assert(ds.len() == w);
    assert(fmt_int(n) =~= fmt_padded(n, w));
}

/// The hour of the en-US form is the 12-hour clock hour (UTC), unpadded: after
/// the space and before the `:` of the minute stand its one or two digits, the
/// first never `0`, spelling 12 at midnight and at noon and the hour of the
/// day modulo 12 otherwise.
pub proof fn lemma_en_us_hour(ms: int)
    ensures
        ({
            let r = en_us_string(ms);
            let k = r.len() as int;
            let h = ((ms / 1000) % 86400) / 3600;
            let hv = if h % 12 == 0 { 12 } else { h % 12 };
            let w: int = if hv < 10 { 1 } else { 2 };
            &&& k >= 10 + w
            &&& r[k - 10 - w] == ' '
            &&& r[k - 9 - w] != '0'
            &&& all_digits(r.subrange(k - 9 - w, k - 9))
            &&& digits_value(r.subrange(k - 9 - w, k - 9)) == hv
        }),
{
    let f = civil_fields(ms);
    let h = f.3;
    assert(0 <= h <= 23);
    let hv = if h % 12 == 0 { 12 } else { h % 12 };
    assert(hour12(h) == hv);
    let w: int = if hv < 10 { 1 } else { 2 };
    lemma_fmt_int_small(hv);
    lemma_pow10_small();
    lemma_fixed_digits_value(hv, w);
    lemma_fmt_padded_fixed(f.4, 2);
    lemma_fmt_padded_fixed(f.5, 2);
    let r = en_us_string(ms);
    let head = fmt_int(f.1) + seq!['/'] + fmt_int(f.2) + seq!['/'] + fmt_int(f.0) + seq![',', ' '];
    let tail = seq![':'] + fixed_digits(f.4, 2) + seq![':'] + fixed_digits(f.5, 2) + seq![' ']
        + meridiem(f.3);
    assert(r =~= head + fixed_digits(hv, w) + tail);
    let k = r.len() as int;
    assert(tail.len() == 9);
    assert(r.subrange(k - 9 - w, k - 9) =~= fixed_digits(hv, w));
    assert(r[k - 10 - w] == head[head.len() - 1]);
    assert(r[k - 9 - w] == fixed_digits(hv, w)[0]);
}

} // verus!
