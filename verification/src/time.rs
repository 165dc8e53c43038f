//! RFC 3339 time handling (UTC) in both directions over the proleptic
//! Gregorian calendar. Reading is strict: every field is digits only and
//! in range (the day within its month, hour below 24, minute below 60,
//! second at most 60 so that a leap second reads as the instant after
//! the 59th, offset hour below 24 and minute below 60); anything else is
//! refused, never guessed.
use vstd::prelude::*;
use crate::text::{trim, is_white_space, zero_padded, decimal, digit_char, chars_of, trim_range, chars_range, push_zero_padded, string_of};

verus! {

/// Whether `y` is a leap year of the proleptic Gregorian calendar.
pub open spec fn is_leap_year(y: int) -> bool {
    y % 4 == 0 && (y % 100 != 0 || y % 400 == 0)
}

/// The number of days of month `m` (1 = January) in year `y`.
pub open spec fn days_in_month(y: int, m: int) -> int {
    if m == 2 {
        if is_leap_year(y) { 29 } else { 28 }
    } else if m == 4 || m == 6 || m == 9 || m == 11 {
        30
    } else {
        31
    }
}

/// Whether `y-m-d` names a day of the calendar.
pub open spec fn is_valid_date(y: int, m: int, d: int) -> bool {
    1 <= m <= 12 && 1 <= d <= days_in_month(y, m)
}

/// The days of year `y` that precede the first day of month `m`.
pub open spec fn days_before_month(y: int, m: int) -> int
    decreases m,
{
    if m <= 1 {
        0
    } else {
        days_before_month(y, m - 1) + days_in_month(y, m - 1)
    }
}

/// The leap years among the years from 0 up to `y` (exclusive); for a
/// negative `y`, minus those from `y` up to 0.
pub open spec fn leap_years_before(y: int) -> int {
    (y + 3) / 4 - (y + 99) / 100 + (y + 399) / 400
}

/// Days from 1970-01-01 to January 1st of year `y`.
pub open spec fn days_before_year(y: int) -> int {
    365 * (y - 1970) + leap_years_before(y) - leap_years_before(1970)
}

/// Days from 1970-01-01 to `y-m-d`; a day past the end of its month
/// counts on into the following months.
pub open spec fn civil_days(y: int, m: int, d: int) -> int {
    days_before_year(y) + days_before_month(y, m) + d - 1
}

/// Year 1970 starts on day 0 and every year is as long as the calendar
/// says: `days_before_year` is the running sum of year lengths.
pub proof fn lemma_year_lengths(y: int)
    ensures
        days_before_year(1970) == 0,
        days_before_year(y + 1) == days_before_year(y) + 365 + (if is_leap_year(y) { 1int } else { 0 }),
{
}

/// `days_before_month` as the familiar table.
pub proof fn lemma_days_before_month(y: int, m: int)
    requires
        1 <= m <= 13,
    ensures
        days_before_month(y, m) == (if m <= 2 { 0int } else if is_leap_year(y) { 1 } else { 0 }) + (
        if m == 1 { 0int }
        else if m == 2 { 31 }
        else if m == 3 { 59 }
        else if m == 4 { 90 }
        else if m == 5 { 120 }
        else if m == 6 { 151 }
        else if m == 7 { 181 }
        else if m == 8 { 212 }
        else if m == 9 { 243 }
        else if m == 10 { 273 }
        else if m == 11 { 304 }
        else if m == 12 { 334 }
        else { 365 }),
{
    reveal_with_fuel(days_before_month, 13);
}

/// Days from 0000-03-01 to March 1st of year `y`.
pub open spec fn march_years(y: int) -> int {
    365 * y + y / 4 - y / 100 + y / 400
}

/// The day of a March-based year on which month `m` starts
/// (March = 0, ..., February = 337).
pub open spec fn march_month_start(m: int) -> int {
    (153 * ((m + 9) % 12) + 2) / 5
}

/// Moving a year count past a multiple of 4, 100 or 400.
proof fn lemma_div_shifts(y: int)
    ensures
        (y + 4) / 4 == y / 4 + 1,
        (y + 3) / 4 == y / 4 + (if y % 4 == 0 { 0int } else { 1 }),
        (y + 100) / 100 == y / 100 + 1,
        (y + 99) / 100 == y / 100 + (if y % 100 == 0 { 0int } else { 1 }),
        (y + 400) / 400 == y / 400 + 1,
        (y + 399) / 400 == y / 400 + (if y % 400 == 0 { 0int } else { 1 }),
        y % 100 == 0 ==> y % 4 == 0,
        y % 400 == 0 ==> y % 100 == 0,
{
}

/// Leap years before the year after `y`.
pub proof fn lemma_leap_years_step(y: int)
    ensures
        leap_years_before(y + 1) == y / 4 - y / 100 + y / 400 + 1,
        leap_years_before(y + 1) == leap_years_before(y) + (if is_leap_year(y) { 1int } else { 0 }),
{
    lemma_div_shifts(y);
}

/// The table of `march_month_start`.
proof fn lemma_march_month_start(m: int)
    requires
        1 <= m <= 12,
    ensures
        march_month_start(m) == (
        if m == 1 { 306int }
        else if m == 2 { 337 }
        else if m == 3 { 0 }
        else if m == 4 { 31 }
        else if m == 5 { 61 }
        else if m == 6 { 92 }
        else if m == 7 { 122 }
        else if m == 8 { 153 }
        else if m == 9 { 184 }
        else if m == 10 { 214 }
        else if m == 11 { 245 }
        else { 275 }),
{
}

/// A date counted from March 1st of the year it falls in when the year
/// is taken to start in March.
pub proof fn lemma_march_based(y: int, m: int, d: int)
    requires
        1 <= m <= 12,
    ensures
        civil_days(if m <= 2 { y + 1 } else { y }, m, d) == march_years(y) + march_month_start(m) + d - 1 - 719468,
{
    lemma_march_month_start(m);
    lemma_leap_years_step(y);
    let leap: int = if is_leap_year(y) { 1 } else { 0 };
    assert(leap_years_before(1970) == 478);
    if m <= 2 {
        lemma_days_before_month(y + 1, m);
        assert(days_before_year(y + 1) == 365 * (y + 1 - 1970) + leap_years_before(y + 1) - 478);
    } else {
        lemma_days_before_month(y, m);
        assert(days_before_year(y) == 365 * (y - 1970) + leap_years_before(y) - 478);
    }
}

/// Splitting a March-based year count into 400-year eras.
pub proof fn lemma_eras(era: int, yoe: int)
    requires
        0 <= yoe < 400,
    ensures
        march_years(era * 400 + yoe) == era * 146097 + 365 * yoe + yoe / 4 - yoe / 100,
{
    assert((era * 400 + yoe) / 4 == era * 100 + yoe / 4);
    assert((era * 400 + yoe) / 100 == era * 4 + yoe / 100);
    assert((era * 400 + yoe) / 400 == era);
}

/// The year of an era and the day of that year, for a day of an era.
proof fn lemma_year_of_era(doe: u32)
    requires
        doe < 146097,
    ensures
        ({
            let yoe = (doe - doe / 1460 + doe / 36524 - doe / 146096) / 365;
            let doy = doe - (365 * yoe + yoe / 4 - yoe / 100);
            &&& yoe <= 399
            &&& 0 <= doy <= 365
            &&& (doy == 365 ==> ((yoe + 1) % 4 == 0 && ((yoe + 1) % 100 != 0 || yoe == 399)))
        }),
{
    assert({
        let yoe = (doe - doe / 1460 + doe / 36524 - doe / 146096) / 365;
        let doy = doe - (365 * yoe + yoe / 4 - yoe / 100);
        &&& yoe <= 399
        &&& 0 <= doy <= 365
        &&& (doy == 365 ==> ((yoe + 1) % 4 == 0 && ((yoe + 1) % 100 != 0 || yoe == 399)))
    }) by (bit_vector)
        requires
            doe < 146097,
    ;
}

/// The month of a March-based year and the day within it.
proof fn lemma_month_of_year(doy: u32)
    requires
        doy <= 365,
    ensures
        ({
            let mp = (5 * doy + 2) / 153;
            let dd = doy - (153 * mp + 2) / 5;
            &&& mp <= 11
            &&& 0 <= dd
            &&& dd < (if mp == 11 { 29int } else if mp == 1 || mp == 3 || mp == 6 || mp == 8 { 30 } else { 31 })
            &&& (mp == 11 && dd == 28 ==> doy == 365)
        }),
{
    assert({
        let mp = (5 * doy + 2) / 153;
        let dd = doy - (153 * mp + 2) / 5;
        &&& mp <= 11
        &&& 0 <= dd
        &&& dd < (if mp == 11 { 29int } else if mp == 1 || mp == 3 || mp == 6 || mp == 8 { 30 } else { 31 })
        &&& (mp == 11 && dd == 28 ==> doy == 365)
    }) by (bit_vector)
        requires
            doy <= 365,
    ;
}

/// Days from 1970-01-01 to `y-m-d` (a day past the end of its month
/// counts on), by the era arithmetic of the civil calendar.
fn days_from_civil(y: i64, m: u32, d: u32) -> (r: i64)
    requires
        1 <= m <= 12,
        -0x100_0000_0000 <= y <= 0x100_0000_0000,
    ensures
        r == civil_days(y as int, m as int, d as int),
{
    let y = if m <= 2 { y - 1 } else { y };
    let era: i64 = if y >= 0 { y / 400 } else { -((399 - y) / 400) };
    let yoe = y - era * 400;
    let mp = (m as i64 + 9) % 12;
    let doy = (153 * mp + 2) / 5 + d as i64 - 1;
    let doe = yoe * 365 + yoe / 4 - yoe / 100 + doy;
    proof {
        assert(era == (y as int) / 400);
        lemma_eras(era as int, yoe as int);
        lemma_march_based(y as int, m as int, d as int);
    }
    era * 146097 + doe - 719468
}

/// The date on day `doy` (March-based) of year `y` is a calendar date.
#[verifier::rlimit(40)]
proof fn lemma_date_parts(y: int, yoe: int, doy: int, mp: int, dd: int)
    requires
        0 <= yoe <= 399,
        y % 400 == yoe,
        0 <= doy <= 365,
        doy == 365 ==> ((yoe + 1) % 4 == 0 && ((yoe + 1) % 100 != 0 || yoe == 399)),
        0 <= mp <= 11,
        dd == doy - (153 * mp + 2) / 5,
        0 <= dd,
        dd < (if mp == 11 { 29int } else if mp == 1 || mp == 3 || mp == 6 || mp == 8 { 30 } else { 31 }),
        mp == 11 && dd == 28 ==> doy == 365,
    ensures
        ({
            let m = if mp < 10 { mp + 3 } else { mp - 9 };
            let year = if m <= 2 { y + 1 } else { y };
            &&& is_valid_date(year, m, dd + 1)
            &&& march_month_start(m) == (153 * mp + 2) / 5
        }),
{
    let m = if mp < 10 { mp + 3 } else { mp - 9 };
    assert((m + 9) % 12 == mp);
    if mp == 11 && dd == 28 {
        assert((y + 1) % 400 == (yoe + 1) % 400);
        assert((y + 1) % 100 == (yoe + 1) % 100);
        assert((y + 1) % 4 == (yoe + 1) % 4);
        assert(is_leap_year(y + 1));
    }
}

/// The date `days` days after 1970-01-01, by the era arithmetic of the
/// civil calendar.
fn civil_from_days(z: i64) -> (r: (i64, u32, u32))
    requires
        -0x1_0000_0000_0000 <= z <= 0x1_0000_0000_0000,
    ensures
        is_valid_date(r.0 as int, r.1 as int, r.2 as int),
        civil_days(r.0 as int, r.1 as int, r.2 as int) == z,
{
    let z = z + 719468;
    let era: i64 = if z >= 0 { z / 146097 } else { -((146096 - z) / 146097) };
    assert(era == (z as int) / 146097);
    let doe = z - era * 146097;
    assert(0 <= doe < 146097);
    let ghost gdoe: u32 = doe as u32;
    assert(gdoe as int == doe as int);
    proof {
        lemma_year_of_era(gdoe);
    }
    let yoe = (doe - doe / 1460 + doe / 36524 - doe / 146096) / 365;
    let y = yoe + era * 400;
    assert(0 <= yoe <= 399);
    let doy = doe - (365 * yoe + yoe / 4 - yoe / 100);
    assert(0 <= doy <= 365);
    let ghost gdoy: u32 = doy as u32;
    assert(gdoy as int == doy as int);
    proof {
        lemma_month_of_year(gdoy);
    }
    let mp = (5 * doy + 2) / 153;
    assert(mp <= 11);
    let d = (doy - (153 * mp + 2) / 5 + 1) as u32;
    let m = if mp < 10 { mp + 3 } else { mp - 9 } as u32;
    let year = if m <= 2 { y + 1 } else { y };
    proof {
        assert(y % 400 == yoe);
        lemma_date_parts(y as int, yoe as int, doy as int, mp as int, d - 1);
        lemma_eras(era as int, yoe as int);
        lemma_march_based(y as int, m as int, d as int);
    }
    (year, m, d)
}

/// Whether `c` is an ASCII decimal digit.
pub open spec fn is_digit(c: char) -> bool {
    '0' <= c <= '9'
}

/// The number that the decimal digits `s` spell.
pub open spec fn digits_value(s: Seq<char>) -> int
    decreases s.len(),
{
    if s.len() == 0 {
        0
    } else {
        digits_value(s.drop_last()) * 10 + (s.last() as int - 48)
    }
}

/// Whether every character of `s` is a decimal digit.
pub open spec fn all_digits(s: Seq<char>) -> bool {
    forall|i: int| 0 <= i < s.len() ==> is_digit(#[trigger] s[i])
}

/// The number that `s` spells when it is one or more decimal digits and
/// nothing else.
pub open spec fn field_value(s: Seq<char>) -> Option<int> {
    if s.len() > 0 && all_digits(s) {
        Some(digits_value(s))
    } else {
        None
    }
}

/// The end of the run of digits in `t` that starts at `i`.
pub open spec fn digit_run_end(t: Seq<char>, i: int) -> int
    decreases t.len() - i,
{
    if 0 <= i < t.len() && is_digit(t[i]) {
        digit_run_end(t, i + 1)
    } else {
        i
    }
}

/// Where the offset starts: after the seconds and any fraction of them.
pub open spec fn offset_start(t: Seq<char>) -> int {
    if t.len() > 19 && t[19] == '.' {
        digit_run_end(t, 20)
    } else {
        19
    }
}

/// The offset east of UTC in seconds that `t` ends with from index `i`:
/// `Z`/`z`, or `+HH:MM`/`-HH:MM` taken to the end, with the hour below
/// 24 and the minute below 60.
pub open spec fn offset_seconds(t: Seq<char>, i: int) -> Option<int> {
    if 0 <= i && i + 1 == t.len() && (t[i] == 'Z' || t[i] == 'z') {
        Some(0)
    } else if 0 <= i && i + 6 == t.len() && (t[i] == '+' || t[i] == '-') && t[i + 3] == ':' {
        match (field_value(t.subrange(i + 1, i + 3)), field_value(t.subrange(i + 4, i + 6))) {
            (Some(oh), Some(om)) => if oh < 24 && om < 60 {
                Some(if t[i] == '+' { oh * 3600 + om * 60 } else { -(oh * 3600 + om * 60) })
            } else {
                None
            },
            _ => None,
        }
    } else {
        None
    }
}

/// Whether `t` has the separators of `YYYY-MM-DDTHH:MM:SS` in place.
pub open spec fn has_date_time_shape(t: Seq<char>) -> bool {
    t.len() >= 20 && t[4] == '-' && t[7] == '-' && (t[10] == 'T' || t[10] == 't') && t[13] == ':'
        && t[16] == ':'
}

/// Year, month, day, hour, minute and second of `t`, each all digits,
/// when they name a calendar date and a time of day (hour below 24,
/// minute below 60, second at most 60: RFC 3339 allows a leap second,
/// which counts on as the next instant).
pub open spec fn date_time_fields(t: Seq<char>) -> Option<(int, int, int, int, int, int)> {
    match (
        field_value(t.subrange(0, 4)),
        field_value(t.subrange(5, 7)),
        field_value(t.subrange(8, 10)),
        field_value(t.subrange(11, 13)),
        field_value(t.subrange(14, 16)),
        field_value(t.subrange(17, 19)),
    ) {
        (Some(year), Some(month), Some(day), Some(hour), Some(minute), Some(second)) => {
            if is_valid_date(year, month, day) && hour < 24 && minute < 60 && second <= 60 {
                Some((year, month, day, hour, minute, second))
            } else {
                None
            }
        },
        _ => None,
    }
}

/// The instant, in seconds after 1970-01-01T00:00:00Z, that the
/// already trimmed timestamp `t` denotes: `YYYY-MM-DDTHH:MM:SS`, an
/// optional fraction (ignored), then the offset.
pub open spec fn parse_rfc3339(t: Seq<char>) -> Option<int> {
    if !has_date_time_shape(t) {
        None
    } else {
        match (date_time_fields(t), offset_seconds(t, offset_start(t))) {
            (Some(f), Some(offset)) => Some(
                civil_days(f.0, f.1, f.2) * 86400 + f.3 * 3600 + f.4 * 60 + f.5 - offset,
            ),
            _ => None,
        }
    }
}

/// The instant that the RFC 3339 timestamp `s` denotes, surrounding
/// white space ignored.
pub open spec fn rfc3339_instant(s: Seq<char>) -> Option<int> {
    parse_rfc3339(trim(s))
}

/// Reads `t[lo..hi]` (at most four characters) as a run of decimal digits.
fn parse_field(t: &Vec<char>, lo: usize, hi: usize) -> (r: Option<i64>)
    requires
        lo < hi <= t@.len(),
        hi - lo <= 4,
    ensures
        match r {
            Some(v) => field_value(t@.subrange(lo as int, hi as int)) == Some(v as int)
                && 0 <= v < pow10_int(hi - lo),
            None => field_value(t@.subrange(lo as int, hi as int)) is None,
        },
{
    let ghost s = t@.subrange(lo as int, hi as int);
    let mut value: i64 = 0;
    let mut i = lo;
    while i < hi
        invariant
            lo <= i <= hi <= t@.len(),
            lo < hi,
            hi - lo <= 4,
            s == t@.subrange(lo as int, hi as int),
            forall|k: int| 0 <= k < i - lo ==> is_digit(#[trigger] s[k]),
            value == digits_value(t@.subrange(lo as int, i as int)),
            0 <= value < pow10_int((i - lo) as int),
        decreases hi - i,
    {
        let c = t[i];
        if !('0' <= c && c <= '9') {
            assert(!is_digit(s[i - lo]));
            assert(!all_digits(s));
            return None;
        }
        assert(t@.subrange(lo as int, i + 1).drop_last() =~= t@.subrange(lo as int, i as int));
        value = value * 10 + (c as u32 - 48) as i64;
        i = i + 1;
    }
    assert(all_digits(s));
    Some(value)
}

/// `10^k` for small `k`.
pub open spec fn pow10_int(k: int) -> int {
    if k <= 0 { 1 } else if k == 1 { 10 } else if k == 2 { 100 } else if k == 3 { 1000 } else { 10000 }
}

/// The number of days of month `m` in year `y`.
fn month_length(y: i64, m: i64) -> (r: i64)
    requires
        0 <= y,
        1 <= m <= 12,
    ensures
        r == days_in_month(y as int, m as int),
{
    if m == 2 {
        if y % 4 == 0 && (y % 100 != 0 || y % 400 == 0) { 29 } else { 28 }
    } else if m == 4 || m == 6 || m == 9 || m == 11 {
        30
    } else {
        31
    }
}

/// Reads the date and time fields of a timestamp of the right shape.
fn read_date_time(t: &Vec<char>) -> (r: Option<(i64, i64, i64, i64, i64, i64)>)
    requires
        has_date_time_shape(t@),
    ensures
        match r {
            Some(f) => date_time_fields(t@) == Some((f.0 as int, f.1 as int, f.2 as int, f.3 as int, f.4 as int, f.5 as int))
                && 0 <= f.0 <= 9999 && 0 <= f.3 < 24 && 0 <= f.4 < 60 && 0 <= f.5 <= 60,
            None => date_time_fields(t@) is None,
        },
{
    let year = match parse_field(t, 0, 4) { Some(v) => v, None => return None };
    let month = match parse_field(t, 5, 7) { Some(v) => v, None => return None };
    let day = match parse_field(t, 8, 10) { Some(v) => v, None => return None };
    let hour = match parse_field(t, 11, 13) { Some(v) => v, None => return None };
    let minute = match parse_field(t, 14, 16) { Some(v) => v, None => return None };
    let second = match parse_field(t, 17, 19) { Some(v) => v, None => return None };
    if !(1 <= month && month <= 12) {
        return None;
    }
    let length = month_length(year, month);
    if !(1 <= day && day <= length && hour < 24 && minute < 60 && second <= 60) {
        return None;
    }
    Some((year, month, day, hour, minute, second))
}

/// Skips the fraction of a second, then reads the offset.
fn read_offset(t: &Vec<char>) -> (r: Option<i64>)
    requires
        has_date_time_shape(t@),
    ensures
        match r {
            Some(o) => offset_seconds(t@, offset_start(t@)) == Some(o as int) && -86400 < o < 86400,
            None => offset_seconds(t@, offset_start(t@)) is None,
        },
{
    let ghost g = t@;
    let n = t.len();
    let mut i: usize = 19;
    if t[19] == '.' {
        i = 20;
        while i < n && '0' <= t[i] && t[i] <= '9'
            invariant
                20 <= i <= n == g.len(),
                t@ == g,
                digit_run_end(g, 20) == digit_run_end(g, i as int),
            decreases n - i,
        {
            i = i + 1;
        }
    }
    assert(i as int == offset_start(g));
    if n - i == 1 && (t[i] == 'Z' || t[i] == 'z') {
        Some(0)
    } else if n - i == 6 && (t[i] == '+' || t[i] == '-') && t[i + 3] == ':' {
        let oh = match parse_field(t, i + 1, i + 3) { Some(v) => v, None => return None };
        let om = match parse_field(t, i + 4, i + 6) { Some(v) => v, None => return None };
        if !(oh < 24 && om < 60) {
            return None;
        }
        let magnitude = oh * 3600 + om * 60;
        if t[i] == '+' { Some(magnitude) } else { Some(-magnitude) }
    } else {
        None
    }
}

/// Parses an RFC 3339 timestamp to epoch seconds. Accepts `Z` and
/// numeric offsets; fractional seconds are truncated. Returns None on
/// anything malformed: callers treat that as a rule violation, never as
/// a guess.
pub fn rfc3339_to_epoch(s: &str) -> (r: Option<i64>)
    ensures
        match r {
            Some(v) => rfc3339_instant(s@) == Some(v as int) && -0x100_0000_0000 <= v <= 0x100_0000_0000,
            None => rfc3339_instant(s@) is None,
        },
{
    let all = chars_of(s);
    let (lo, hi) = trim_range(&all, 0, all.len());
    let t = chars_range(&all, lo, hi);
    assert(all@.subrange(0, all@.len() as int) =~= s@);
    assert(t@ == trim(s@));
    let n = t.len();
    if n < 20 || !(t[4] == '-' && t[7] == '-' && (t[10] == 'T' || t[10] == 't')) || t[13] != ':'
        || t[16] != ':' {
        return None;
    }
    let f = match read_date_time(&t) { Some(f) => f, None => return None };
    let offset = match read_offset(&t) { Some(o) => o, None => return None };
    let days = days_from_civil(f.0, f.1 as u32, f.2 as u32);
    proof {
        lemma_civil_days_bounds(f.0 as int, f.1 as int, f.2 as int);
    }
    Some(days * 86400 + f.3 * 3600 + f.4 * 60 + f.5 - offset)
}

/// `civil_days` stays small for the years four digits can spell.
proof fn lemma_civil_days_bounds(y: int, m: int, d: int)
    requires
        -9999 <= y <= 9999,
        1 <= m <= 12,
        1 <= d <= 31,
    ensures
        -5_000_000 <= civil_days(y, m, d) <= 5_000_000,
{
    lemma_days_before_month(y, m);
    assert(-2500 <= (y + 3) / 4 <= 2501);
    assert(-100 <= (y + 99) / 100 <= 101);
    assert(-25 <= (y + 399) / 400 <= 26);
}

/// Years start no earlier than the years before them.
pub proof fn lemma_years_ordered(a: int, b: int)
    requires
        a <= b,
    ensures
        days_before_year(a) <= days_before_year(b),
    decreases b - a,
{
    if a < b {
        lemma_year_lengths(b - 1);
        lemma_years_ordered(a, b - 1);
    }
}

/// A date lies in its year, and in its month within that year.
proof fn lemma_date_in_year(y: int, m: int, d: int)
    requires
        is_valid_date(y, m, d),
    ensures
        days_before_year(y) <= civil_days(y, m, d) < days_before_year(y + 1),
        days_before_month(y, m) <= civil_days(y, m, d) - days_before_year(y) < days_before_month(y, m + 1),
{
    lemma_year_lengths(y);
    lemma_days_before_month(y, m);
    lemma_days_before_month(y, m + 1);
    lemma_days_before_month(y, 13);
}

/// Two calendar dates on the same day are the same date.
pub proof fn lemma_date_unique(y1: int, m1: int, d1: int, y2: int, m2: int, d2: int)
    requires
        is_valid_date(y1, m1, d1),
        is_valid_date(y2, m2, d2),
        civil_days(y1, m1, d1) == civil_days(y2, m2, d2),
    ensures
        y1 == y2 && m1 == m2 && d1 == d2,
{
    lemma_date_in_year(y1, m1, d1);
    lemma_date_in_year(y2, m2, d2);
    if y1 < y2 {
        lemma_years_ordered(y1 + 1, y2);
    } else if y2 < y1 {
        lemma_years_ordered(y2 + 1, y1);
    } else {
        if m1 < m2 {
            lemma_days_before_month(y1, m1 + 1);
            lemma_days_before_month(y1, m2);
        } else if m2 < m1 {
            lemma_days_before_month(y1, m2 + 1);
            lemma_days_before_month(y1, m1);
        }
    }
}

/// The calendar date of day `z` counted from 1970-01-01 (day 0).
pub open spec fn date_of_day(z: int) -> (int, int, int) {
    choose|t: (int, int, int)| is_valid_date(t.0, t.1, t.2) && civil_days(t.0, t.1, t.2) == z
}

/// A calendar date is the date of its day.
pub proof fn lemma_date_of_day(y: int, m: int, d: int)
    requires
        is_valid_date(y, m, d),
    ensures
        date_of_day(civil_days(y, m, d)) == (y, m, d),
{
    let z = civil_days(y, m, d);
    let w = (y, m, d);
    assert(is_valid_date(w.0, w.1, w.2) && civil_days(w.0, w.1, w.2) == z);
    assert(exists|t: (int, int, int)| is_valid_date(t.0, t.1, t.2) && civil_days(t.0, t.1, t.2) == z);
    let t = date_of_day(z);
    lemma_date_unique(t.0, t.1, t.2, y, m, d);
}

/// `YYYY-MM-DDTHH:MM:SS`, each field zero-padded as `format!` pads it.
pub open spec fn date_time_text(y: int, mo: int, d: int, h: int, mi: int, s: int) -> Seq<char> {
    zero_padded(y, 4) + seq!['-'] + zero_padded(mo, 2) + seq!['-'] + zero_padded(d, 2) + seq!['T']
        + zero_padded(h, 2) + seq![':'] + zero_padded(mi, 2) + seq![':'] + zero_padded(s, 2)
}

/// `YYYY-MM-DDTHH:MM:SSZ`.
pub open spec fn utc_timestamp(y: int, mo: int, d: int, h: int, mi: int, s: int) -> Seq<char> {
    date_time_text(y, mo, d, h, mi, s) + seq!['Z']
}

/// The RFC 3339 UTC form of the instant `e` seconds after 1970-01-01T00:00:00Z.
pub open spec fn epoch_rfc3339(e: int) -> Seq<char> {
    let date = date_of_day(e / 86400);
    let rem = e % 86400;
    utc_timestamp(date.0, date.1, date.2, rem / 3600, (rem % 3600) / 60, rem % 60)
}

/// Formats epoch seconds as RFC 3339 UTC (`...Z`).
pub fn epoch_to_rfc3339(epoch: i64) -> (r: String)
    ensures
        r@ == epoch_rfc3339(epoch as int),
{
    let (days, rem): (i64, i64) = if epoch >= 0 {
        (epoch / 86400, epoch % 86400)
    } else {
        let p: i64 = -(epoch + 1);
        (-(p / 86400) - 1, 86399 - p % 86400)
    };
    assert(days == (epoch as int) / 86400 && rem == (epoch as int) % 86400);
    let (y, m, d) = civil_from_days(days);
    proof {
        lemma_date_of_day(y as int, m as int, d as int);
    }
    let mut out: Vec<char> = Vec::new();
    push_zero_padded(&mut out, y, 4);
    out.push('-');
    push_zero_padded(&mut out, m as i64, 2);
    out.push('-');
    push_zero_padded(&mut out, d as i64, 2);
    out.push('T');
    push_zero_padded(&mut out, rem / 3600, 2);
    out.push(':');
    push_zero_padded(&mut out, (rem % 3600) / 60, 2);
    out.push(':');
    push_zero_padded(&mut out, rem % 60, 2);
    out.push('Z');
    assert(out@ =~= utc_timestamp(y as int, m as int, d as int, (rem / 3600) as int, ((rem % 3600) / 60) as int, (rem % 60) as int));
    string_of(&out)
}

/// Epoch seconds from a clock reading in whole seconds since 1970
/// (`None`: the clock reads before 1970), taken `as i64`.
pub fn epoch_of_clock(secs: Option<u64>) -> (r: Option<i64>)
    ensures
        r == match secs {
            Some(s) => Some(s as i64),
            None => None::<i64>,
        },
{
    match secs {
        Some(s) => Some(s as i64),
        None => None,
    }
}

/// Current time as epoch seconds; `None` when the system clock reads
/// before 1970. What the clock reads is not stated: the value is
/// `epoch_of_clock` of the machine's clock.
pub fn now_epoch() -> (r: Option<i64>) {
    epoch_of_clock(unix_clock_secs())
}

/// `SystemTime::now()` measured from `UNIX_EPOCH` in whole seconds
/// (`Duration::as_secs`); `None` when the clock reads before the epoch.
/// Nothing is stated of the value: it is the machine's clock.
#[verifier::external_body]
fn unix_clock_secs() -> (r: Option<u64>) {
    match std::time::SystemTime::now().duration_since(std::time::UNIX_EPOCH) {
        Ok(elapsed) => Some(elapsed.as_secs()),
        Err(_) => None,
    }
}

/// Every day has a calendar date.
pub proof fn lemma_day_has_date(z: int)
    ensures
        exists|t: (int, int, int)| is_valid_date(t.0, t.1, t.2) && civil_days(t.0, t.1, t.2) == z,
        is_valid_date(date_of_day(z).0, date_of_day(z).1, date_of_day(z).2),
        civil_days(date_of_day(z).0, date_of_day(z).1, date_of_day(z).2) == z,
{
    let zz = z + 719468;
    let era = zz / 146097;
    let doe = zz - era * 146097;
    let gdoe: u32 = doe as u32;
    assert(gdoe as int == doe);
    lemma_year_of_era(gdoe);
    let yoe = (doe - doe / 1460 + doe / 36524 - doe / 146096) / 365;
    let y = yoe + era * 400;
    let doy = doe - (365 * yoe + yoe / 4 - yoe / 100);
    let gdoy: u32 = doy as u32;
    assert(gdoy as int == doy);
    lemma_month_of_year(gdoy);
    let mp = (5 * doy + 2) / 153;
    let d = doy - (153 * mp + 2) / 5 + 1;
    let m = if mp < 10 { mp + 3 } else { mp - 9 };
    let year = if m <= 2 { y + 1 } else { y };
    assert(y % 400 == yoe);
    lemma_date_parts(y, yoe, doy, mp, d - 1);
    lemma_eras(era, yoe);
    lemma_march_based(y, m, d);
    let w = (year, m, d);
    assert(is_valid_date(w.0, w.1, w.2) && civil_days(w.0, w.1, w.2) == z);
}

/// `zero_padded` spelled out for two and four digits.
pub proof fn lemma_padded_digits(n: int)
    requires
        0 <= n <= 9999,
    ensures
        zero_padded(n, 4) == seq![digit_char(n / 1000), digit_char((n / 100) % 10), digit_char((n / 10) % 10), digit_char(n % 10)],
        n <= 99 ==> zero_padded(n, 2) == seq![digit_char(n / 10), digit_char(n % 10)],
{
    reveal_with_fuel(decimal, 5);
    if n < 10 {
        assert(zero_padded(n, 4) =~= seq![digit_char(n / 1000), digit_char((n / 100) % 10), digit_char((n / 10) % 10), digit_char(n % 10)]);
        assert(zero_padded(n, 2) =~= seq![digit_char(n / 10), digit_char(n % 10)]);
    } else if n < 100 {
        assert(zero_padded(n, 4) =~= seq![digit_char(n / 1000), digit_char((n / 100) % 10), digit_char((n / 10) % 10), digit_char(n % 10)]);
        assert(zero_padded(n, 2) =~= seq![digit_char(n / 10), digit_char(n % 10)]);
    } else if n < 1000 {
        assert(zero_padded(n, 4) =~= seq![digit_char(n / 1000), digit_char((n / 100) % 10), digit_char((n / 10) % 10), digit_char(n % 10)]);
    } else {
        assert(zero_padded(n, 4) =~= seq![digit_char(n / 1000), digit_char((n / 100) % 10), digit_char((n / 10) % 10), digit_char(n % 10)]);
    }
}

/// Two padded digits parse back to their number.
proof fn lemma_parse_padded2(n: int)
    requires
        0 <= n < 100,
    ensures
        field_value(zero_padded(n, 2)) == Some(n),
        zero_padded(n, 2).len() == 2,
        all_digits(zero_padded(n, 2)),
{
    lemma_padded_digits(n);
    let t = zero_padded(n, 2);
    assert(t.drop_last() =~= seq![digit_char(n / 10)]);
    assert(t.drop_last().drop_last() =~= Seq::<char>::empty());
    assert(digits_value(t.drop_last().drop_last()) == 0);
    assert(digits_value(t.drop_last()) == n / 10);
    assert(digits_value(t) == n);
    assert(all_digits(t));
}

/// Four padded digits parse back to their number.
proof fn lemma_parse_padded4(n: int)
    requires
        0 <= n < 10000,
    ensures
        field_value(zero_padded(n, 4)) == Some(n),
        zero_padded(n, 4).len() == 4,
        all_digits(zero_padded(n, 4)),
{
    lemma_padded_digits(n);
    let t = zero_padded(n, 4);
    let t3 = t.drop_last();
    let t2 = t3.drop_last();
    let t1 = t2.drop_last();
    assert(t3 =~= seq![digit_char(n / 1000), digit_char((n / 100) % 10), digit_char((n / 10) % 10)]);
    assert(t2 =~= seq![digit_char(n / 1000), digit_char((n / 100) % 10)]);
    assert(t1 =~= seq![digit_char(n / 1000)]);
    assert(t1.drop_last() =~= Seq::<char>::empty());
    assert(digits_value(t1.drop_last()) == 0);
    assert(digits_value(t1) == n / 1000);
    assert(digits_value(t2) == n / 100);
    assert(digits_value(t3) == n / 10);
    assert(digits_value(t) == n);
    assert(all_digits(t));
}

/// Text that starts and ends with something other than white space is
/// its own trim.
pub proof fn lemma_trim_unchanged(t: Seq<char>)
    requires
        t.len() > 0,
        !is_white_space(t[0]),
        !is_white_space(t.last()),
    ensures
        trim(t) == t,
{
}

/// The seconds of a date and time that `date_time_text` spells.
pub open spec fn instant_of(y: int, mo: int, d: int, h: int, mi: int, s: int) -> int {
    civil_days(y, mo, d) * 86400 + h * 3600 + mi * 60 + s
}

/// What the field reader finds in `date_time_text` followed by anything.
proof fn lemma_fields_of_text(y: int, mo: int, d: int, h: int, mi: int, s: int, rest: Seq<char>)
    requires
        0 <= y <= 9999,
        0 <= mo <= 99,
        0 <= d <= 99,
        0 <= h <= 99,
        0 <= mi <= 99,
        0 <= s <= 99,
        rest.len() >= 1,
    ensures
        ({
            let t = date_time_text(y, mo, d, h, mi, s) + rest;
            &&& t.len() == 19 + rest.len()
            &&& has_date_time_shape(t)
            &&& date_time_fields(t) == if is_valid_date(y, mo, d) && h < 24 && mi < 60 && s <= 60 {
                Some((y, mo, d, h, mi, s))
            } else {
                None
            }
            &&& is_digit(t[0])
            &&& forall|k: int| 0 <= k < rest.len() ==> t[19 + k] == rest[k]
        }),
{
    lemma_parse_padded4(y);
    lemma_parse_padded2(mo);
    lemma_parse_padded2(d);
    lemma_parse_padded2(h);
    lemma_parse_padded2(mi);
    lemma_parse_padded2(s);
    lemma_padded_digits(y);
    let t = date_time_text(y, mo, d, h, mi, s) + rest;
    assert(t.subrange(0, 4) =~= zero_padded(y, 4));
    assert(t.subrange(5, 7) =~= zero_padded(mo, 2));
    assert(t.subrange(8, 10) =~= zero_padded(d, 2));
    assert(t.subrange(11, 13) =~= zero_padded(h, 2));
    assert(t.subrange(14, 16) =~= zero_padded(mi, 2));
    assert(t.subrange(17, 19) =~= zero_padded(s, 2));
}

/// A UTC timestamp denotes the instant its fields spell.
pub proof fn lemma_utc_instant(y: int, mo: int, d: int, h: int, mi: int, s: int)
    requires
        0 <= y <= 9999,
        is_valid_date(y, mo, d),
        0 <= h < 24,
        0 <= mi < 60,
        0 <= s <= 60,
    ensures
        rfc3339_instant(utc_timestamp(y, mo, d, h, mi, s)) == Some(instant_of(y, mo, d, h, mi, s)),
{
    let t = utc_timestamp(y, mo, d, h, mi, s);
    lemma_fields_of_text(y, mo, d, h, mi, s, seq!['Z']);
    assert(t[19] == 'Z');
    lemma_trim_unchanged(t);
    assert(offset_start(t) == 19);
}

/// Offsets normalize to the same instant: `+HH:MM` is that far east of
/// UTC, `-HH:MM` that far west.
pub proof fn lemma_offset_instant(
    y: int,
    mo: int,
    d: int,
    h: int,
    mi: int,
    s: int,
    east: bool,
    oh: int,
    om: int,
)
    requires
        0 <= y <= 9999,
        is_valid_date(y, mo, d),
        0 <= h < 24,
        0 <= mi < 60,
        0 <= s <= 60,
        0 <= oh < 24,
        0 <= om < 60,
    ensures
        rfc3339_instant(
            date_time_text(y, mo, d, h, mi, s) + seq![if east { '+' } else { '-' }] + zero_padded(oh, 2)
                + seq![':'] + zero_padded(om, 2),
        ) == Some(
            instant_of(y, mo, d, h, mi, s) - (if east { oh * 3600 + om * 60 } else { -(oh * 3600 + om * 60) }),
        ),
{
    let rest = seq![if east { '+' } else { '-' }] + zero_padded(oh, 2) + seq![':'] + zero_padded(om, 2);
    lemma_parse_padded2(oh);
    lemma_parse_padded2(om);
    lemma_padded_digits(om);
    let t = date_time_text(y, mo, d, h, mi, s) + rest;
    assert(t =~= date_time_text(y, mo, d, h, mi, s) + seq![if east { '+' } else { '-' }] + zero_padded(oh, 2)
                + seq![':'] + zero_padded(om, 2));
    lemma_fields_of_text(y, mo, d, h, mi, s, rest);
    assert(t.len() == 25);
    assert(t[19] == rest[0]);
    assert(t[22] == rest[3]);
    assert(t[24] == rest[5]);
    lemma_trim_unchanged(t);
    assert(offset_start(t) == 19);
    assert(t.subrange(20, 22) =~= zero_padded(oh, 2));
    assert(t.subrange(23, 25) =~= zero_padded(om, 2));
}

/// A run of digits from `i` to `j` ends at `j`.
proof fn lemma_digit_run(t: Seq<char>, i: int, j: int)
    requires
        0 <= i <= j <= t.len(),
        forall|k: int| i <= k < j ==> is_digit(#[trigger] t[k]),
        j == t.len() || !is_digit(t[j]),
    ensures
        digit_run_end(t, i) == j,
    decreases j - i,
{
    if i < j {
        lemma_digit_run(t, i + 1, j);
    }
}

/// Fractional seconds are truncated: digits after a `.` leave the
/// instant as it is without them.
pub proof fn lemma_fraction_ignored(y: int, mo: int, d: int, h: int, mi: int, s: int, fraction: Seq<char>)
    requires
        0 <= y <= 9999,
        is_valid_date(y, mo, d),
        0 <= h < 24,
        0 <= mi < 60,
        0 <= s <= 60,
        all_digits(fraction),
    ensures
        rfc3339_instant(date_time_text(y, mo, d, h, mi, s) + seq!['.'] + fraction + seq!['Z'])
            == rfc3339_instant(utc_timestamp(y, mo, d, h, mi, s)),
{
    let rest = seq!['.'] + fraction + seq!['Z'];
    let t = date_time_text(y, mo, d, h, mi, s) + rest;
    assert(t =~= date_time_text(y, mo, d, h, mi, s) + seq!['.'] + fraction + seq!['Z']);
    lemma_fields_of_text(y, mo, d, h, mi, s, rest);
    let n: int = fraction.len() as int;
    assert(t[19] == rest[0]);
    assert(t[20 + n] == rest[1 + n]);
    assert forall|k: int| 20 <= k < 20 + n implies is_digit(#[trigger] t[k]) by {
        assert(t[k] == rest[k - 19]);
        assert(rest[k - 19] == fraction[k - 20]);
    }
    lemma_digit_run(t, 20, 20 + n);
    lemma_trim_unchanged(t);
    lemma_utc_instant(y, mo, d, h, mi, s);
}

/// Formatting then parsing gives back the instant, for every instant
/// whose year has four digits.
pub proof fn lemma_format_then_parse(e: int)
    requires
        0 <= date_of_day(e / 86400).0 <= 9999,
    ensures
        rfc3339_instant(epoch_rfc3339(e)) == Some(e),
{
    lemma_day_has_date(e / 86400);
    let date = date_of_day(e / 86400);
    let rem = e % 86400;
    lemma_utc_instant(date.0, date.1, date.2, rem / 3600, (rem % 3600) / 60, rem % 60);
}

/// Parsing then formatting gives back a UTC timestamp of a calendar
/// date with a time of day.
pub proof fn lemma_parse_then_format(y: int, mo: int, d: int, h: int, mi: int, s: int)
    requires
        0 <= y <= 9999,
        is_valid_date(y, mo, d),
        0 <= h <= 23,
        0 <= mi <= 59,
        0 <= s <= 59,
    ensures
        rfc3339_instant(utc_timestamp(y, mo, d, h, mi, s)) matches Some(e) && epoch_rfc3339(e)
            == utc_timestamp(y, mo, d, h, mi, s),
{
    lemma_utc_instant(y, mo, d, h, mi, s);
    let e = instant_of(y, mo, d, h, mi, s);
    let secs = h * 3600 + mi * 60 + s;
    let c = civil_days(y, mo, d);
    assert(e == c * 86400 + secs);
    assert((c * 86400 + secs) / 86400 == c && (c * 86400 + secs) % 86400 == secs) by (nonlinear_arith)
        requires
            0 <= secs < 86400,
    ;
    lemma_date_of_day(y, mo, d);
    let rem = e % 86400;
    assert(rem / 3600 == h && (rem % 3600) / 60 == mi && rem % 60 == s);
}

/// A leap second is read, as the instant right after second 59 of its
/// minute.
pub proof fn lemma_leap_second(y: int, mo: int, d: int, h: int, mi: int)
    requires
        0 <= y <= 9999,
        is_valid_date(y, mo, d),
        0 <= h < 24,
        0 <= mi < 60,
    ensures
        rfc3339_instant(utc_timestamp(y, mo, d, h, mi, 60)) == Some(instant_of(y, mo, d, h, mi, 59) + 1),
{
    lemma_utc_instant(y, mo, d, h, mi, 60);
}

/// Fractional seconds are truncated before a numeric offset too: digits
/// after a `.` leave the instant of `±HH:MM` as it is without them, the
/// fields' instant moved by the offset.
pub proof fn lemma_fraction_ignored_before_offset(
    y: int,
    mo: int,
    d: int,
    h: int,
    mi: int,
    s: int,
    fraction: Seq<char>,
    east: bool,
    oh: int,
    om: int,
)
    requires
        0 <= y <= 9999,
        is_valid_date(y, mo, d),
        0 <= h < 24,
        0 <= mi < 60,
        0 <= s <= 60,
        all_digits(fraction),
        0 <= oh < 24,
        0 <= om < 60,
    ensures
        rfc3339_instant(
            date_time_text(y, mo, d, h, mi, s) + seq!['.'] + fraction + seq![if east { '+' } else { '-' }]
                + zero_padded(oh, 2) + seq![':'] + zero_padded(om, 2),
        ) == rfc3339_instant(
            date_time_text(y, mo, d, h, mi, s) + seq![if east { '+' } else { '-' }] + zero_padded(oh, 2)
                + seq![':'] + zero_padded(om, 2),
        ),
        rfc3339_instant(
            date_time_text(y, mo, d, h, mi, s) + seq!['.'] + fraction + seq![if east { '+' } else { '-' }]
                + zero_padded(oh, 2) + seq![':'] + zero_padded(om, 2),
        ) == Some(
            civil_days(y, mo, d) * 86400 + h * 3600 + mi * 60 + s - (if east { oh * 3600 + om * 60 } else {
                -(oh * 3600 + om * 60)
            }),
        ),
{
    let sign = seq![if east { '+' } else { '-' }];
    let offset = sign + zero_padded(oh, 2) + seq![':'] + zero_padded(om, 2);
    let rest = seq!['.'] + fraction + offset;
    let t = date_time_text(y, mo, d, h, mi, s) + rest;
    assert(t =~= date_time_text(y, mo, d, h, mi, s) + seq!['.'] + fraction + seq![if east { '+' } else { '-' }]
        + zero_padded(oh, 2) + seq![':'] + zero_padded(om, 2));
    lemma_parse_padded2(oh);
    lemma_parse_padded2(om);
    lemma_padded_digits(om);
    lemma_fields_of_text(y, mo, d, h, mi, s, rest);
    let n: int = fraction.len() as int;
    assert(t.len() == 26 + n);
    assert(t[19] == rest[0]);
    assert forall|k: int| 20 <= k < 20 + n implies is_digit(#[trigger] t[k]) by {
        assert(t[k] == rest[k - 19]);
        assert(rest[k - 19] == fraction[k - 20]);
    }
    assert(t[20 + n] == rest[1 + n]);
    assert(rest[1 + n] == offset[0]);
    assert(t[23 + n] == rest[4 + n]);
    assert(rest[4 + n] == offset[3]);
    assert(t[25 + n] == rest[6 + n]);
    lemma_digit_run(t, 20, 20 + n);
    assert(offset_start(t) == 20 + n);
    assert(t.subrange(21 + n, 23 + n) =~= zero_padded(oh, 2));
    assert(t.subrange(24 + n, 26 + n) =~= zero_padded(om, 2));
    lemma_trim_unchanged(t);
    lemma_offset_instant(y, mo, d, h, mi, s, east, oh, om);
}

/// Only a calendar date with a time of day is read: a UTC timestamp
/// spelled with two-digit fields is accepted exactly when the day lies in
/// its month, the hour is below 24, the minute below 60 and the second at
/// most 60 (a leap second).
pub proof fn lemma_only_real_times_are_read(y: int, mo: int, d: int, h: int, mi: int, s: int)
    requires
        0 <= y <= 9999,
        0 <= mo <= 99,
        0 <= d <= 99,
        0 <= h <= 99,
        0 <= mi <= 99,
        0 <= s <= 99,
    ensures
        rfc3339_instant(utc_timestamp(y, mo, d, h, mi, s)) is Some <==> (1 <= mo <= 12 && 1 <= d
            <= days_in_month(y, mo) && h < 24 && mi < 60 && s <= 60),
{
    let t = utc_timestamp(y, mo, d, h, mi, s);
    lemma_fields_of_text(y, mo, d, h, mi, s, seq!['Z']);
    assert(t[19] == 'Z');
    lemma_trim_unchanged(t);
    assert(offset_start(t) == 19);
}

/// The separator `T` and the zone `Z` may be written in lower case.
pub proof fn lemma_lower_case_separators(y: int, mo: int, d: int, h: int, mi: int, s: int)
    requires
        0 <= y <= 9999,
        0 <= mo <= 99,
        0 <= d <= 99,
        0 <= h <= 99,
        0 <= mi <= 99,
        0 <= s <= 99,
    ensures
        rfc3339_instant(utc_timestamp(y, mo, d, h, mi, s).update(10, 't').update(19, 'z'))
            == rfc3339_instant(utc_timestamp(y, mo, d, h, mi, s)),
{
    let t = utc_timestamp(y, mo, d, h, mi, s);
    let u = t.update(10, 't').update(19, 'z');
    lemma_fields_of_text(y, mo, d, h, mi, s, seq!['Z']);
    lemma_padded_digits(y);
    assert(t[19] == 'Z');
    lemma_trim_unchanged(t);
    lemma_trim_unchanged(u);
    assert(u.subrange(0, 4) =~= t.subrange(0, 4));
    assert(u.subrange(5, 7) =~= t.subrange(5, 7));
    assert(u.subrange(8, 10) =~= t.subrange(8, 10));
    assert(u.subrange(11, 13) =~= t.subrange(11, 13));
    assert(u.subrange(14, 16) =~= t.subrange(14, 16));
    assert(u.subrange(17, 19) =~= t.subrange(17, 19));
    assert(offset_start(t) == 19);
    assert(offset_start(u) == 19);
}

} // verus!
