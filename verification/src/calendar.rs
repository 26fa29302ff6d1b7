//! Proleptic Gregorian calendar: the date of a Unix timestamp as ISO text, and
//! the text of a tool's output cut to a byte budget.
use vstd::prelude::*;
use vstd::string::StringSliceAdditionalSpecFns;
use crate::text::{
    chars_of, signed_padded, signed_padded_exec, zero_pad, zero_pad_exec, decimal, decimal_exec, append_chars,
    string_of,
};

verus! {

pub open spec fn is_leap_year(y: int) -> bool {
    (y % 4 == 0 && y % 100 != 0) || y % 400 == 0
}

pub open spec fn month_length(y: int, m: int) -> int {
    if m == 2 {
        if is_leap_year(y) { 29 } else { 28 }
    } else if m == 4 || m == 6 || m == 9 || m == 11 {
        30
    } else {
        31
    }
}

/// Days of the year before the first of month `m`.
pub open spec fn days_before_month(y: int, m: int) -> int {
    let base: int = if m == 1 {
        0
    } else if m == 2 {
        31
    } else if m == 3 {
        59
    } else if m == 4 {
        90
    } else if m == 5 {
        120
    } else if m == 6 {
        151
    } else if m == 7 {
        181
    } else if m == 8 {
        212
    } else if m == 9 {
        243
    } else if m == 10 {
        273
    } else if m == 11 {
        304
    } else {
        334
    };
    base + if m > 2 && is_leap_year(y) { 1int } else { 0 }
}

/// Leap days from 1970-01-01 up to the start of year `y` (negative before 1970).
pub open spec fn leap_days_before(y: int) -> int {
    (y - 1) / 4 - (y - 1) / 100 + (y - 1) / 400 - 477
}

/// Days from 1970-01-01 to the given date (negative before it).
pub open spec fn days_from_civil(y: int, m: int, d: int) -> int {
    365 * (y - 1970) + leap_days_before(y) + days_before_month(y, m) + d - 1
}

pub open spec fn valid_date(y: int, m: int, d: int) -> bool {
    1 <= m <= 12 && 1 <= d <= month_length(y, m)
}

/// `a / b` rounded toward zero, as integer division in Rust does.
pub open spec fn trunc_div(a: int, b: int) -> int {
    if a >= 0 {
        a / b
    } else {
        -((-a) / b)
    }
}

/// `YYYY-MM-DD`: the year padded to four characters (sign included), month and day to two.
pub open spec fn date_text(y: int, m: int, d: int) -> Seq<char> {
    signed_padded(y, 4) + "-"@ + zero_pad(decimal(m as nat), 2) + "-"@ + zero_pad(decimal(d as nat), 2)
}

/// Days since year 0, March 1, at the start of year-of-era `k` (March-based).
pub open spec fn era_year_start(k: int) -> int {
    365 * k + k / 4 - k / 100
}

proof fn lemma_year_of_era(doe: int)
    requires
        0 <= doe < 146097,
    ensures
        ({
            let yoe = (doe - doe / 1460 + doe / 36524 - doe / 146096) / 365;
            &&& 0 <= yoe < 400
            &&& era_year_start(yoe) <= doe
            &&& doe - era_year_start(yoe) <= 365
            &&& (doe - era_year_start(yoe) == 365 ==> (yoe + 1) % 4 == 0 && ((yoe + 1) % 100 != 0 || yoe == 399))
        }),
{
}

/// Month and day from the day of a March-based year.
proof fn lemma_month_of_year(doy: int, leap_feb: bool)
    requires
        0 <= doy <= 365,
        doy == 365 ==> leap_feb,
    ensures
        ({
            let mp = (5 * doy + 2) / 153;
            let d = doy - (153 * mp + 2) / 5 + 1;
            let m = if mp < 10 { mp + 3 } else { mp - 9 };
            &&& 0 <= mp <= 11
            &&& 1 <= m <= 12
            &&& 1 <= d
            &&& (m != 2 ==> d <= (if m == 4 || m == 6 || m == 9 || m == 11 { 30int } else { 31 }))
            &&& (m == 2 ==> d <= (if leap_feb { 29int } else { 28 }))
        }),
{
}

proof fn lemma_civil_days(
    days: int,
    era: int,
    doe: int,
    yoe: int,
    doy: int,
    mp: int,
    d: int,
    m: int,
    y: int,
)
    requires
        era == (days + 719468) / 146097,
        doe == days + 719468 - era * 146097,
        yoe == (doe - doe / 1460 + doe / 36524 - doe / 146096) / 365,
        doy == doe - era_year_start(yoe),
        mp == (5 * doy + 2) / 153,
        d == doy - (153 * mp + 2) / 5 + 1,
        m == if mp < 10 { mp + 3 } else { mp - 9 },
        y == yoe + era * 400 + if m <= 2 { 1int } else { 0 },
    ensures
        valid_date(y, m, d),
        days_from_civil(y, m, d) == days,
{
    assert(0 <= doe < 146097);
    lemma_year_of_era(doe);
    let ly = yoe + era * 400 + 1;
    lemma_era_shift(yoe + 1, era);
    assert(ly == (yoe + 1) + 400 * era);
    assert(is_leap_year(ly) == ((yoe + 1) % 4 == 0 && ((yoe + 1) % 100 != 0 || (yoe + 1) % 400 == 0)));
    lemma_month_of_year(doy, is_leap_year(ly));
    lemma_days_from_civil_era(era, yoe, doy, mp, d, m, y);
}

proof fn lemma_era_shift(a: int, e: int)
    ensures
        (a + 400 * e) / 4 == a / 4 + 100 * e,
        (a + 400 * e) / 100 == a / 100 + 4 * e,
        (a + 400 * e) / 400 == a / 400 + e,
        (a + 400 * e) % 4 == a % 4,
        (a + 400 * e) % 100 == a % 100,
        (a + 400 * e) % 400 == a % 400,
{
}

/// The era-free core: within one 400-year era, the day count of the date equals
/// the March-based day count.
proof fn lemma_days_in_era(yoe: int, doy: int, mp: int, d: int, m: int, k: int)
    requires
        0 <= yoe < 400,
        0 <= doy <= 365,
        mp == (5 * doy + 2) / 153,
        0 <= mp <= 11,
        d == doy - (153 * mp + 2) / 5 + 1,
        m == if mp < 10 { mp + 3 } else { mp - 9 },
        k == yoe + if m <= 2 { 1int } else { 0 },
    ensures
        365 * k + (k - 1) / 4 - (k - 1) / 100 + (k - 1) / 400 + days_before_month(k, m) + d - 1
            == era_year_start(yoe) + doy + 59,
{
}

proof fn lemma_days_from_civil_era(era: int, yoe: int, doy: int, mp: int, d: int, m: int, y: int)
    requires
        0 <= yoe < 400,
        0 <= doy <= 365,
        mp == (5 * doy + 2) / 153,
        0 <= mp <= 11,
        d == doy - (153 * mp + 2) / 5 + 1,
        m == if mp < 10 { mp + 3 } else { mp - 9 },
        y == yoe + era * 400 + if m <= 2 { 1int } else { 0 },
    ensures
        days_from_civil(y, m, d) == era * 146097 + era_year_start(yoe) + doy - 719468,
{
    let k = yoe + if m <= 2 { 1int } else { 0 };
    lemma_era_shift(k - 1, era);
    lemma_era_shift(k, era);
    assert(y - 1 == (k - 1) + 400 * era);
    assert(y == k + 400 * era);
    assert(is_leap_year(y) == is_leap_year(k));
    assert(days_before_month(y, m) == days_before_month(k, m));
    lemma_days_in_era(yoe, doy, mp, d, m, k);
}

proof fn lemma_year_starts_increase(y1: int, y2: int)
    requires
        y1 < y2,
    ensures
        days_from_civil(y1 + 1, 1, 1) <= days_from_civil(y2, 1, 1),
{
}

proof fn lemma_within_year(y: int, m: int, d: int)
    requires
        valid_date(y, m, d),
    ensures
        days_from_civil(y, 1, 1) <= days_from_civil(y, m, d) < days_from_civil(y + 1, 1, 1),
{
}

proof fn lemma_months_ordered(y: int, m1: int, d1: int, m2: int, d2: int)
    requires
        valid_date(y, m1, d1),
        valid_date(y, m2, d2),
        m1 < m2,
    ensures
        days_from_civil(y, m1, d1) < days_from_civil(y, m2, d2),
{
}

/// Distinct calendar dates have distinct day numbers, so the date that
/// `format_ymd` writes is the only one with the timestamp's day number.
pub proof fn lemma_civil_date_unique(y1: int, m1: int, d1: int, y2: int, m2: int, d2: int)
    requires
        valid_date(y1, m1, d1),
        valid_date(y2, m2, d2),
        days_from_civil(y1, m1, d1) == days_from_civil(y2, m2, d2),
    ensures
        y1 == y2 && m1 == m2 && d1 == d2,
{
    lemma_within_year(y1, m1, d1);
    lemma_within_year(y2, m2, d2);
    if y1 < y2 {
        lemma_year_starts_increase(y1, y2);
    } else if y2 < y1 {
        lemma_year_starts_increase(y2, y1);
    } else if m1 < m2 {
        lemma_months_ordered(y1, m1, d1, m2, d2);
    } else if m2 < m1 {
        lemma_months_ordered(y1, m2, d2, m1, d1);
    }
}

/// The calendar date of day `days` after 1970-01-01, as Hinnant's civil-from-days
/// computes it.
#[verifier::spinoff_prover]
#[verifier::rlimit(40)]
fn civil_from_days(days: i64) -> (r: (i64, i64, i64))
    requires
        -200_000_000_000_000 <= days <= 200_000_000_000_000,
    ensures
        valid_date(r.0 as int, r.1 as int, r.2 as int),
        days_from_civil(r.0 as int, r.1 as int, r.2 as int) == days,
        1 <= r.1 <= 12,
        1 <= r.2 <= 31,
{
    let z = days + 719468;
    let era = if z >= 0 { z / 146097 } else { (z - 146096) / 146097 };
    assert(era == (z as int) / 146097);
    let doe = z - era * 146097;
    let yoe = (doe - doe / 1460 + doe / 36524 - doe / 146096) / 365;
    let y = yoe + era * 400;
    let doy = doe - (365 * yoe + yoe / 4 - yoe / 100);
    let mp = (5 * doy + 2) / 153;
    let d = doy - (153 * mp + 2) / 5 + 1;
    let m = if mp < 10 { mp + 3 } else { mp - 9 };
    let yyyy = if m <= 2 { y + 1 } else { y };
    proof {
        lemma_civil_days(days as int, era as int, doe as int, yoe as int, doy as int, mp as int, d as int, m as int, yyyy as int);
    }
    (yyyy, m, d)
}

/// The `YYYY-MM-DD` date (UTC) of a Unix timestamp in seconds; the day is the
/// timestamp's whole days since the epoch, counted toward zero.
pub fn format_ymd(ts: i64) -> (r: String)
    ensures
        exists|y: int, m: int, d: int|
            valid_date(y, m, d) && days_from_civil(y, m, d) == trunc_div(ts as int, 86400) && r@ == date_text(
                y,
                m,
                d,
            ),
{
    let secs_per_day: i64 = 86400;
    let days_since_epoch = ts / secs_per_day;
    assert(days_since_epoch == trunc_div(ts as int, 86400));
    let (y, m, d) = civil_from_days(days_since_epoch);
    let mut v = signed_padded_exec(y, 4);
    append_chars(&mut v, &chars_of("-"));
    append_chars(&mut v, &zero_pad_exec(&decimal_exec(m as u64), 2));
    append_chars(&mut v, &chars_of("-"));
    append_chars(&mut v, &zero_pad_exec(&decimal_exec(d as u64), 2));
    assert(v@ =~= date_text(y as int, m as int, d as int));
    string_of(&v)
}

/// A tool's output cut to `max` bytes: unchanged when it fits, else its first
/// `max` bytes followed by a note of the full byte length.
pub open spec fn truncated_text(s: &str, head: Seq<char>) -> Seq<char> {
    head + "... [truncated, "@ + decimal(s.spec_bytes().len()) + " total bytes]"@
}

/// Cuts a tool's output to `max` bytes, noting the full length. The cut must
/// fall on a character boundary.
pub fn truncate_output(s: &str, max: usize) -> (r: String)
    requires
        s.spec_bytes().len() <= usize::MAX,
        s.spec_bytes().len() <= max || vstd::utf8::is_char_boundary(s.spec_bytes(), max as int),
    ensures
        s.spec_bytes().len() <= max ==> r@ == s@,
        s.spec_bytes().len() > max ==> exists|head: Seq<char>|
            vstd::utf8::encode_utf8(head) == s.spec_bytes().subrange(0, max as int) && r@ == truncated_text(s, head),
{
    let n = s.len();
    if n <= max {
        return s.to_owned();
    }
    let (head, _) = s.split_at(max);
    let mut v = chars_of(head);
    append_chars(&mut v, &chars_of("... [truncated, "));
    append_chars(&mut v, &decimal_exec(n as u64));
    append_chars(&mut v, &chars_of(" total bytes]"));
    assert(vstd::utf8::encode_utf8(head@) == s.spec_bytes().subrange(0, max as int));
    let r = string_of(&v);
    assert(r@ == truncated_text(s, head@));
    r
}

} // verus!
