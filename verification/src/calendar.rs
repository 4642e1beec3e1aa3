//! Calendar arithmetic on the proleptic Gregorian calendar: days since the
//! Unix epoch, MS-DOS date/time fields, and ISO-8601 UTC text.

use vstd::prelude::*;

use crate::text::{decimal_padded, push_char, push_decimal_padded};

verus! {

/// Days since 1970-01-01 of the civil date `y-m-d` (Howard Hinnant's
/// `days_from_civil`).
pub open spec fn days_from_civil(y: int, m: int, d: int) -> int {
    let y1 = if m <= 2 {
        y - 1
    } else {
        y
    };
    let era = y1 / 400;
    let yoe = y1 - era * 400;
    let mp = if m > 2 {
        m - 3
    } else {
        m + 9
    };
    let doy = (153 * mp + 2) / 5 + d - 1;
    let doe = yoe * 365 + yoe / 4 - yoe / 100 + doy;
    era * 146097 + doe - 719468
}

/// Civil date `(year, month, day)` of the day `z` days after 1970-01-01
/// (Howard Hinnant's `civil_from_days`).
pub open spec fn civil_from_days(z: int) -> (int, int, int) {
    let z1 = z + 719468;
    let era = z1 / 146097;
    let doe = z1 % 146097;
    let yoe = (doe - doe / 1460 + doe / 36524 - doe / 146096) / 365;
    let y = yoe + era * 400;
    let doy = doe - (365 * yoe + yoe / 4 - yoe / 100);
    let mp = (5 * doy + 2) / 153;
    let d = doy - (153 * mp + 2) / 5 + 1;
    let m = if mp < 10 {
        mp + 3
    } else {
        mp - 9
    };
    (if m <= 2 {
        y + 1
    } else {
        y
    }, m, d)
}

/// Bound on day numbers handled by [`days_to_civil`].
pub const MAX_DAYS: i64 = 200_000_000_000_000;

proof fn lemma_civil_ranges(doe: int)
    requires
        0 <= doe < 146097,
    ensures
        ({
            let yoe = (doe - doe / 1460 + doe / 36524 - doe / 146096) / 365;
            let doy = doe - (365 * yoe + yoe / 4 - yoe / 100);
            let mp = (5 * doy + 2) / 153;
            let d = doy - (153 * mp + 2) / 5 + 1;
            &&& 0 <= yoe <= 399
            &&& 0 <= doy <= 365
            &&& 0 <= mp <= 11
            &&& 1 <= d <= 31
        }),
{
    let yoe = (doe - doe / 1460 + doe / 36524 - doe / 146096) / 365;
    assert(0 <= yoe <= 399);
    let doy = doe - (365 * yoe + yoe / 4 - yoe / 100);
    assert(0 <= doy <= 365);
    let mp = (5 * doy + 2) / 153;
    assert(0 <= mp <= 11);
    let d = doy - (153 * mp + 2) / 5 + 1;
    assert(153 * mp <= 5 * doy + 2 < 153 * mp + 153);
    assert(1 <= d <= 31);
}

/// Whether `y` is a leap year of the Gregorian calendar.
pub open spec fn is_leap(y: int) -> bool {
    y % 4 == 0 && (y % 100 != 0 || y % 400 == 0)
}

/// The number of days of month `m` of year `y`.
pub open spec fn days_in_month(y: int, m: int) -> int {
    if m == 2 {
        if is_leap(y) {
            29
        } else {
            28
        }
    } else if m == 4 || m == 6 || m == 9 || m == 11 {
        30
    } else {
        31
    }
}

proof fn lemma_year_of_era(doe: int)
    requires
        0 <= doe < 146097,
    ensures
        ({
            let yoe = (doe - doe / 1460 + doe / 36524 - doe / 146096) / 365;
            let doy = doe - (365 * yoe + yoe / 4 - yoe / 100);
            let next = yoe + 1;
            doy == 365 ==> next % 4 == 0 && (next % 100 != 0 || next == 400)
        }),
{
}

/// Every day number names a real date, and that date's day number is the
/// day number itself: the month is 1 to 12, the day within the month's
/// length (29 February only in leap years).
pub proof fn lemma_civil_round_trip(z: int)
    ensures
        ({
            let (y, m, d) = civil_from_days(z);
            &&& 1 <= m <= 12
            &&& 1 <= d <= days_in_month(y, m)
            &&& days_from_civil(y, m, d) == z
        }),
{
    let z1 = z + 719468;
    let era = z1 / 146097;
    let doe = z1 % 146097;
    lemma_civil_ranges(doe);
    lemma_year_of_era(doe);
    let yoe = (doe - doe / 1460 + doe / 36524 - doe / 146096) / 365;
    let y = yoe + era * 400;
    assert(y / 400 == era && y - era * 400 == yoe) by {
        vstd::arithmetic::div_mod::lemma_fundamental_div_mod_converse(y, 400, era, yoe);
    }
    let doy = doe - (365 * yoe + yoe / 4 - yoe / 100);
    let mp = (5 * doy + 2) / 153;
    assert(153 * mp <= 5 * doy + 2 < 153 * mp + 153);
    let (yy, m, d) = civil_from_days(z);
    if mp == 11 && doy == 365 {
        assert((yoe + 1) % 4 == 0 && ((yoe + 1) % 100 != 0 || yoe + 1 == 400));
        assert(yy == yoe + 1 + era * 400);
        assert(is_leap(yy)) by {
            vstd::arithmetic::div_mod::lemma_fundamental_div_mod_converse(yy, 4, era * 100 + (yoe + 1) / 4, 0);
            if (yoe + 1) % 100 != 0 {
                vstd::arithmetic::div_mod::lemma_fundamental_div_mod_converse(
                    yy,
                    100,
                    era * 4 + (yoe + 1) / 100,
                    (yoe + 1) % 100,
                );
            } else {
                vstd::arithmetic::div_mod::lemma_fundamental_div_mod_converse(yy, 400, era + 1, 0);
            }
        }
    }
    assert(z1 == era * 146097 + doe);
}

proof fn lemma_day_of_era(yoe: int, doy: int)
    requires
        0 <= yoe <= 399,
        0 <= doy,
        doy <= 364 || (doy == 365 && (yoe + 1) % 4 == 0 && ((yoe + 1) % 100 != 0 || yoe + 1 == 400)),
    ensures
        ({
            let doe = yoe * 365 + yoe / 4 - yoe / 100 + doy;
            &&& 0 <= doe < 146097
            &&& (doe - doe / 1460 + doe / 36524 - doe / 146096) / 365 == yoe
        }),
{
}

proof fn lemma_leap_in_era(era: int, k: int)
    requires
        1 <= k <= 400,
    ensures
        is_leap(era * 400 + k) <==> (k % 4 == 0 && (k % 100 != 0 || k == 400)),
{
    let y = era * 400 + k;
    vstd::arithmetic::div_mod::lemma_mod_multiples_vanish(era * 100, k, 4);
    vstd::arithmetic::div_mod::lemma_mod_multiples_vanish(era * 4, k, 100);
    vstd::arithmetic::div_mod::lemma_mod_multiples_vanish(era, k, 400);
    assert(4 * (era * 100) + k == y);
    assert(100 * (era * 4) + k == y);
    assert(400 * era + k == y);
}

/// Every real date has a day number that names it back: for a month of 1
/// to 12 and a day within the month's length, the date of its day number
/// is the date itself.
pub proof fn lemma_days_round_trip(y: int, m: int, d: int)
    requires
        1 <= m <= 12,
        1 <= d <= days_in_month(y, m),
    ensures
        civil_from_days(days_from_civil(y, m, d)) == (y, m, d),
{
    let y1 = if m <= 2 {
        y - 1
    } else {
        y
    };
    let era = y1 / 400;
    let yoe = y1 - era * 400;
    let mp = if m > 2 {
        m - 3
    } else {
        m + 9
    };
    let doy = (153 * mp + 2) / 5 + d - 1;
    lemma_leap_in_era(era, yoe + 1);
    assert(y1 == era * 400 + yoe);
    if m == 2 {
        assert(y == era * 400 + yoe + 1);
    }
    lemma_day_of_era(yoe, doy);
    let doe = yoe * 365 + yoe / 4 - yoe / 100 + doy;
    let z1 = era * 146097 + doe;
    assert(z1 / 146097 == era && z1 % 146097 == doe) by {
        vstd::arithmetic::div_mod::lemma_fundamental_div_mod_converse(z1, 146097, era, doe);
    }
    let mp2 = (5 * doy + 2) / 153;
    assert(mp2 == mp);
}

/// Civil date of a day number (see [`civil_from_days`]).
pub fn days_to_civil(z: i64) -> (r: (i64, u32, u32))
    requires
        -MAX_DAYS <= z <= MAX_DAYS,
    ensures
        r.0 == civil_from_days(z as int).0,
        r.1 == civil_from_days(z as int).1,
        r.2 == civil_from_days(z as int).2,
        1 <= r.1 <= 12,
        1 <= r.2 <= 31,
{
    let z1 = z + 719468;
    let era = if z1 >= 0 {
        z1 / 146097
    } else {
        -((-(z1 + 1)) / 146097) - 1
    };
    let doe = z1 - era * 146097;
    assert(era == z1 as int / 146097 && doe == z1 as int % 146097);
    proof {
        lemma_civil_ranges(doe as int);
    }
    let yoe = (doe - doe / 1460 + doe / 36524 - doe / 146096) / 365;
    let y = yoe + era * 400;
    let doy = doe - (365 * yoe + yoe / 4 - yoe / 100);
    let mp = (5 * doy + 2) / 153;
    let d = doy - (153 * mp + 2) / 5 + 1;
    let m = if mp < 10 {
        mp + 3
    } else {
        mp - 9
    };
    (if m <= 2 {
        y + 1
    } else {
        y
    }, m as u32, d as u32)
}

/// Seconds since the Unix epoch of a day and a time of day.
pub open spec fn epoch_seconds(days: int, hour: int, minute: int, second: int) -> int {
    days * 86400 + hour * 3600 + minute * 60 + second
}

/// Whether an MS-DOS date/time pair denotes a time: month 1..=12, day
/// 1..=31, hour < 24, minute < 60 (a zero date is "unset").
pub open spec fn dos_valid(date: u16, time: u16) -> bool {
    &&& 1 <= (date / 32) % 16 <= 12
    &&& 1 <= date % 32
    &&& time / 2048 < 24
    &&& (time / 32) % 64 < 60
}

/// Seconds since the Unix epoch of an MS-DOS date (years since 1980,
/// month, day) and time (hour, minute, two-second units), plus
/// `tens_of_ms / 100` seconds.
pub open spec fn dos_seconds(date: u16, time: u16, tens_of_ms: u8) -> int {
    epoch_seconds(
        days_from_civil(1980 + (date as int) / 512, ((date as int) / 32) % 16, (date as int) % 32),
        (time as int) / 2048,
        ((time as int) / 32) % 64,
        ((time as int) % 32) * 2,
    ) + (tens_of_ms as int) / 100
}

/// DOS times lie between 1980 and 2108.
pub proof fn lemma_dos_seconds_bounds(date: u16, time: u16, tens_of_ms: u8)
    ensures
        0 <= dos_seconds(date, time, tens_of_ms) <= 5_000_000_000,
{
    let y = 1980 + (date as int) / 512;
    let m = ((date as int) / 32) % 16;
    let d = (date as int) % 32;
    assert(1980 <= y <= 2107);
    let y1 = if m <= 2 { y - 1 } else { y };
    let era = y1 / 400;
    assert(era == 4 || era == 5);
    let days = days_from_civil(y, m, d);
    assert(3000 <= days <= 60000);
}

/// Converts an MS-DOS date/time to Unix seconds (UTC assumed), or `None`
/// when the fields do not denote a time.
pub fn dos_datetime_to_unix(date: u16, time: u16, tens_of_ms: u8) -> (r: Option<i64>)
    ensures
        match r {
            Some(t) => dos_valid(date, time) && t == dos_seconds(date, time, tens_of_ms),
            None => !dos_valid(date, time),
        },
{
    let year = 1980 + (date / 512) as i64;
    let month = ((date / 32) % 16) as i64;
    let day = (date % 32) as i64;
    let hour = (time / 2048) as i64;
    let minute = ((time / 32) % 64) as i64;
    let second = ((time % 32) * 2) as i64;
    if month < 1 || month > 12 || day < 1 || hour >= 24 || minute >= 60 {
        return None;
    }
    let y1 = if month <= 2 {
        year - 1
    } else {
        year
    };
    let era = y1 / 400;
    let yoe = y1 - era * 400;
    let mp = if month > 2 {
        month - 3
    } else {
        month + 9
    };
    let doy = (153 * mp + 2) / 5 + day - 1;
    let doe = yoe * 365 + yoe / 4 - yoe / 100 + doy;
    let days = era * 146097 + doe - 719468;
    Some(days * 86400 + hour * 3600 + minute * 60 + second + (tens_of_ms / 100) as i64)
}

/// Floor division by a positive constant, as `div_euclid` computes it.
fn floor_div(a: i64, b: i64) -> (q: i64)
    requires
        b > 0,
    ensures
        q == a as int / b as int,
{
    if a >= 0 {
        a / b
    } else {
        let n = -(a + 1);
        let q = -(n / b) - 1;
        proof {
            let ni = n as int;
            let bi = b as int;
            let qq = ni / bi;
            let r = ni % bi;
            assert(ni == qq * bi + r && 0 <= r < bi) by (nonlinear_arith)
                requires
                    qq == ni / bi,
                    r == ni % bi,
                    bi > 0,
            ;
            assert(a as int == (-qq - 1) * bi + (bi - 1 - r)) by (nonlinear_arith)
                requires
                    ni == qq * bi + r,
                    ni == -(a + 1),
            ;
            vstd::arithmetic::div_mod::lemma_fundamental_div_mod_converse(
                a as int,
                bi,
                -qq - 1,
                bi - 1 - r,
            );
        }
        q
    }
}

/// ISO-8601 text `YYYY-MM-DDTHH:MM:SS.ffffffZ` of Unix seconds `secs` with
/// `micros` microseconds (negative years print as `-YYY`).
pub open spec fn iso8601_chars(secs: int, micros: nat) -> Seq<char> {
    let days = secs / 86400;
    let sod = secs % 86400;
    let c = civil_from_days(days);
    let year = if c.0 >= 0 {
        decimal_padded(c.0 as nat, 4)
    } else {
        seq!['-'] + decimal_padded((-c.0) as nat, 3)
    };
    year + seq!['-'] + decimal_padded(c.1 as nat, 2) + seq!['-'] + decimal_padded(c.2 as nat, 2)
        + seq!['T'] + decimal_padded((sod / 3600) as nat, 2) + seq![':'] + decimal_padded(
        ((sod % 3600) / 60) as nat,
        2,
    ) + seq![':'] + decimal_padded((sod % 60) as nat, 2) + seq!['.'] + decimal_padded(micros, 6)
        + seq!['Z']
}

/// Formats Unix seconds and microseconds as ISO-8601 UTC text.
#[verifier::spinoff_prover]
#[verifier::rlimit(40)]
pub fn iso8601_utc(secs: i64, micros: u32) -> (s: String)
    requires
        micros < 1_000_000,
    ensures
        s@ == iso8601_chars(secs as int, micros as nat),
{
    let days = floor_div(secs, 86400);
    let sod = (secs as i128 - days as i128 * 86400) as i64;
    proof {
        let si = secs as int;
        assert(si == 86400 * (si / 86400) + si % 86400 && 0 <= si % 86400 < 86400) by (
        nonlinear_arith);
    }
    assert(-MAX_DAYS <= days <= MAX_DAYS) by (nonlinear_arith)
        requires
            days == secs as int / 86400,
            i64::MIN <= secs <= i64::MAX,
    ;
    let (y, m, d) = days_to_civil(days);
    let mut s = String::new();
    if y >= 0 {
        push_decimal_padded(&mut s, y as u64, 4);
    } else {
        push_char(&mut s, '-');
        push_decimal_padded(&mut s, (-y) as u64, 3);
    }
    push_char(&mut s, '-');
    push_decimal_padded(&mut s, m as u64, 2);
    push_char(&mut s, '-');
    push_decimal_padded(&mut s, d as u64, 2);
    push_char(&mut s, 'T');
    push_decimal_padded(&mut s, (sod / 3600) as u64, 2);
    push_char(&mut s, ':');
    push_decimal_padded(&mut s, ((sod % 3600) / 60) as u64, 2);
    push_char(&mut s, ':');
    push_decimal_padded(&mut s, (sod % 60) as u64, 2);
    push_char(&mut s, '.');
    push_decimal_padded(&mut s, micros as u64, 6);
    push_char(&mut s, 'Z');
    proof {
        let year = if y >= 0 {
            decimal_padded(y as nat, 4)
        } else {
            seq!['-'] + decimal_padded((-y) as nat, 3)
        };
        assert(s@ =~= iso8601_chars(secs as int, micros as nat));
    }
    s
}

} // verus!
