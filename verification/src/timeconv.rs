//! GPS time and position conversions: NMEA RMC date/time to a Unix
//! timestamp in milliseconds, and NMEA ddmm.mmmm coordinates to decimal
//! degrees in integer form.

use vstd::prelude::*;
use crate::bytesutil::is_dec_digit;

verus! {

/// The Gregorian leap-year rule.
pub open spec fn spec_is_leap_year(year: u16) -> bool {
    (year % 4 == 0 && year % 100 != 0) || (year % 400 == 0)
}

/// Whether a year is a leap year.
pub fn is_leap_year(year: u16) -> (r: bool)
    ensures
        r == spec_is_leap_year(year),
{
    (year % 4 == 0 && year % 100 != 0) || (year % 400 == 0)
}

/// Days in a month (1-based) of a common or leap year.
pub open spec fn spec_days_in_month(leap: bool, month: int) -> u64 {
    if month == 2 {
        if leap {
            29u64
        } else {
            28u64
        }
    } else if month == 4 || month == 6 || month == 9 || month == 11 {
        30u64
    } else {
        31u64
    }
}

/// Days in the given month.
pub fn days_in_month(leap: bool, month: u16) -> (r: u64)
    ensures
        r == spec_days_in_month(leap, month as int),
{
    if month == 2 {
        if leap {
            29
        } else {
            28
        }
    } else if month == 4 || month == 6 || month == 9 || month == 11 {
        30
    } else {
        31
    }
}

/// Days of all years from 1970 up to (excluding) `year`.
pub open spec fn spec_days_to_year(year: int) -> int
    decreases year - 1970,
{
    if year <= 1970 {
        0
    } else {
        spec_days_to_year(year - 1) + if spec_is_leap_year((year - 1) as u16) {
            366int
        } else {
            365int
        }
    }
}

/// Days of all months of a year before `month` (1-based).
pub open spec fn spec_days_to_month(leap: bool, month: int) -> int
    decreases month,
{
    if month <= 1 {
        0
    } else {
        spec_days_to_month(leap, month - 1) + spec_days_in_month(leap, month - 1)
    }
}

/// The numeric value of two ASCII digits.
pub open spec fn two_digits(s: Seq<u8>, i: int) -> int {
    (s[i] - 48) * 10 + (s[i + 1] - 48)
}

/// The Unix timestamp, in milliseconds, of the moment the NMEA fields
/// describe: date `ddmmyy` and time `hhmmss.sss`. The two-digit year is
/// read in the 1970-2069 window: `yy` of 70 and above means 19yy, below
/// 70 means 20yy.
pub open spec fn spec_unix_ms(utc: Seq<u8>, date: Seq<u8>) -> int {
    let day = two_digits(date, 0);
    let month = two_digits(date, 2);
    let yy = two_digits(date, 4);
    let year = if yy >= 70 {
        1900 + yy
    } else {
        2000 + yy
    };
    let hour = two_digits(utc, 0);
    let minute = two_digits(utc, 2);
    let second = two_digits(utc, 4);
    let millis = (utc[7] - 48) * 100 + (utc[8] - 48) * 10 + (utc[9] - 48);
    let days = spec_days_to_year(year) + spec_days_to_month(spec_is_leap_year(year as u16), month)
        + day - 1;
    (days * 86400 + hour * 3600 + minute * 60 + second) * 1000 + millis
}

/// Well-formed NMEA date and time fields: digits where the conversion
/// reads, a day of at least 1 and a month between 1 and 12.
pub open spec fn nmea_fields_wf(utc: Seq<u8>, date: Seq<u8>) -> bool {
    &&& utc.len() >= 10
    &&& date.len() >= 6
    &&& forall|i: int| 0 <= i < 6 ==> is_dec_digit(#[trigger] date[i])
    &&& forall|i: int| 0 <= i < 6 ==> is_dec_digit(#[trigger] utc[i])
    &&& forall|i: int| 7 <= i < 10 ==> is_dec_digit(#[trigger] utc[i])
    &&& two_digits(date, 0) >= 1
    &&& 1 <= two_digits(date, 2) <= 12
}

/// Bound on the day count: at most 366 days accrue per year.
proof fn lemma_days_to_year_bound(year: int)
    requires
        year >= 1970,
    ensures
        0 <= spec_days_to_year(year) <= 366 * (year - 1970),
    decreases year - 1970,
{
    if year > 1970 {
        lemma_days_to_year_bound(year - 1);
    }
}

/// Bound on the month-day count: at most 31 days accrue per month.
proof fn lemma_days_to_month_bound(leap: bool, month: int)
    requires
        month >= 1,
    ensures
        0 <= spec_days_to_month(leap, month) <= 31 * (month - 1),
    decreases month,
{
    if month > 1 {
        lemma_days_to_month_bound(leap, month - 1);
    }
}

/// Converts an NMEA date (`ddmmyy`, year read in the 1970-2069 window)
/// and UTC time (`hhmmss.sss`) to a Unix timestamp with millisecond
/// precision, by the proleptic Gregorian rule.
pub fn utc_date_to_unix_timestamp(utc: &[u8], date: &[u8]) -> (r: u64)
    requires
        nmea_fields_wf(utc@, date@),
    ensures
        r == spec_unix_ms(utc@, date@),
{
    let day: u16 = (date[0] - 48) as u16 * 10 + (date[1] - 48) as u16;
    let month: u16 = (date[2] - 48) as u16 * 10 + (date[3] - 48) as u16;
    let yy: u16 = (date[4] - 48) as u16 * 10 + (date[5] - 48) as u16;
    let year: u16 = if yy >= 70 {
        1900 + yy
    } else {
        2000 + yy
    };
    let hour: u16 = (utc[0] - 48) as u16 * 10 + (utc[1] - 48) as u16;
    let minute: u16 = (utc[2] - 48) as u16 * 10 + (utc[3] - 48) as u16;
    let second: u16 = (utc[4] - 48) as u16 * 10 + (utc[5] - 48) as u16;
    let millis: u16 = (utc[7] - 48) as u16 * 100 + (utc[8] - 48) as u16 * 10 + (utc[9]
        - 48) as u16;
    let mut days: u64 = 0;
    let mut y: u16 = 1970;
    proof {
        lemma_days_to_year_bound(year as int);
    }
    while y < year
        invariant
            1970 <= y,
            y <= year || y == 1970,
            1970 <= year <= 2069,
            days == spec_days_to_year(y as int),
            days <= 366 * 200,
        decreases year - y,
    {
        proof {
            lemma_days_to_year_bound(y as int);
            lemma_days_to_year_bound((y + 1) as int);
        }
        days = days + if is_leap_year(y) {
            366
        } else {
            365
        };
        y = y + 1;
    }
    let leap: bool = is_leap_year(year);
    let mut m: u16 = 1;
    let ghost days_at_year = days as int;
    while m < month
        invariant
            1 <= m,
            m <= month || m == 1,
            month <= 12,
            leap == spec_is_leap_year(year as u16),
            days == days_at_year + spec_days_to_month(leap, m as int),
            days_at_year <= 366 * 200,
            days <= days_at_year + 31 * 12,
        decreases month - m,
    {
        proof {
            lemma_days_to_month_bound(leap, m as int);
            lemma_days_to_month_bound(leap, (m + 1) as int);
        }
        days = days + days_in_month(leap, m);
        m = m + 1;
    }
    let days_total: u64 = days + day as u64 - 1;
    let timestamp: u64 = days_total * 86400 + (hour as u64) * 3600 + (minute as u64) * 60
        + second as u64;
    let r: u64 = timestamp * 1000 + millis as u64;
    proof {
        assert(year as u16 == year);
    }
    r
}

/// An NMEA coordinate `ddmm.mmmm`, scaled to an integer by 10^4, converted
/// to decimal degrees scaled by 10^7: whole degrees plus minutes over 60,
/// the fraction truncated.
pub open spec fn spec_nmea_to_degrees_e7(coord_e4: u64) -> int {
    (coord_e4 as int / 1000000) * 10000000 + ((coord_e4 as int % 1000000) * 100) / 6
}

/// Converts an NMEA `ddmm.mmmm` coordinate (scaled by 10^4) to decimal
/// degrees scaled by 10^7.
pub fn nmea_to_degrees_e7(coord_e4: u64) -> (r: u64)
    requires
        coord_e4 < 100000000,
    ensures
        r == spec_nmea_to_degrees_e7(coord_e4),
{
    let deg: u64 = coord_e4 / 1000000;
    let min_e4: u64 = coord_e4 % 1000000;
    deg * 10000000 + (min_e4 * 100) / 6
}

} // verus!
