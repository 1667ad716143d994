//! Rendering of a millisecond epoch timestamp in the send-time format
//! of the wire header, `YYYYMMDD-HH:MM:SS.mmm`, from verified calendar
//! arithmetic over the proleptic Gregorian calendar in UTC.
use vstd::prelude::*;
use vstd::string::*;
use crate::text::{digits_of, u64_to_string};

verus! {

/// Whether `y` is a Gregorian leap year.
pub open spec fn is_leap(y: nat) -> bool {
    y % 4 == 0 && (y % 100 != 0 || y % 400 == 0)
}

/// The number of days in year `y`.
pub open spec fn days_in_year(y: nat) -> nat {
    if is_leap(y) {
        366
    } else {
        365
    }
}

/// The number of days in month `m` of year `y` (months counted from
/// one).
pub open spec fn days_in_month(y: nat, m: nat) -> nat {
    if m == 2 {
        if is_leap(y) {
            29
        } else {
            28
        }
    } else if m == 4 || m == 6 || m == 9 || m == 11 {
        30
    } else {
        31
    }
}

/// The year reached, and the zero-based day within it, after advancing
/// `days` whole days from the start of year `y`.
pub open spec fn year_from(y: nat, days: nat) -> (nat, nat)
    decreases days,
{
    if days >= days_in_year(y) {
        year_from(y + 1, (days - days_in_year(y)) as nat)
    } else {
        (y, days)
    }
}

/// The month reached, and the zero-based day within it, after
/// advancing `days` whole days from the start of month `m` of year
/// `y`.
pub open spec fn month_from(y: nat, m: nat, days: nat) -> (nat, nat)
    decreases 12 - m,
{
    if m < 12 && days >= days_in_month(y, m) {
        month_from(y, m + 1, (days - days_in_month(y, m)) as nat)
    } else {
        (m, days)
    }
}

/// A run of zero characters.
pub open spec fn zeros(k: nat) -> Seq<char> {
    Seq::new(k, |i: int| '0')
}

/// The decimal rendering of `n` left-padded with zeros to at least `w`
/// characters.
pub open spec fn padded_decimal(n: nat, w: nat) -> Seq<char> {
    if digits_of(n).len() >= w {
        digits_of(n)
    } else {
        zeros((w - digits_of(n).len()) as nat) + digits_of(n)
    }
}

/// The timestamp `ms` milliseconds after the epoch, rendered as
/// `YYYYMMDD-HH:MM:SS.mmm` in UTC.
pub open spec fn sending_time_of(ms: nat) -> Seq<char> {
    let ymd = year_from(1970, ms / 86400000);
    let md = month_from(ymd.0, 1, ymd.1);
    padded_decimal(ymd.0, 4) + padded_decimal(md.0, 2) + padded_decimal(md.1 + 1, 2) + "-"@
        + padded_decimal((ms / 3600000) % 24, 2) + ":"@ + padded_decimal((ms / 60000) % 60, 2)
        + ":"@ + padded_decimal((ms / 1000) % 60, 2) + "."@ + padded_decimal(ms % 1000, 3)
}

/// Returns whether `y` is a leap year.
fn is_leap_year(y: u64) -> (r: bool)
    ensures
        r == is_leap(y as nat),
{
    y % 4 == 0 && (y % 100 != 0 || y % 400 == 0)
}

/// Renders `n` in decimal, left-padded with zeros to at least `width`
/// characters.
pub fn u64_to_padded(n: u64, width: usize) -> (r: String)
    ensures
        r@ == padded_decimal(n as nat, width as nat),
{
    let digits = u64_to_string(n);
    let len: usize = digits.as_str().unicode_len();
    let mut out = String::new();
    let mut k: usize = len;
    proof {
        reveal_strlit("0");
        assert(out@ =~= zeros(0));
    }
    while k < width
        invariant
            len == digits_of(n as nat).len(),
            len <= k,
            k <= width || k == len,
            out@ =~= zeros((k - len) as nat),
        decreases width - k,
    {
        out.append("0");
        proof {
            reveal_strlit("0");
            assert(out@ =~= zeros((k + 1 - len) as nat));
        }
        k = k + 1;
    }
    out.append(digits.as_str());
    proof {
        if len >= width {
            assert(out@ =~= digits_of(n as nat));
        }
    }
    out
}

/// Renders `now_ms` milliseconds since the epoch as
/// `YYYYMMDD-HH:MM:SS.mmm` in UTC.
pub fn format_sending_time(now_ms: u64) -> (r: String)
    ensures
        r@ == sending_time_of(now_ms as nat),
{
    let days: u64 = now_ms / 86400000;
    let mut year: u64 = 1970;
    let mut rem: u64 = days;
    loop
        invariant
            days <= 0x1000000000000,
            1970 <= year,
            rem <= days,
            year - 1970 <= days - rem,
            year_from(1970, days as nat) == year_from(year as nat, rem as nat),
        ensures
            rem < days_in_year(year as nat),
            year_from(1970, days as nat) == (year as nat, rem as nat),
        decreases rem,
    {
        let diy: u64 = if is_leap_year(year) {
            366
        } else {
            365
        };
        if rem < diy {
            break;
        }
        rem = rem - diy;
        year = year + 1;
    }
    let mut month: u64 = 1;
    let mut mday: u64 = rem;
    loop
        invariant
            1 <= month <= 12,
            mday < 366,
            month_from(year as nat, 1, rem as nat) == month_from(
                year as nat,
                month as nat,
                mday as nat,
            ),
        ensures
            mday < 366,
            month_from(year as nat, 1, rem as nat) == (month as nat, mday as nat),
        decreases 12 - month,
    {
        if month >= 12 {
            break;
        }
        let dim: u64 = days_in_month_of(year, month);
        if mday < dim {
            break;
        }
        mday = mday - dim;
        month = month + 1;
    }
    let mut out = u64_to_padded(year, 4);
    let month_str = u64_to_padded(month, 2);
    out.append(month_str.as_str());
    let mday_str = u64_to_padded(mday + 1, 2);
    out.append(mday_str.as_str());
    out.append("-");
    let hour_str = u64_to_padded((now_ms / 3600000) % 24, 2);
    out.append(hour_str.as_str());
    out.append(":");
    let min_str = u64_to_padded((now_ms / 60000) % 60, 2);
    out.append(min_str.as_str());
    out.append(":");
    let sec_str = u64_to_padded((now_ms / 1000) % 60, 2);
    out.append(sec_str.as_str());
    out.append(".");
    let ms_str = u64_to_padded(now_ms % 1000, 3);
    out.append(ms_str.as_str());
    proof {
        assert(out@ =~= sending_time_of(now_ms as nat));
    }
    out
}

/// Returns the number of days in month `m` of year `y`.
fn days_in_month_of(y: u64, m: u64) -> (r: u64)
    ensures
        r == days_in_month(y as nat, m as nat),
{
    if m == 2 {
        if is_leap_year(y) {
            29
        } else {
            28
        }
    } else if m == 4 || m == 6 || m == 9 || m == 11 {
        30
    } else {
        31
    }
}

} // verus!
