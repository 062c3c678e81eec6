//! Lenient datetime coercion: a UTC timestamp string of the shape
//! `YYYY-MM-DDThh:mm:ssZ`, optionally with a fractional-second part of one
//! to nine digits before the `Z`, is turned into nanoseconds since the Unix
//! epoch; anything malformed, or out of the 64-bit range, becomes null.

use vstd::prelude::*;
use crate::chars::{
    all_digits, digits_val, lemma_pow10_add, lemma_pow10_pos, lemma_pow10_values, parse_field,
    pow10, pow10_exec,
};

verus! {

/// Gregorian leap year.
pub open spec fn is_leap_year(y: int) -> bool {
    (y % 4 == 0 && y % 100 != 0) || y % 400 == 0
}

/// Length of month `m` (1-based) of year `y`.
pub open spec fn days_in_month(y: int, m: int) -> int {
    if m == 4 || m == 6 || m == 9 || m == 11 {
        30
    } else if m == 2 {
        if is_leap_year(y) {
            29
        } else {
            28
        }
    } else {
        31
    }
}

/// Days between 1970-01-01 and the civil date `y-m-d` (negative before the
/// epoch), by the standard era-based formula over the Gregorian calendar,
/// shifted so every intermediate quantity stays nonnegative for `y >= 0`.
pub open spec fn days_from_civil(y: int, m: int, d: int) -> int {
    let yy = if m <= 2 {
        y + 399
    } else {
        y + 400
    };
    let era = yy / 400;
    let yoe = yy % 400;
    let mp = if m > 2 {
        m - 3
    } else {
        m + 9
    };
    let doy = (153 * mp + 2) / 5 + d - 1;
    let doe = yoe * 365 + yoe / 4 - yoe / 100 + doy;
    era * 146097 + doe - 865565
}

/// The string has the accepted timestamp shape.
pub open spec fn dt_format_ok(s: Seq<char>) -> bool {
    &&& s.len() >= 20
    &&& all_digits(s.subrange(0, 4))
    &&& s[4] == '-'
    &&& all_digits(s.subrange(5, 7))
    &&& s[7] == '-'
    &&& all_digits(s.subrange(8, 10))
    &&& s[10] == 'T'
    &&& all_digits(s.subrange(11, 13))
    &&& s[13] == ':'
    &&& all_digits(s.subrange(14, 16))
    &&& s[16] == ':'
    &&& all_digits(s.subrange(17, 19))
    &&& if s.len() == 20 {
        s[19] == 'Z'
    } else {
        &&& s[19] == '.'
        &&& 22 <= s.len() <= 30
        &&& s[s.len() - 1] == 'Z'
        &&& all_digits(s.subrange(20, s.len() - 1))
    }
}

pub open spec fn dt_year(s: Seq<char>) -> int {
    digits_val(s.subrange(0, 4))
}

pub open spec fn dt_month(s: Seq<char>) -> int {
    digits_val(s.subrange(5, 7))
}

pub open spec fn dt_day(s: Seq<char>) -> int {
    digits_val(s.subrange(8, 10))
}

pub open spec fn dt_hour(s: Seq<char>) -> int {
    digits_val(s.subrange(11, 13))
}

pub open spec fn dt_minute(s: Seq<char>) -> int {
    digits_val(s.subrange(14, 16))
}

pub open spec fn dt_second(s: Seq<char>) -> int {
    digits_val(s.subrange(17, 19))
}

/// The fractional part scaled to nanoseconds.
pub open spec fn dt_frac_ns(s: Seq<char>) -> int {
    if s.len() == 20 {
        0
    } else {
        digits_val(s.subrange(20, s.len() - 1)) * pow10((9 - (s.len() - 21)) as nat)
    }
}

/// The named calendar fields form a real date and time of day.
pub open spec fn dt_parts_ok(s: Seq<char>) -> bool {
    &&& 1 <= dt_month(s) <= 12
    &&& 1 <= dt_day(s) <= days_in_month(dt_year(s), dt_month(s))
    &&& dt_hour(s) <= 23
    &&& dt_minute(s) <= 59
    &&& dt_second(s) <= 59
}

/// A well-formed timestamp string.
pub open spec fn is_datetime(s: Seq<char>) -> bool {
    dt_format_ok(s) && dt_parts_ok(s)
}

/// Nanoseconds since the Unix epoch denoted by a well-formed timestamp.
pub open spec fn datetime_nanos(s: Seq<char>) -> int {
    (days_from_civil(dt_year(s), dt_month(s), dt_day(s)) * 86400 + dt_hour(s) * 3600 + dt_minute(s)
        * 60 + dt_second(s)) * 1_000_000_000 + dt_frac_ns(s)
}

/// What one datetime cell materializes to: the nanosecond count when the
/// string is well formed and the count fits in `i64`, null otherwise.
pub open spec fn datetime_cell_value(s: Seq<char>) -> Option<i64> {
    if is_datetime(s) && i64::MIN <= datetime_nanos(s) <= i64::MAX {
        Option::Some(datetime_nanos(s) as i64)
    } else {
        Option::None
    }
}

/// Length of month `m` of year `y`.
pub fn days_in_month_exec(y: u64, m: u64) -> (r: u64)
    requires
        1 <= m <= 12,
    ensures
        r == days_in_month(y as int, m as int),
{
    if m == 4 || m == 6 || m == 9 || m == 11 {
        30
    } else if m == 2 {
        if (y % 4 == 0 && y % 100 != 0) || y % 400 == 0 {
            29
        } else {
            28
        }
    } else {
        31
    }
}

/// Parses one timestamp cell to nanoseconds since the Unix epoch.
pub fn parse_datetime(s: &str) -> (r: Option<i64>)
    ensures
        r == datetime_cell_value(s@),
{
    let n = s.unicode_len();
    if n < 20 {
        return None;
    }
    if s.get_char(4) != '-' || s.get_char(7) != '-' || s.get_char(10) != 'T' || s.get_char(13)
        != ':' || s.get_char(16) != ':' {
        return None;
    }
    let y = match parse_field(s, 0, 4) {
        Some(v) => v,
        None => { return None },
    };
    let mo = match parse_field(s, 5, 7) {
        Some(v) => v,
        None => { return None },
    };
    let d = match parse_field(s, 8, 10) {
        Some(v) => v,
        None => { return None },
    };
    let h = match parse_field(s, 11, 13) {
        Some(v) => v,
        None => { return None },
    };
    let mi = match parse_field(s, 14, 16) {
        Some(v) => v,
        None => { return None },
    };
    let sec = match parse_field(s, 17, 19) {
        Some(v) => v,
        None => { return None },
    };
    proof {
        lemma_pow10_values();
    }
    let frac: u64;
    if n == 20 {
        if s.get_char(19) != 'Z' {
            return None;
        }
        frac = 0;
    } else {
        if s.get_char(19) != '.' {
            return None;
        }
        if n < 22 || n > 30 {
            return None;
        }
        if s.get_char(n - 1) != 'Z' {
            return None;
        }
        let flen: usize = n - 21;
        let fv = match parse_field(s, 20, n - 1) {
            Some(v) => v,
            None => { return None },
        };
        let mult = pow10_exec(9 - flen);
        proof {
            lemma_pow10_pos((9 - flen) as nat);
            lemma_pow10_add((flen) as nat, (9 - flen) as nat);
            assert(fv * mult < pow10(flen as nat) * pow10((9 - flen) as nat)) by (nonlinear_arith)
                requires
                    fv < pow10(flen as nat),
                    mult == pow10((9 - flen) as nat),
                    mult >= 1,
                    fv >= 0,
            ;
        }
        frac = fv * mult;
    }
    if mo < 1 || mo > 12 {
        return None;
    }
    if d < 1 || d > days_in_month_exec(y, mo) {
        return None;
    }
    if h > 23 || mi > 59 || sec > 59 {
        return None;
    }
    // era-based civil-day count, shifted to stay nonnegative
    let yy: u64 = if mo <= 2 {
        y + 399
    } else {
        y + 400
    };
    let era: u64 = yy / 400;
    let yoe: u64 = yy % 400;
    let mp: u64 = if mo > 2 {
        mo - 3
    } else {
        mo + 9
    };
    let doy: u64 = (153 * mp + 2) / 5 + d - 1;
    let doe: u64 = yoe * 365 + yoe / 4 - yoe / 100 + doy;
    let shifted: u64 = era * 146097 + doe;
    let days: i64 = shifted as i64 - 865565;
    proof {
        assert(days == days_from_civil(y as int, mo as int, d as int));
    }
    let sod: u64 = h * 3600 + mi * 60 + sec;
    let secs: i64 = days * 86400 + sod as i64;
    let nanos: i128 = secs as i128 * 1_000_000_000 + frac as i128;
    if nanos < i64::MIN as i128 || nanos > i64::MAX as i128 {
        proof {
            assert(!(i64::MIN <= datetime_nanos(s@) <= i64::MAX));
        }
        return None;
    }
    Some(nanos as i64)
}

} // verus!
