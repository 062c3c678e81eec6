//! Lenient timespan coercion: a duration string of the shape
//! `[-][d.]hh:mm:ss` with an optional fractional-second part of one to nine
//! digits is turned into total nanoseconds; anything malformed, or out of
//! the 64-bit range, becomes null.

use vstd::prelude::*;
use crate::chars::{
    all_digits, digits_val, is_digit, lemma_digits_val_nonneg, lemma_pow10_add, lemma_pow10_pos,
    lemma_pow10_values, parse_digits, parse_field, pow10, pow10_exec,
};

verus! {

/// Length of the run of digits at the head of `s`.
pub open spec fn digit_run_len(s: Seq<char>) -> int
    decreases s.len(),
{
    if s.len() == 0 || !is_digit(s[0]) {
        0
    } else {
        1 + digit_run_len(s.skip(1))
    }
}

/// Conversely, a digit prefix bounded by a non-digit (or the end) pins the
/// head run's length.
pub proof fn lemma_digit_run_is(s: Seq<char>, k: int)
    requires
        0 <= k <= s.len(),
        forall|i: int| 0 <= i < k ==> is_digit(#[trigger] s[i]),
        k < s.len() ==> !is_digit(s[k]),
    ensures
        digit_run_len(s) == k,
    decreases s.len(),
{
    if s.len() == 0 || !is_digit(s[0]) {
    } else {
        assert(forall|i: int| 0 <= i < s.len() - 1 ==> s.skip(1)[i] == s[i + 1]);
        lemma_digit_run_is(s.skip(1), k - 1);
    }
}

/// The cell denotes a negative duration.
pub open spec fn ts_neg(s: Seq<char>) -> bool {
    s.len() > 0 && s[0] == '-'
}

/// The duration with any leading sign removed.
pub open spec fn ts_body(s: Seq<char>) -> Seq<char> {
    if ts_neg(s) {
        s.skip(1)
    } else {
        s
    }
}

/// A day count is present before `hh:mm:ss` (it is absent exactly when the
/// string starts with a two-digit run followed by a colon).
pub open spec fn ts_has_days(r: Seq<char>) -> bool {
    !(digit_run_len(r) == 2 && r.len() >= 3 && r[2] == ':')
}

/// Index where the `hh` field starts.
pub open spec fn ts_hh_start(r: Seq<char>) -> int {
    if ts_has_days(r) {
        digit_run_len(r) + 1
    } else {
        0
    }
}

/// The day count (0 when absent).
pub open spec fn ts_days(r: Seq<char>) -> int {
    if ts_has_days(r) {
        digits_val(r.subrange(0, digit_run_len(r)))
    } else {
        0
    }
}

pub open spec fn ts_hour(r: Seq<char>) -> int {
    digits_val(r.subrange(ts_hh_start(r), ts_hh_start(r) + 2))
}

pub open spec fn ts_minute(r: Seq<char>) -> int {
    digits_val(r.subrange(ts_hh_start(r) + 3, ts_hh_start(r) + 5))
}

pub open spec fn ts_second(r: Seq<char>) -> int {
    digits_val(r.subrange(ts_hh_start(r) + 6, ts_hh_start(r) + 8))
}

/// The fractional part scaled to nanoseconds.
pub open spec fn ts_frac_ns(r: Seq<char>) -> int {
    let p = ts_hh_start(r);
    if r.len() == p + 8 {
        0
    } else {
        digits_val(r.subrange(p + 9, r.len() as int)) * pow10((9 - (r.len() - (p + 9))) as nat)
    }
}

/// The (unsigned) duration body has the accepted shape.
pub open spec fn ts_format_ok(r: Seq<char>) -> bool {
    let dl = digit_run_len(r);
    let p = ts_hh_start(r);
    &&& (ts_has_days(r) ==> 1 <= dl && dl < r.len() && r[dl] == '.')
    &&& r.len() >= p + 8
    &&& all_digits(r.subrange(p, p + 2))
    &&& r[p + 2] == ':'
    &&& all_digits(r.subrange(p + 3, p + 5))
    &&& r[p + 5] == ':'
    &&& all_digits(r.subrange(p + 6, p + 8))
    &&& (r.len() == p + 8 || (r[p + 8] == '.' && p + 10 <= r.len() <= p + 18 && all_digits(
        r.subrange(p + 9, r.len() as int),
    )))
}

/// The time-of-day fields are in range.
pub open spec fn ts_parts_ok(r: Seq<char>) -> bool {
    ts_hour(r) <= 23 && ts_minute(r) <= 59 && ts_second(r) <= 59
}

/// A well-formed duration string.
pub open spec fn is_timespan(s: Seq<char>) -> bool {
    ts_format_ok(ts_body(s)) && ts_parts_ok(ts_body(s))
}

/// Total nanoseconds of the unsigned body.
pub open spec fn ts_mag_ns(r: Seq<char>) -> int {
    (ts_days(r) * 86400 + ts_hour(r) * 3600 + ts_minute(r) * 60 + ts_second(r)) * 1_000_000_000
        + ts_frac_ns(r)
}

/// The signed total-nanosecond value a well-formed duration denotes.
pub open spec fn timespan_nanos(s: Seq<char>) -> int {
    if ts_neg(s) {
        -ts_mag_ns(ts_body(s))
    } else {
        ts_mag_ns(ts_body(s))
    }
}

/// What one timespan cell materializes to: the total-nanosecond count when
/// the string is well formed and the count fits in `i64`, null otherwise.
pub open spec fn timespan_cell_value(s: Seq<char>) -> Option<i64> {
    if is_timespan(s) && i64::MIN <= timespan_nanos(s) <= i64::MAX {
        Option::Some(timespan_nanos(s) as i64)
    } else {
        Option::None
    }
}

/// A well-formed duration's magnitude is at least its day part in
/// nanoseconds.
proof fn lemma_mag_ge_days(r: Seq<char>)
    requires
        ts_format_ok(r),
    ensures
        ts_mag_ns(r) >= ts_days(r) * 86400 * 1_000_000_000,
{
    let p = ts_hh_start(r);
    lemma_digits_val_nonneg(r.subrange(p, p + 2));
    lemma_digits_val_nonneg(r.subrange(p + 3, p + 5));
    lemma_digits_val_nonneg(r.subrange(p + 6, p + 8));
    if r.len() != p + 8 {
        lemma_digits_val_nonneg(r.subrange(p + 9, r.len() as int));
        lemma_pow10_pos((9 - (r.len() - (p + 9))) as nat);
        assert(ts_frac_ns(r) >= 0) by (nonlinear_arith)
            requires
                digits_val(r.subrange(p + 9, r.len() as int)) >= 0,
                pow10((9 - (r.len() - (p + 9))) as nat) >= 1,
                ts_frac_ns(r) == digits_val(r.subrange(p + 9, r.len() as int)) * pow10(
                    (9 - (r.len() - (p + 9))) as nat,
                ),
        ;
    }
    assert(ts_mag_ns(r) >= ts_days(r) * 86400 * 1_000_000_000) by (nonlinear_arith)
        requires
            ts_hour(r) >= 0,
            ts_minute(r) >= 0,
            ts_second(r) >= 0,
            ts_frac_ns(r) >= 0,
            ts_mag_ns(r) == (ts_days(r) * 86400 + ts_hour(r) * 3600 + ts_minute(r) * 60
                + ts_second(r)) * 1_000_000_000 + ts_frac_ns(r),
    ;
}

/// Parses one duration cell to total nanoseconds.
#[verifier::rlimit(100)]
pub fn parse_timespan(s: &str) -> (r: Option<i64>)
    ensures
        r == timespan_cell_value(s@),
{
    let n = s.unicode_len();
    let neg = n > 0 && s.get_char(0) == '-';
    let off: usize = if neg { 1 } else { 0 };
    let ghost body = ts_body(s@);
    proof {
        assert(forall|i: int| 0 <= i < n - off ==> body[i] == s@[i + off]);
        assert(body.len() == n - off);
    }
    // measure the digit run at the head of the body
    let run_end = crate::chars::scan_digits(s, off);
    let dl: usize = run_end - off;
    proof {
        assert forall|i: int| 0 <= i < dl implies is_digit(#[trigger] body[i]) by {
            assert(body[i] == s@[i + off]);
        }
        if dl < body.len() {
            assert(body[dl as int] == s@[dl + off]);
        }
        lemma_digit_run_is(body, dl as int);
    }
    let days: u64;
    let p: usize;
    if dl == 2 && n - off >= 3 && s.get_char(off + 2) == ':' {
        days = 0;
        p = 0;
        proof {
            assert(!ts_has_days(body));
        }
    } else {
        proof {
            assert(ts_has_days(body));
        }
        if dl < 1 || off + dl >= n {
            return None;
        }
        if s.get_char(off + dl) != '.' {
            return None;
        }
        let ghost dseq = body.subrange(0, dl as int);
        proof {
            assert(dseq =~= s@.subrange(off as int, (off + dl) as int));
            assert(all_digits(dseq));
            lemma_digits_val_nonneg(dseq);
        }
        match parse_digits(s, off, off + dl) {
            Some(v) => {
                days = v;
            },
            None => {
                // the day count alone exceeds u64::MAX nanoseconds-wise
                proof {
                    if is_timespan(s@) {
                        lemma_mag_ge_days(body);
                        assert(ts_days(body) * 86400 * 1_000_000_000 > i64::MAX)
                            by (nonlinear_arith)
                            requires
                                ts_days(body) > u64::MAX,
                        ;
                    }
                }
                return None;
            },
        }
        p = dl + 1;
    }
    if days > 200_000 {
        proof {
            if is_timespan(s@) {
                lemma_mag_ge_days(body);
                assert(ts_days(body) * 86400 * 1_000_000_000 > i64::MAX) by (nonlinear_arith)
                    requires
                        ts_days(body) > 200_000,
                ;
            }
        }
        return None;
    }
    // hh:mm:ss at body position p
    let q: usize = off + p;
    if n - q < 8 {
        return None;
    }
    proof {
        assert(body.subrange(p as int, p + 2) =~= s@.subrange(q as int, q + 2));
        assert(body.subrange(p + 3, p + 5) =~= s@.subrange(q + 3, q + 5));
        assert(body.subrange(p + 6, p + 8) =~= s@.subrange(q + 6, q + 8));
    }
    let h = match parse_field(s, q, q + 2) {
        Some(v) => v,
        None => { return None },
    };
    if s.get_char(q + 2) != ':' {
        return None;
    }
    let mi = match parse_field(s, q + 3, q + 5) {
        Some(v) => v,
        None => { return None },
    };
    if s.get_char(q + 5) != ':' {
        return None;
    }
    let sec = match parse_field(s, q + 6, q + 8) {
        Some(v) => v,
        None => { return None },
    };
    proof {
        lemma_pow10_values();
    }
    let frac: u64;
    if n == q + 8 {
        frac = 0;
    } else {
        if s.get_char(q + 8) != '.' {
            return None;
        }
        let flen: usize = n - (q + 9);
        if flen < 1 || flen > 9 {
            return None;
        }
        proof {
            assert(body.subrange(p + 9, body.len() as int) =~= s@.subrange(q + 9, n as int));
        }
        let fv = match parse_field(s, q + 9, n) {
            Some(v) => v,
            None => { return None },
        };
        let mult = pow10_exec(9 - flen);
        proof {
            lemma_pow10_pos((9 - flen) as nat);
            lemma_pow10_add((flen) as nat, (9 - flen) as nat);
            assert(fv * mult < pow10(flen as nat) * pow10((9 - flen) as nat)) by (nonlinear_arith)
                requires
                    fv < pow10(flen as nat),
                    mult == pow10((9 - flen) as nat),
                    mult >= 1,
                    fv >= 0,
            ;
        }
        frac = fv * mult;
    }
    if h > 23 || mi > 59 || sec > 59 {
        return None;
    }
    let secs: u64 = days * 86400 + h * 3600 + mi * 60 + sec;
    let mag: i128 = secs as i128 * 1_000_000_000 + frac as i128;
    let val: i128 = if neg {
        -mag
    } else {
        mag
    };
    proof {
        assert(val == timespan_nanos(s@));
    }
    if val < i64::MIN as i128 || val > i64::MAX as i128 {
        return None;
    }
    Some(val as i64)
}

} // verus!
