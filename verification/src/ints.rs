//! Strict reading of a numeric token as a signed integer: the whole token
//! must be an optionally-signed run of decimal digits whose value fits the
//! target width.

use vstd::prelude::*;
use crate::chars::{all_digits, digits_val, lemma_digits_val_nonneg, parse_digits};

verus! {

/// The token is an optionally-negated nonempty run of decimal digits.
pub open spec fn is_int_token(s: Seq<char>) -> bool {
    if s.len() >= 1 && s[0] == '-' {
        s.len() >= 2 && all_digits(s.skip(1))
    } else {
        s.len() >= 1 && all_digits(s)
    }
}

/// The integer the token denotes.
pub open spec fn int_token_val(s: Seq<char>) -> int {
    if s.len() >= 1 && s[0] == '-' {
        -digits_val(s.skip(1))
    } else {
        digits_val(s)
    }
}

/// Reads `s` as a signed 64-bit integer. `None` exactly when `s` is not an
/// integer token or its value does not fit in `i64`.
pub fn parse_int_token(s: &str) -> (r: Option<i64>)
    ensures
        r is Some <==> (is_int_token(s@) && i64::MIN <= int_token_val(s@) <= i64::MAX),
        r matches Some(v) ==> v == int_token_val(s@),
{
    let n = s.unicode_len();
    let neg = n > 0 && s.get_char(0) == '-';
    let start: usize = if neg { 1 } else { 0 };
    if n <= start {
        return None;
    }
    let ghost digits = if neg { s@.skip(1) } else { s@ };
    proof {
        assert(digits =~= s@.subrange(start as int, n as int));
    }
    let mag = match parse_digits(s, start, n) {
        Some(m) => m,
        None => {
            proof {
                if all_digits(digits) {
                    // the magnitude exceeds u64::MAX, so it cannot fit i64
                    lemma_digits_val_nonneg(digits);
                }
            }
            return None;
        },
    };
    if neg {
        if mag > 9_223_372_036_854_775_808u64 {
            return None;
        }
        if mag == 9_223_372_036_854_775_808u64 {
            return Some(i64::MIN);
        }
        Some(-(mag as i64))
    } else {
        if mag > 9_223_372_036_854_775_807u64 {
            return None;
        }
        Some(mag as i64)
    }
}

/// Reads `s` as a signed 32-bit integer. `None` exactly when `s` is not an
/// integer token or its value does not fit in `i32`.
pub fn parse_int32_token(s: &str) -> (r: Option<i32>)
    ensures
        r is Some <==> (is_int_token(s@) && i32::MIN <= int_token_val(s@) <= i32::MAX),
        r matches Some(v) ==> v == int_token_val(s@),
{
    match parse_int_token(s) {
        Some(v) => {
            if i32::MIN as i64 <= v && v <= i32::MAX as i64 {
                Some(v as i32)
            } else {
                None
            }
        },
        None => None,
    }
}

} // verus!
