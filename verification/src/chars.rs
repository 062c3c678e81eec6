//! Decimal-digit arithmetic on character sequences: the spec-level meaning of
//! a run of ASCII digits, and a verified executable parser for such runs.

use vstd::prelude::*;

verus! {

/// An ASCII decimal digit.
pub open spec fn is_digit(c: char) -> bool {
    '0' <= c && c <= '9'
}

/// Numeric value of one digit character.
pub open spec fn digit_val(c: char) -> int {
    c as int - '0' as int
}

/// Every character of `s` is an ASCII decimal digit.
pub open spec fn all_digits(s: Seq<char>) -> bool {
    forall|i: int| 0 <= i < s.len() ==> is_digit(#[trigger] s[i])
}

/// The value of `s` read as a base-10 numeral (most significant digit first).
pub open spec fn digits_val(s: Seq<char>) -> int
    decreases s.len(),
{
    if s.len() == 0 {
        0
    } else {
        digits_val(s.drop_last()) * 10 + digit_val(s.last())
    }
}

/// 10 to the power `n`.
pub open spec fn pow10(n: nat) -> int
    decreases n,
{
    if n == 0 {
        1
    } else {
        10 * pow10((n - 1) as nat)
    }
}

pub proof fn lemma_pow10_pos(n: nat)
    ensures
        pow10(n) >= 1,
    decreases n,
{
    if n > 0 {
        lemma_pow10_pos((n - 1) as nat);
    }
}

pub proof fn lemma_pow10_mono(a: nat, b: nat)
    requires
        a <= b,
    ensures
        pow10(a) <= pow10(b),
    decreases b,
{
    if a < b {
        lemma_pow10_mono(a, (b - 1) as nat);
        lemma_pow10_pos((b - 1) as nat);
    }
}

pub proof fn lemma_pow10_add(a: nat, b: nat)
    ensures
        pow10(a + b) == pow10(a) * pow10(b),
    decreases a,
{
    if a == 0 {
    } else {
        lemma_pow10_add((a - 1) as nat, b);
        assert(pow10(a + b) == 10 * pow10((a + b - 1) as nat));
        assert(10 * (pow10((a - 1) as nat) * pow10(b)) == (10 * pow10((a - 1) as nat)) * pow10(b))
            by (nonlinear_arith);
    }
}

/// Concrete values of the powers of ten the parsers rely on.
pub proof fn lemma_pow10_values()
    ensures
        pow10(2) == 100,
        pow10(4) == 10000,
        pow10(9) == 1_000_000_000,
        pow10(18) == 1_000_000_000_000_000_000,
{
    assert(pow10(0) == 1);
    assert(pow10(1) == 10);
    assert(pow10(2) == 100);
    assert(pow10(3) == 1000);
    assert(pow10(4) == 10000);
    assert(pow10(5) == 100000);
    assert(pow10(6) == 1000000);
    assert(pow10(7) == 10000000);
    assert(pow10(8) == 100000000);
    assert(pow10(9) == 1_000_000_000);
    assert(pow10(10) == 10_000_000_000);
    assert(pow10(11) == 100_000_000_000);
    assert(pow10(12) == 1_000_000_000_000);
    assert(pow10(13) == 10_000_000_000_000);
    assert(pow10(14) == 100_000_000_000_000);
    assert(pow10(15) == 1_000_000_000_000_000);
    assert(pow10(16) == 10_000_000_000_000_000);
    assert(pow10(17) == 100_000_000_000_000_000);
    assert(pow10(18) == 1_000_000_000_000_000_000);
}

/// Computes 10^n for small n.
pub fn pow10_exec(n: usize) -> (r: u64)
    requires
        n <= 18,
    ensures
        r == pow10(n as nat),
{
    proof {
        lemma_pow10_values();
    }
    let mut i: usize = 0;
    let mut acc: u64 = 1;
    while i < n
        invariant
            0 <= i <= n <= 18,
            acc == pow10(i as nat),
        decreases n - i,
    {
        proof {
            lemma_pow10_mono((i + 1) as nat, 18);
            lemma_pow10_values();
        }
        acc = acc * 10;
        i = i + 1;
    }
    acc
}

/// Index of the first non-digit at or after `from` (the string's end counts
/// as a non-digit).
pub fn scan_digits(s: &str, from: usize) -> (r: usize)
    requires
        from <= s@.len(),
    ensures
        from <= r <= s@.len(),
        forall|k: int| from <= k < r ==> is_digit(#[trigger] s@[k]),
        r < s@.len() ==> !is_digit(s@[r as int]),
{
    let n = s.unicode_len();
    let mut i: usize = from;
    loop
        invariant_except_break
            from <= i <= n,
            n == s@.len(),
            forall|k: int| from <= k < i ==> is_digit(#[trigger] s@[k]),
        ensures
            from <= i <= n,
            n == s@.len(),
            forall|k: int| from <= k < i ==> is_digit(#[trigger] s@[k]),
            i < n ==> !is_digit(s@[i as int]),
        decreases n - i,
    {
        if i >= n {
            break ;
        }
        let c = s.get_char(i);
        if !(c >= '0' && c <= '9') {
            break ;
        }
        i = i + 1;
    }
    i
}

/// Reads the fixed-width field of `s` at `from .. to` as a number; the width
/// is small enough that the value always fits.
pub fn parse_field(s: &str, from: usize, to: usize) -> (r: Option<u64>)
    requires
        from <= to <= s@.len(),
        to - from <= 18,
    ensures
        r is Some <==> all_digits(s@.subrange(from as int, to as int)),
        r matches Some(v) ==> v == digits_val(s@.subrange(from as int, to as int)) && v < pow10(
            (to - from) as nat,
        ),
{
    proof {
        let sub = s@.subrange(from as int, to as int);
        if all_digits(sub) {
            lemma_digits_val_upper(sub);
            lemma_pow10_mono(sub.len(), 18);
            lemma_pow10_values();
        }
    }
    parse_digits(s, from, to)
}

pub proof fn lemma_digits_val_nonneg(s: Seq<char>)
    requires
        all_digits(s),
    ensures
        digits_val(s) >= 0,
    decreases s.len(),
{
    if s.len() > 0 {
        assert(all_digits(s.drop_last())) by {
            assert(forall|i: int| 0 <= i < s.len() - 1 ==> s.drop_last()[i] == s[i]);
        }
        lemma_digits_val_nonneg(s.drop_last());
    }
}

/// The numeral denoted by a digit string is below 10^(its length).
pub proof fn lemma_digits_val_upper(s: Seq<char>)
    requires
        all_digits(s),
    ensures
        digits_val(s) < pow10(s.len()),
    decreases s.len(),
{
    if s.len() > 0 {
        assert(all_digits(s.drop_last())) by {
            assert(forall|i: int| 0 <= i < s.len() - 1 ==> s.drop_last()[i] == s[i]);
        }
        lemma_digits_val_upper(s.drop_last());
        assert(digit_val(s.last()) <= 9);
    }
}

/// Extending a digit string on the right never shrinks its value.
pub proof fn lemma_digits_val_prefix_le(s: Seq<char>, i: int, j: int)
    requires
        0 <= i <= j <= s.len(),
        all_digits(s.subrange(0, j)),
    ensures
        digits_val(s.subrange(0, i)) <= digits_val(s.subrange(0, j)),
    decreases j - i,
{
    if i < j {
        let a = s.subrange(0, j - 1);
        let b = s.subrange(0, j);
        assert(a =~= b.drop_last());
        assert(all_digits(a)) by {
            assert(forall|k: int| 0 <= k < j - 1 ==> a[k] == b[k]);
        }
        lemma_digits_val_nonneg(a);
        assert(digits_val(b) == digits_val(a) * 10 + digit_val(b.last()));
        assert(digit_val(b.last()) >= 0);
        assert(digits_val(a) <= digits_val(a) * 10) by (nonlinear_arith)
            requires
                digits_val(a) >= 0,
        ;
        lemma_digits_val_prefix_le(s, i, j - 1);
    }
}

/// Reads the characters of `s` at positions `from .. to` as a base-10 numeral.
/// Returns `None` when the range holds a non-digit or the value would not fit
/// in `u64`.
pub fn parse_digits(s: &str, from: usize, to: usize) -> (r: Option<u64>)
    requires
        from <= to <= s@.len(),
    ensures
        r is Some <==> (all_digits(s@.subrange(from as int, to as int)) && digits_val(
            s@.subrange(from as int, to as int),
        ) <= u64::MAX),
        r matches Some(v) ==> v == digits_val(s@.subrange(from as int, to as int)),
{
    let ghost whole = s@.subrange(from as int, to as int);
    let mut i: usize = from;
    let mut acc: u64 = 0;
    while i < to
        invariant
            from <= i <= to <= s@.len(),
            whole == s@.subrange(from as int, to as int),
            all_digits(s@.subrange(from as int, i as int)),
            acc == digits_val(s@.subrange(from as int, i as int)),
        decreases to - i,
    {
        let c = s.get_char(i);
        let ghost pre = s@.subrange(from as int, i as int);
        let ghost post = s@.subrange(from as int, (i + 1) as int);
        proof {
            assert(pre =~= post.drop_last());
            assert(post.last() == s@[i as int]);
        }
        if !(c >= '0' && c <= '9') {
            proof {
                assert(!is_digit(whole[i - from]));
            }
            return None;
        }
        let d: u64 = (c as u32 - '0' as u32) as u64;
        proof {
            assert(d == digit_val(s@[i as int]));
            assert(all_digits(post)) by {
                assert(forall|k: int| 0 <= k < post.len() - 1 ==> post[k] == pre[k]);
            }
        }
        if acc > (u64::MAX - d) / 10 {
            proof {
                assert(acc * 10 + d > u64::MAX) by (nonlinear_arith)
                    requires
                        acc > (u64::MAX - d) / 10,
                        d <= 9,
                        acc >= 0,
                ;
                assert(digits_val(post) > u64::MAX);
                if all_digits(whole) {
                    assert(post =~= whole.subrange(0, i + 1 - from));
                    assert(whole.subrange(0, whole.len() as int) =~= whole);
                    lemma_digits_val_prefix_le(whole, i + 1 - from, whole.len() as int);
                }
            }
            return None;
        }
        proof {
            assert(acc * 10 + d <= u64::MAX) by (nonlinear_arith)
                requires
                    acc <= (u64::MAX - d) / 10,
                    d <= 9,
                    acc >= 0,
            ;
        }
        acc = acc * 10 + d;
        i = i + 1;
    }
    proof {
        assert(s@.subrange(from as int, i as int) == whole);
    }
    Some(acc)
}

} // verus!
