//! Decimal numbers of JSON documents, converted to whole units of a finer scale.

use vstd::prelude::*;
use vstd::string::*;

verus! {

/// Most significant digits a number may have.
pub const MAX_DIGITS: usize = 38;

/// Most digits of an exponent.
pub const MAX_EXPONENT_DIGITS: usize = 4;

/// `x`, or the largest `u64` where `x` exceeds it.
pub open spec fn clamp_u64(x: int) -> int {
    if x > u64::MAX {
        u64::MAX as int
    } else {
        x
    }
}

/// Ten to the power `n`.
pub open spec fn pow10(n: nat) -> int
    decreases n,
{
    if n == 0 {
        1
    } else {
        10 * pow10((n - 1) as nat)
    }
}

proof fn lemma_pow10_positive(n: nat)
    ensures
        pow10(n) >= 1,
    decreases n,
{
    if n > 0 {
        lemma_pow10_positive((n - 1) as nat);
    }
}

proof fn lemma_pow10_increases(a: nat, b: nat)
    requires
        a <= b,
    ensures
        pow10(a) <= pow10(b),
    decreases b,
{
    if a < b {
        lemma_pow10_increases(a, (b - 1) as nat);
        lemma_pow10_positive((b - 1) as nat);
    }
}

proof fn lemma_pow10_adds(a: nat, b: nat)
    ensures
        pow10(a + b) == pow10(a) * pow10(b),
    decreases b,
{
    if b > 0 {
        lemma_pow10_adds(a, (b - 1) as nat);
        assert(pow10(a + b) == 10 * pow10((a + b - 1) as nat));
        assert(pow10(a) * (10 * pow10((b - 1) as nat)) == 10 * (pow10(a) * pow10((b - 1) as nat)))
            by (nonlinear_arith);
    }
}

pub open spec fn is_digit(c: char) -> bool {
    '0' <= c && c <= '9'
}

/// The value of a string of decimal digits.
pub open spec fn digits_value(s: Seq<char>) -> int
    decreases s.len(),
{
    if s.len() == 0 {
        0
    } else {
        10 * digits_value(s.drop_last()) + (s.last() as int - '0' as int)
    }
}

/// Number of consecutive digits of `s` starting at `i`.
pub open spec fn digit_run(s: Seq<char>, i: int) -> int
    decreases s.len() - i,
{
    if 0 <= i < s.len() && is_digit(s[i]) {
        1 + digit_run(s, i + 1)
    } else {
        0
    }
}

/// A number `-? int (. frac)? ([eE] [+-]? exp)?` read as its sign, the
/// integer formed by all its significand digits, and the power of ten that
/// scales it; `None` when `s` is not such a number, has more than
/// `MAX_DIGITS` significand digits or more than `MAX_EXPONENT_DIGITS`
/// exponent digits.
pub open spec fn decimal_of(s: Seq<char>) -> Option<(bool, int, int)> {
    let a: int = if s.len() > 0 && s[0] == '-' { 1 } else { 0 };
    let ni = digit_run(s, a);
    let b = a + ni;
    let has_frac = b < s.len() && s[b] == '.';
    let nf = if has_frac { digit_run(s, b + 1) } else { 0 };
    let c = if has_frac { b + 1 + nf } else { b };
    let has_exp = c < s.len() && (s[c] == 'e' || s[c] == 'E');
    let signed = has_exp && c + 1 < s.len() && (s[c + 1] == '+' || s[c + 1] == '-');
    let d = if signed { c + 2 } else { c + 1 };
    let nx = if has_exp { digit_run(s, d) } else { 0 };
    let end = if has_exp { d + nx } else { c };
    if ni == 0 || (has_frac && nf == 0) || (has_exp && nx == 0) || end != s.len() || ni + nf
        > MAX_DIGITS || nx > MAX_EXPONENT_DIGITS {
        None
    } else {
        let digits = if has_frac {
            s.subrange(a, b) + s.subrange(b + 1, c)
        } else {
            s.subrange(a, b)
        };
        let ev = if has_exp { digits_value(s.subrange(d, end)) } else { 0 };
        let e = if signed && s[c + 1] == '-' { -ev } else { ev };
        Some((a == 1, digits_value(digits), e - nf))
    }
}

/// `m * 10^e` rounded towards zero, where negative numbers count as zero and
/// values beyond `u64` as its largest value.
pub open spec fn fixed_value(negative: bool, m: int, e: int) -> int {
    if negative {
        0
    } else if e >= 0 {
        clamp_u64(m * pow10(e as nat))
    } else {
        clamp_u64(m / pow10((-e) as nat))
    }
}

/// The number written `s`, in units of `10^-shift`, if `s` is a number.
pub open spec fn scaled_of(s: Seq<char>, shift: int) -> Option<int> {
    match decimal_of(s) {
        Some((neg, m, e)) => Some(fixed_value(neg, m, e + shift)),
        None => None,
    }
}

/// The non-negative integer written `s` in plain digits, if it fits a `u64`.
pub open spec fn unsigned_of(s: Seq<char>) -> Option<int> {
    if s.len() > 0 && digit_run(s, 0) == s.len() && s.len() <= 20 && digits_value(s) <= u64::MAX {
        Some(digits_value(s))
    } else {
        None
    }
}

proof fn lemma_digit_run(s: Seq<char>, i: int, j: int)
    requires
        0 <= i <= j <= s.len(),
        forall|k: int| i <= k < j ==> is_digit(s[k]),
        j == s.len() || !is_digit(s[j]),
    ensures
        digit_run(s, i) == j - i,
    decreases j - i,
{
    if i < j {
        lemma_digit_run(s, i + 1, j);
    }
}

proof fn lemma_digits_bound(s: Seq<char>)
    requires
        forall|k: int| 0 <= k < s.len() ==> is_digit(s[k]),
    ensures
        0 <= digits_value(s) < pow10(s.len()),
    decreases s.len(),
{
    if s.len() > 0 {
        lemma_digits_bound(s.drop_last());
        let p = pow10((s.len() - 1) as nat);
        assert(pow10(s.len()) == 10 * p);
        assert(10 * digits_value(s.drop_last()) + 9 < 10 * p) by (nonlinear_arith)
            requires
                digits_value(s.drop_last()) < p,
        ;
    }
}

proof fn lemma_pow10_38()
    ensures
        pow10(38) == 100_000_000_000_000_000_000_000_000_000_000_000_000int,
{
    reveal_with_fuel(pow10, 39);
}

/// The first position at or after `i` that does not hold a digit.
fn scan_digits(s: &str, n: usize, i: usize) -> (j: usize)
    requires
        n == s@.len(),
        i <= n,
    ensures
        j == i + digit_run(s@, i as int),
        i <= j <= n,
        forall|k: int| i <= k < j ==> is_digit(s@[k]),
{
    let mut j = i;
    while j < n && ('0' <= s.get_char(j) && s.get_char(j) <= '9')
        invariant
            i <= j <= n,
            n == s@.len(),
            forall|k: int| i <= k < j ==> is_digit(s@[k]),
        decreases n - j,
    {
        j += 1;
    }
    proof {
        lemma_digit_run(s@, i as int, j as int);
    }
    j
}

/// Continues the value `acc` of the digits `prefix` with the digits of `s`
/// between `from` and `to`.
fn accumulate(s: &str, from: usize, to: usize, acc: u128, Ghost(prefix): Ghost<Seq<char>>) -> (r:
    u128)
    requires
        from <= to <= s@.len(),
        forall|k: int| from <= k < to ==> is_digit(s@[k]),
        forall|k: int| 0 <= k < prefix.len() ==> is_digit(prefix[k]),
        acc == digits_value(prefix),
        prefix.len() + (to - from) <= MAX_DIGITS,
    ensures
        r == digits_value(prefix + s@.subrange(from as int, to as int)),
{
    let mut v = acc;
    let mut k = from;
    proof {
        assert(prefix + s@.subrange(from as int, from as int) =~= prefix);
    }
    while k < to
        invariant
            from <= k <= to <= s@.len(),
            forall|j: int| from <= j < to ==> is_digit(s@[j]),
            forall|j: int| 0 <= j < prefix.len() ==> is_digit(prefix[j]),
            prefix.len() + (to - from) <= MAX_DIGITS,
            v == digits_value(prefix + s@.subrange(from as int, k as int)),
        decreases to - k,
    {
        let ghost cur = prefix + s@.subrange(from as int, k as int);
        let ghost next = prefix + s@.subrange(from as int, k + 1);
        proof {
            assert(next.drop_last() =~= cur);
            assert forall|j: int| 0 <= j < cur.len() implies is_digit(cur[j]) by {
                if j >= prefix.len() {
                    assert(cur[j] == s@[from + j - prefix.len()]);
                }
            }
            lemma_digits_bound(cur);
            lemma_pow10_increases(cur.len(), 37);
            lemma_pow10_38();
            assert(pow10(38) == 10 * pow10(37));
        }
        let c = s.get_char(k);
        let d = (c as u32 - '0' as u32) as u128;
        v = v * 10 + d;
        k += 1;
    }
    v
}

/// Sign, significand digits and power of ten of a number.
pub struct Decimal {
    pub negative: bool,
    pub mantissa: u128,
    pub exponent: i64,
}

/// Reads a JSON number.
#[verifier::rlimit(60)]
#[verifier::spinoff_prover]
pub fn parse_decimal(text: &str) -> (r: Option<Decimal>)
    ensures
        match decimal_of(text@) {
            Some((neg, m, e)) => r matches Some(d) && d.negative == neg && d.mantissa == m
                && d.exponent == e,
            None => r is None,
        },
        r matches Some(d) ==> -10_100 <= d.exponent <= 10_000,
{
    let s = text;
    let n = s.unicode_len();
    let a: usize = if n > 0 && s.get_char(0) == '-' {
        1
    } else {
        0
    };
    let b = scan_digits(s, n, a);
    let ni = b - a;
    let has_frac = b < n && s.get_char(b) == '.';
    let c = if has_frac {
        scan_digits(s, n, b + 1)
    } else {
        b
    };
    let nf = if has_frac {
        c - (b + 1)
    } else {
        0
    };
    let has_exp = c < n && (s.get_char(c) == 'e' || s.get_char(c) == 'E');
    let signed = has_exp && c + 1 < n && (s.get_char(c + 1) == '+' || s.get_char(c + 1) == '-');
    let d = if !has_exp {
        c
    } else if signed {
        c + 2
    } else {
        c + 1
    };
    let end = if has_exp {
        scan_digits(s, n, d)
    } else {
        c
    };
    let nx = if has_exp {
        end - d
    } else {
        0
    };
    if ni == 0 || (has_frac && nf == 0) || (has_exp && nx == 0) || end != n || ni > MAX_DIGITS
        || nf > MAX_DIGITS - ni || nx > MAX_EXPONENT_DIGITS {
        return None;
    }
    proof {
        assert(Seq::<char>::empty() + s@.subrange(a as int, b as int) =~= s@.subrange(
            a as int,
            b as int,
        ));
    }
    let int_part = accumulate(s, a, b, 0, Ghost(Seq::empty()));
    let mantissa = if has_frac {
        proof {
            assert forall|k: int| 0 <= k < s@.subrange(a as int, b as int).len() implies is_digit(
                s@.subrange(a as int, b as int)[k],
            ) by {
                assert(s@.subrange(a as int, b as int)[k] == s@[a + k]);
            }
        }
        accumulate(s, b + 1, c, int_part, Ghost(s@.subrange(a as int, b as int)))
    } else {
        int_part
    };
    let mut ev: i64 = 0;
    if has_exp {
        proof {
            assert(Seq::<char>::empty() + s@.subrange(d as int, end as int) =~= s@.subrange(
                d as int,
                end as int,
            ));
            lemma_digits_bound(s@.subrange(d as int, end as int));
            lemma_pow10_increases(nx as nat, 4);
            reveal_with_fuel(pow10, 5);
        }
        let x = accumulate(s, d, end, 0, Ghost(Seq::empty()));
        assert(x < 10_000);
        ev = x as i64;
        if signed && s.get_char(c + 1) == '-' {
            ev = -ev;
        }
    }
    Some(Decimal { negative: a == 1, mantissa, exponent: ev - nf as i64 })
}

/// `m * 10^e` rounded towards zero and kept within `u64`; 0 when negative.
pub fn to_fixed(negative: bool, m: u128, e: i64) -> (r: u64)
    requires
        -20_000 <= e <= 20_000,
    ensures
        r == fixed_value(negative, m as int, e as int),
{
    if negative {
        return 0;
    }
    let mut v: u128 = m;
    let mut t: i64 = 0;
    if e >= 0 {
        while t < e
            invariant
                !negative,
                0 <= t <= e,
                v == m * pow10(t as nat),
            decreases e - t,
        {
            if v > u64::MAX as u128 {
                proof {
                    lemma_pow10_adds(t as nat, (e - t) as nat);
                    lemma_pow10_positive((e - t) as nat);
                    assert(m * pow10(e as nat) >= v) by (nonlinear_arith)
                        requires
                            v == m * pow10(t as nat),
                            pow10(e as nat) == pow10(t as nat) * pow10((e - t) as nat),
                            pow10((e - t) as nat) >= 1,
                            m >= 0,
                    ;
                    assert(clamp_u64(m * pow10(e as nat)) == u64::MAX);
                }
                return u64::MAX;
            }
            proof {
                assert(pow10((t + 1) as nat) == 10 * pow10(t as nat));
                assert(m * (10 * pow10(t as nat)) == (m * pow10(t as nat)) * 10)
                    by (nonlinear_arith);
            }
            v = v * 10;
            t += 1;
        }
    } else {
        while t < -e
            invariant
                !negative,
                -20_000 <= e < 0,
                0 <= t <= -e,
                v == (m as int) / pow10(t as nat),
            decreases -e - t,
        {
            proof {
                lemma_pow10_positive(t as nat);
                assert(pow10((t + 1) as nat) == pow10(t as nat) * 10);
                vstd::arithmetic::div_mod::lemma_div_denominator(m as int, pow10(t as nat), 10);
            }
            v = v / 10;
            t += 1;
        }
    }
    if v > u64::MAX as u128 {
        u64::MAX
    } else {
        v as u64
    }
}

/// The number written `text` in units of `10^-shift`, if `text` is a number.
pub fn parse_scaled(text: &str, shift: i64) -> (r: Option<u64>)
    requires
        0 <= shift <= 9,
    ensures
        match scaled_of(text@, shift as int) {
            Some(v) => r == Some(v as u64),
            None => r is None,
        },
{
    match parse_decimal(text) {
        Some(d) => {
            let v = to_fixed(d.negative, d.mantissa, d.exponent + shift);
            Some(v)
        },
        None => None,
    }
}

/// The non-negative integer written `text` in plain digits, if it fits a `u64`.
pub fn parse_unsigned(text: &str) -> (r: Option<u64>)
    ensures
        match unsigned_of(text@) {
            Some(v) => r == Some(v as u64),
            None => r is None,
        },
{
    let n = text.unicode_len();
    if n == 0 || n > 20 {
        return None;
    }
    let e = scan_digits(text, n, 0);
    if e != n {
        return None;
    }
    proof {
        assert(Seq::<char>::empty() + text@.subrange(0, n as int) =~= text@);
    }
    let v = accumulate(text, 0, n, 0, Ghost(Seq::empty()));
    if v > u64::MAX as u128 {
        None
    } else {
        Some(v as u64)
    }
}

} // verus!
