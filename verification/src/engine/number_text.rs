//! Reading the decimal text of a floating-point literal: whether the
//! number it writes lies strictly between 0 and 1.

use vstd::prelude::*;
use crate::text::{all_digits, digits_value, is_ascii_digit, lemma_digits_value_grows, str_chars};

verus! {

/// The index of the first non-digit of `t` at or after `i`.
pub open spec fn digit_run(t: Seq<char>, i: int) -> int
    decreases t.len() - i,
{
    if 0 <= i < t.len() && is_ascii_digit(t[i]) {
        digit_run(t, i + 1)
    } else {
        i
    }
}

/// The parts of a decimal literal, as `str::parse::<f64>` reads one with
/// digits: an optional sign, digits with an optional `.` (at least one
/// digit in all), and an optional exponent `e` or `E` with an optional sign
/// and at least one digit.  The parts are the positions: end of the sign,
/// end of the integer digits, start and end of the fraction digits, and
/// start and end of the exponent digits (`None` for a text of another
/// form).
pub open spec fn literal_parts(t: Seq<char>) -> Option<(int, int, int, int, int, int)> {
    let a: int = if t.len() > 0 && (t[0] == '+' || t[0] == '-') { 1 } else { 0 };
    let b = digit_run(t, a);
    let c0 = if b < t.len() && t[b] == '.' { b + 1 } else { b };
    let c = digit_run(t, c0);
    if (b - a) + (c - c0) == 0 {
        None
    } else if c == t.len() {
        Some((a, b, c0, c, c, c))
    } else if t[c] == 'e' || t[c] == 'E' {
        let e0 = if c + 1 < t.len() && (t[c + 1] == '+' || t[c + 1] == '-') { c + 2 } else { c + 1 };
        let e1 = digit_run(t, e0);
        if e1 > e0 && e1 == t.len() {
            Some((a, b, c0, c, e0, e1))
        } else {
            None
        }
    } else {
        None
    }
}

/// The index, among the mantissa digits (integer digits then fraction
/// digits), of the first digit that is not `0` (`None` when all are).
pub open spec fn first_nonzero(m: Seq<char>) -> Option<int> {
    if exists|k: int| 0 <= k < m.len() && m[k] != '0' {
        Some(choose|k: int| 0 <= k < m.len() && m[k] != '0' && forall|j: int| 0 <= j < k ==> m[j] == '0')
    } else {
        None
    }
}

/// Whether the literal `t` writes a number strictly between 0 and 1: it is
/// not negative, some mantissa digit is not `0`, and its leading digit
/// stands after the decimal point once the exponent is applied.  (With
/// `n` integer digits, the leading digit at index `k` of the mantissa and
/// exponent `x`, the value lies in `[10^(n-k-1+x), 10^(n-k+x))`, so it is
/// below 1 exactly when `n - k + x <= 0`.)
pub open spec fn is_fraction_text(t: Seq<char>) -> bool {
    match literal_parts(t) {
        Some((a, b, c0, c, e0, e1)) => {
            let m = t.subrange(a, b) + t.subrange(c0, c);
            let exp_mag = digits_value(t.subrange(e0, e1)) as int;
            let exp: int = if e0 > c + 1 && t[c + 1] == '-' { -exp_mag } else { exp_mag };
            &&& !(a == 1 && t[0] == '-')
            &&& match first_nonzero(m) {
                Some(k) => (b - a) - k + exp <= 0,
                None => false,
            }
        },
        None => false,
    }
}

fn digit_run_exec(t: &[char], i: usize) -> (r: usize)
    requires
        i <= t@.len(),
    ensures
        r as int == digit_run(t@, i as int),
        i <= r <= t@.len(),
{
    let mut j = i;
    while j < t.len() && '0' <= t[j] && t[j] <= '9'
        invariant
            i <= j <= t@.len(),
            digit_run(t@, i as int) == digit_run(t@, j as int),
        decreases t@.len() - j,
    {
        j = j + 1;
    }
    j
}

proof fn lemma_digit_run_digits(t: Seq<char>, i: int)
    requires
        0 <= i <= t.len(),
    ensures
        i <= digit_run(t, i) <= t.len(),
        all_digits(t.subrange(i, digit_run(t, i))),
    decreases t.len() - i,
{
    if i < t.len() && is_ascii_digit(t[i]) {
        lemma_digit_run_digits(t, i + 1);
        let r = digit_run(t, i);
        assert forall|k: int| 0 <= k < r - i implies is_ascii_digit(#[trigger] t.subrange(i, r)[k]) by {
            if k > 0 {
                assert(t.subrange(i + 1, r)[k - 1] == t.subrange(i, r)[k]);
            }
        }
    }
}

/// The bound at which an exponent's magnitude is no longer told apart:
/// every exponent at least this large decides the same way.
spec fn exp_cap() -> int {
    0x1_0000_0000_0000_0000_0000_0000
}

/// The exponent digits `t[e0..e1]` as a number, capped at [`exp_cap`].
fn exponent_magnitude(t: &[char], e0: usize, e1: usize) -> (r: u128)
    requires
        e0 <= e1 <= t@.len(),
        all_digits(t@.subrange(e0 as int, e1 as int)),
    ensures
        r as int == if digits_value(t@.subrange(e0 as int, e1 as int)) < exp_cap() {
            digits_value(t@.subrange(e0 as int, e1 as int)) as int
        } else {
            exp_cap()
        },
{
    let cap: u128 = 0x1_0000_0000_0000_0000_0000_0000;
    let ghost ds = t@.subrange(e0 as int, e1 as int);
    let mut acc: u128 = 0;
    let mut i: usize = e0;
    while i < e1
        invariant
            e0 <= i <= e1 <= t@.len(),
            ds == t@.subrange(e0 as int, e1 as int),
            all_digits(ds),
            cap == exp_cap(),
            acc <= cap,
            acc < cap ==> acc as nat == digits_value(ds.subrange(0, i - e0)),
            acc == cap ==> digits_value(ds.subrange(0, i - e0)) >= cap,
        decreases e1 - i,
    {
        let ghost p = ds.subrange(0, i + 1 - e0);
        assert(p.drop_last() =~= ds.subrange(0, i - e0));
        assert(p.last() == ds[i - e0]);
        assert(is_ascii_digit(ds[i - e0]));
        if acc < cap {
            let d: u128 = (t[i] as u32 - '0' as u32) as u128;
            let next: u128 = acc * 10 + d;
            if next >= cap {
                acc = cap;
            } else {
                acc = next;
            }
        }
        i = i + 1;
    }
    assert(ds.subrange(0, e1 - e0) =~= ds);
    acc
}

fn literal_parts_exec(t: &[char]) -> (r: Option<(usize, usize, usize, usize, usize, usize)>)
    ensures
        match r {
            Some(p) => literal_parts(t@) == Some((p.0 as int, p.1 as int, p.2 as int, p.3 as int, p.4 as int, p.5 as int))
                && p.0 <= p.1 <= p.2 <= p.3 <= p.4 <= p.5 <= t@.len(),
            None => literal_parts(t@) is None,
        },
{
    let n = t.len();
    let a: usize = if n > 0 && (t[0] == '+' || t[0] == '-') { 1 } else { 0 };
    let b = digit_run_exec(t, a);
    let c0: usize = if b < n && t[b] == '.' { b + 1 } else { b };
    let c = digit_run_exec(t, c0);
    if (b - a) + (c - c0) == 0 {
        return None;
    }
    if c == n {
        return Some((a, b, c0, c, c, c));
    }
    if !(t[c] == 'e' || t[c] == 'E') {
        return None;
    }
    let e0: usize = if c + 1 < n && (t[c + 1] == '+' || t[c + 1] == '-') { c + 2 } else { c + 1 };
    let e1 = digit_run_exec(t, e0);
    if e1 > e0 && e1 == n {
        Some((a, b, c0, c, e0, e1))
    } else {
        None
    }
}

/// The index of the first mantissa digit (integer digits `t[a..b]`, then
/// fraction digits `t[c0..c]`) that is not `0`.
fn first_nonzero_exec(t: &[char], a: usize, b: usize, c0: usize, c: usize) -> (r: Option<usize>)
    requires
        a <= b <= c0 <= c <= t@.len(),
    ensures
        match r {
            Some(k) => first_nonzero(t@.subrange(a as int, b as int) + t@.subrange(c0 as int, c as int)) == Some(
                k as int,
            ),
            None => first_nonzero(t@.subrange(a as int, b as int) + t@.subrange(c0 as int, c as int)) is None,
        },
{
    let mut m: Vec<char> = Vec::new();
    let mut i: usize = a;
    while i < b
        invariant
            a <= i <= b <= t@.len(),
            m@ == t@.subrange(a as int, i as int),
        decreases b - i,
    {
        m.push(t[i]);
        i = i + 1;
        assert(m@ =~= t@.subrange(a as int, i as int));
    }
    i = c0;
    while i < c
        invariant
            a <= b <= c0 <= i <= c <= t@.len(),
            m@ == t@.subrange(a as int, b as int) + t@.subrange(c0 as int, i as int),
        decreases c - i,
    {
        m.push(t[i]);
        i = i + 1;
        assert(m@ =~= t@.subrange(a as int, b as int) + t@.subrange(c0 as int, i as int));
    }
    let mut k: usize = 0;
    while k < m.len() && m[k] == '0'
        invariant
            0 <= k <= m@.len(),
            forall|j: int| 0 <= j < k ==> m@[j] == '0',
        decreases m@.len() - k,
    {
        k = k + 1;
    }
    if k == m.len() {
        assert(!(exists|j: int| 0 <= j < m@.len() && m@[j] != '0'));
        return None;
    }
    proof {
        let ms = m@;
        assert(ms[k as int] != '0');
        let kk = choose|j: int| 0 <= j < ms.len() && ms[j] != '0' && forall|i: int| 0 <= i < j ==> ms[i] == '0';
        if kk < k {
            assert(ms[kk] == '0');
        } else if kk > k {
            assert(ms[k as int] == '0');
        }
    }
    Some(k)
}

/// Whether the literal `text` writes a number strictly between 0 and 1
/// (see [`is_fraction_text`]).
pub fn fraction_text(text: &str) -> (r: bool)
    ensures
        r == is_fraction_text(text@),
{
    let t = str_chars(text);
    let (a, b, c0, c, e0, e1) = match literal_parts_exec(t.as_slice()) {
        Some(p) => p,
        None => {
            return false;
        },
    };
    if a == 1 && t[0] == '-' {
        return false;
    }
    let k = match first_nonzero_exec(t.as_slice(), a, b, c0, c) {
        Some(k) => k,
        None => {
            return false;
        },
    };
    proof {
        lemma_digit_run_digits(t@, e0 as int);
        assert(e1 == c || e1 as int == digit_run(t@, e0 as int));
    }
    let mag = exponent_magnitude(t.as_slice(), e0, e1);
    let negative_exp = e0 > c && e0 - c == 2 && t[c + 1] == '-';
    let lead: i128 = (b - a) as i128 - k as i128;
    let total: i128 = if negative_exp { lead - mag as i128 } else { lead + mag as i128 };
    total <= 0
}

} // verus!
