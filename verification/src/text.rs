//! Character classification and small text utilities shared by the lexer,
//! the compiler and the prompt builders.  Strings are processed as
//! sequences of `char`s; the few std operations that vstd does not
//! specify are wrapped here.

use vstd::prelude::*;

verus! {

/// Unicode `Alphabetic || Numeric` as decided by `char::is_alphanumeric`.
pub uninterp spec fn unicode_alphanumeric(c: char) -> bool;

/// Unicode `White_Space` as decided by `char::is_whitespace`.
pub uninterp spec fn unicode_whitespace(c: char) -> bool;

pub open spec fn is_ascii_digit(c: char) -> bool {
    '0' <= c && c <= '9'
}

/// Whether every character of `ds` is an ASCII digit.
pub open spec fn all_digits(ds: Seq<char>) -> bool {
    forall|i: int| 0 <= i < ds.len() ==> is_ascii_digit(#[trigger] ds[i])
}

/// The number written by a sequence of decimal digits.
pub open spec fn digits_value(ds: Seq<char>) -> nat
    decreases ds.len(),
{
    if ds.len() == 0 {
        0
    } else {
        digits_value(ds.drop_last()) * 10 + ((ds.last() as nat) - ('0' as nat)) as nat
    }
}

/// The number a prefix of a digit sequence writes is at most the number
/// the whole sequence writes.
pub proof fn lemma_digits_value_grows(ds: Seq<char>, k: int)
    requires
        0 <= k <= ds.len(),
        forall|i: int| 0 <= i < ds.len() ==> is_ascii_digit(#[trigger] ds[i]),
    ensures
        digits_value(ds.subrange(0, k)) <= digits_value(ds),
    decreases ds.len() - k,
{
    if k < ds.len() {
        lemma_digits_value_grows(ds, k + 1);
        let p = ds.subrange(0, k + 1);
        assert(p.drop_last() =~= ds.subrange(0, k));
        assert(is_ascii_digit(p.last()));
    } else {
        assert(ds.subrange(0, k) =~= ds);
    }
}

pub open spec fn is_ascii_letter(c: char) -> bool {
    ('a' <= c && c <= 'z') || ('A' <= c && c <= 'Z')
}

/// ASCII lower-casing of one character (other characters are unchanged).
pub open spec fn ascii_lower(c: char) -> char {
    if 'A' <= c && c <= 'Z' {
        ((c as u32) + 32) as char
    } else {
        c
    }
}

pub open spec fn ascii_lower_seq(s: Seq<char>) -> Seq<char> {
    s.map_values(|c: char| ascii_lower(c))
}

/// Number of bytes `c` occupies in UTF-8.
pub open spec fn utf8_len(c: char) -> nat {
    if (c as u32) < 0x80 {
        1
    } else if (c as u32) < 0x800 {
        2
    } else if (c as u32) < 0x10000 {
        3
    } else {
        4
    }
}

/// Byte offset of the `i`-th character of `s` in its UTF-8 encoding.
pub open spec fn byte_offset(s: Seq<char>, i: int) -> nat
    decreases i,
{
    if i <= 0 || s.len() == 0 {
        0
    } else if i > s.len() {
        byte_offset(s, s.len() as int)
    } else {
        byte_offset(s, i - 1) + utf8_len(s[i - 1])
    }
}

pub proof fn lemma_byte_offset_at_least_index(s: Seq<char>, i: int)
    requires
        0 <= i <= s.len(),
    ensures
        byte_offset(s, i) >= i,
    decreases i,
{
    if i > 0 {
        lemma_byte_offset_at_least_index(s, i - 1);
    }
}

pub proof fn lemma_byte_offset_mono(s: Seq<char>, i: int, j: int)
    requires
        0 <= i <= j <= s.len(),
    ensures
        byte_offset(s, i) <= byte_offset(s, j),
    decreases j - i,
{
    if i < j {
        lemma_byte_offset_mono(s, i, j - 1);
    }
}

/// `char::is_alphanumeric`; the named result is pinned down on ASCII, where
/// exactly the letters and the digits are alphanumeric.
#[verifier::external_body]
pub(crate) fn char_is_alphanumeric(c: char) -> (r: bool)
    ensures
        r == unicode_alphanumeric(c),
        (c as u32) < 0x80 ==> (r <==> (is_ascii_letter(c) || is_ascii_digit(c))),
{
    c.is_alphanumeric()
}

/// `char::is_whitespace`; on ASCII exactly space and U+0009..U+000D are
/// whitespace.
#[verifier::external_body]
pub(crate) fn char_is_whitespace(c: char) -> (r: bool)
    ensures
        r == unicode_whitespace(c),
        (c as u32) < 0x80 ==> (r <==> (c == ' ' || (0x09 <= (c as u32) && (c as u32) <= 0x0D))),
{
    c.is_whitespace()
}

/// Whether a character is uppercase in Unicode.
pub uninterp spec fn unicode_uppercase(c: char) -> bool;

/// `char::is_uppercase`; on ASCII exactly `A` to `Z` are uppercase.
#[verifier::external_body]
pub(crate) fn char_is_uppercase(c: char) -> (r: bool)
    ensures
        r == unicode_uppercase(c),
        (c as u32) < 0x80 ==> (r <==> ('A' <= c && c <= 'Z')),
{
    c.is_uppercase()
}

/// The number of bytes of `s` in UTF-8.
pub open spec fn byte_len(s: Seq<char>) -> nat {
    byte_offset(s, s.len() as int)
}

/// Whether `s` takes more than `k` bytes in UTF-8.
pub fn bytes_exceed(s: &[char], k: usize) -> (r: bool)
    ensures
        r == (byte_len(s@) > k),
{
    let mut i: usize = 0;
    let mut bytes: usize = 0;
    while i < s.len()
        invariant
            0 <= i <= s@.len(),
            bytes == byte_offset(s@, i as int),
            bytes <= k,
        decreases s@.len() - i,
    {
        let c = s[i];
        let n: usize = if (c as u32) < 0x80 {
            1
        } else if (c as u32) < 0x800 {
            2
        } else if (c as u32) < 0x10000 {
            3
        } else {
            4
        };
        assert(byte_offset(s@, i + 1) == bytes + n);
        if n > k - bytes {
            proof {
                lemma_byte_offset_mono(s@, i + 1, s@.len() as int);
            }
            return true;
        }
        bytes = bytes + n;
        i = i + 1;
    }
    false
}

/// The characters of a string slice, in order (`str::chars`).
#[verifier::external_body]
pub(crate) fn str_chars(s: &str) -> (v: Vec<char>)
    ensures
        v@ == s@,
{
    s.chars().collect()
}

/// The characters of a string slice together with their byte offsets
/// (`str::char_indices`).  The offsets are those of UTF-8, and the whole
/// string is `str::len` bytes long.
#[verifier::external_body]
pub(crate) fn str_char_indices(s: &str) -> (v: Vec<(usize, char)>)
    ensures
        v@.len() == s@.len(),
        forall|i: int| 0 <= i < v@.len() ==> (#[trigger] v@[i]).1 == s@[i],
        forall|i: int| 0 <= i < v@.len() ==> (#[trigger] v@[i]).0 == byte_offset(s@, i),
        v@.len() > 0 ==> v@.last().0 + utf8_len(v@.last().1) <= isize::MAX,
{
    s.char_indices().collect()
}

/// Builds a `String` holding exactly the given characters.
#[verifier::external_body]
pub(crate) fn string_from_chars(v: &[char]) -> (s: String)
    ensures
        s@ == v@,
{
    v.iter().collect()
}

/// Appends the characters of `s` to `v`.
pub fn push_str(v: &mut Vec<char>, s: &str)
    ensures
        final(v)@ == old(v)@ + s@,
{
    let cs = str_chars(s);
    let mut i: usize = 0;
    while i < cs.len()
        invariant
            0 <= i <= cs@.len(),
            cs@ == s@,
            v@ == old(v)@ + cs@.subrange(0, i as int),
        decreases cs@.len() - i,
    {
        v.push(cs[i]);
        i = i + 1;
        assert(cs@.subrange(0, i as int) =~= cs@.subrange(0, i - 1) + seq![cs@[i - 1]]);
    }
    assert(cs@.subrange(0, cs@.len() as int) =~= cs@);
}

/// Appends the characters of `s` to `v`.
pub fn push_chars(v: &mut Vec<char>, s: &[char])
    ensures
        final(v)@ == old(v)@ + s@,
{
    let mut i: usize = 0;
    while i < s.len()
        invariant
            0 <= i <= s@.len(),
            v@ == old(v)@ + s@.subrange(0, i as int),
        decreases s@.len() - i,
    {
        v.push(s[i]);
        i = i + 1;
        assert(s@.subrange(0, i as int) =~= s@.subrange(0, i - 1) + seq![s@[i - 1]]);
    }
    assert(s@.subrange(0, s@.len() as int) =~= s@);
}

/// Whether two character sequences are equal.
pub fn chars_equal(a: &[char], b: &[char]) -> (r: bool)
    ensures
        r == (a@ == b@),
{
    if a.len() != b.len() {
        return false;
    }
    let mut i: usize = 0;
    while i < a.len()
        invariant
            a@.len() == b@.len(),
            0 <= i <= a@.len(),
            forall|k: int| 0 <= k < i ==> a@[k] == b@[k],
        decreases a@.len() - i,
    {
        if a[i] != b[i] {
            return false;
        }
        i = i + 1;
    }
    assert(a@ =~= b@);
    true
}

/// Whether the characters `v` spell out the string `s`.
pub fn chars_eq_str(v: &[char], s: &str) -> (r: bool)
    ensures
        r == (v@ == s@),
{
    let cs = str_chars(s);
    chars_equal(v, cs.as_slice())
}

/// ASCII lower-casing of one character.
pub fn lower_char(c: char) -> (r: char)
    ensures
        r == ascii_lower(c),
{
    if 'A' <= c && c <= 'Z' {
        let b: u8 = (c as u8) + 32;
        b as char
    } else {
        c
    }
}

/// Whether `pat` occurs in `s` at index `i`.
pub open spec fn occurs_at(s: Seq<char>, pat: Seq<char>, i: int) -> bool {
    0 <= i && i + pat.len() <= s.len() && s.subrange(i, i + pat.len()) == pat
}

/// Whether `pat` occurs somewhere in `s` (`str::contains`).
pub open spec fn contains_seq(s: Seq<char>, pat: Seq<char>) -> bool {
    exists|i: int| occurs_at(s, pat, i)
}

/// Whether `s` begins with `pat` (`str::starts_with`).
pub open spec fn starts_with_seq(s: Seq<char>, pat: Seq<char>) -> bool {
    occurs_at(s, pat, 0)
}

/// Whether `s` ends with `pat` (`str::ends_with`).
pub open spec fn ends_with_seq(s: Seq<char>, pat: Seq<char>) -> bool {
    occurs_at(s, pat, s.len() - pat.len())
}

/// Whether `pat` occurs in `s` at index `i`.
pub fn occurs_at_exec(s: &[char], pat: &[char], i: usize) -> (r: bool)
    ensures
        r == occurs_at(s@, pat@, i as int),
{
    if i > s.len() || pat.len() > s.len() - i {
        return false;
    }
    let end: usize = i + pat.len();
    let mut k: usize = 0;
    while k < pat.len()
        invariant
            0 <= k <= pat@.len(),
            end == i + pat@.len(),
            end <= s@.len(),
            forall|q: int| 0 <= q < k ==> s@[i + q] == pat@[q],
        decreases pat@.len() - k,
    {
        if s[i + k] != pat[k] {
            assert(s@.subrange(i as int, i + pat@.len())[k as int] != pat@[k as int]);
            return false;
        }
        k = k + 1;
    }
    assert(s@.subrange(i as int, i + pat@.len()) =~= pat@);
    true
}

/// Whether `pat` occurs in `s`.
pub fn contains_chars(s: &[char], pat: &[char]) -> (r: bool)
    ensures
        r == contains_seq(s@, pat@),
{
    let mut i: usize = 0;
    while i < s.len()
        invariant
            0 <= i <= s@.len(),
            forall|q: int| 0 <= q < i ==> !occurs_at(s@, pat@, q),
        decreases s@.len() - i,
    {
        if occurs_at_exec(s, pat, i) {
            return true;
        }
        i = i + 1;
    }
    if occurs_at_exec(s, pat, i) {
        return true;
    }
    assert forall|q: int| !occurs_at(s@, pat@, q) by {
        if 0 <= q <= i {
        } else if q > s@.len() {
        }
    }
    false
}

/// Whether the literal `pat` occurs in `s`.
pub fn contains_str(s: &[char], pat: &str) -> (r: bool)
    ensures
        r == contains_seq(s@, pat@),
{
    let p = str_chars(pat);
    contains_chars(s, p.as_slice())
}

/// Whether `s` begins with the literal `pat`.
pub fn starts_with_str(s: &[char], pat: &str) -> (r: bool)
    ensures
        r == starts_with_seq(s@, pat@),
{
    let p = str_chars(pat);
    occurs_at_exec(s, p.as_slice(), 0)
}

/// Unicode lower-casing of a whole string, as `str::to_lowercase` does it.
pub uninterp spec fn unicode_lowercase(s: Seq<char>) -> Seq<char>;

/// `str::to_lowercase`.  Its result is named; on ASCII text it is the
/// ASCII lower-casing, character by character.
#[verifier::external_body]
pub(crate) fn str_to_lowercase(s: &str) -> (r: String)
    ensures
        r@ == unicode_lowercase(s@),
        (forall|i: int| 0 <= i < s@.len() ==> (#[trigger] s@[i] as u32) < 0x80) ==> r@ == ascii_lower_seq(s@),
{
    s.to_lowercase()
}

/// `s` with each occurrence of `pat` replaced by `rep`, the occurrences
/// taken from left to right without overlap (`str::replace`, for a pattern
/// that is not empty; an empty pattern leaves `s` as it is).
pub open spec fn replace_all(s: Seq<char>, pat: Seq<char>, rep: Seq<char>) -> Seq<char>
    decreases s.len(),
{
    if pat.len() == 0 || s.len() < pat.len() {
        s
    } else if s.subrange(0, pat.len() as int) == pat {
        rep + replace_all(s.subrange(pat.len() as int, s.len() as int), pat, rep)
    } else {
        seq![s[0]] + replace_all(s.subrange(1, s.len() as int), pat, rep)
    }
}

/// `s` with each occurrence of `pat` replaced by `rep`.
pub fn replace_chars(s: &[char], pat: &[char], rep: &[char]) -> (r: Vec<char>)
    requires
        pat@.len() > 0,
    ensures
        r@ == replace_all(s@, pat@, rep@),
{
    let mut out: Vec<char> = Vec::new();
    let mut i: usize = 0;
    let ghost n = s@.len() as int;
    let ghost plen = pat@.len() as int;
    assert(s@.subrange(0, n) =~= s@);
    assert(out@ + replace_all(s@, pat@, rep@) =~= replace_all(s@, pat@, rep@));
    while i < s.len()
        invariant
            0 <= i <= n,
            n == s@.len(),
            plen == pat@.len(),
            plen > 0,
            out@ + replace_all(s@.subrange(i as int, n), pat@, rep@) == replace_all(s@, pat@, rep@),
        decreases n - i,
    {
        let ghost rest = s@.subrange(i as int, n);
        let ghost before = out@;
        if occurs_at_exec(s, pat, i) {
            assert(rest.subrange(0, plen) =~= pat@);
            assert(rest.subrange(plen, rest.len() as int) =~= s@.subrange(i + plen, n));
            push_chars(&mut out, rep);
            i = i + pat.len();
            assert(out@ + replace_all(s@.subrange(i as int, n), pat@, rep@) =~= before + replace_all(rest, pat@, rep@));
        } else {
            proof {
                assert(rest.subrange(1, rest.len() as int) =~= s@.subrange(i + 1, n));
                if rest.len() >= plen {
                    assert(rest.subrange(0, plen) =~= s@.subrange(i as int, i + plen));
                } else {
                    assert(replace_all(s@.subrange(i + 1, n), pat@, rep@) == s@.subrange(i + 1, n));
                    assert(rest =~= seq![s@[i as int]] + s@.subrange(i + 1, n));
                }
            }
            out.push(s[i]);
            i = i + 1;
            assert(out@ + replace_all(s@.subrange(i as int, n), pat@, rep@) =~= before + replace_all(rest, pat@, rep@));
        }
    }
    assert(replace_all(s@.subrange(i as int, n), pat@, rep@) =~= Seq::<char>::empty());
    assert(out@ + Seq::<char>::empty() =~= out@);
    out
}

/// `s` with each occurrence of the literal `pat` replaced by `rep`.
pub fn replace_str(s: &[char], pat: &str, rep: &[char]) -> (r: Vec<char>)
    requires
        pat@.len() > 0,
    ensures
        r@ == replace_all(s@, pat@, rep@),
{
    let p = str_chars(pat);
    replace_chars(s, p.as_slice(), rep)
}

/// Lexicographic order of character sequences by code point (the order of
/// `String`'s `Ord`, as UTF-8 keeps code point order).
pub open spec fn seq_lt(a: Seq<char>, b: Seq<char>) -> bool
    decreases a.len(),
{
    if a.len() == 0 {
        b.len() > 0
    } else if b.len() == 0 {
        false
    } else if a[0] != b[0] {
        a[0] < b[0]
    } else {
        seq_lt(a.drop_first(), b.drop_first())
    }
}

/// `seq_lt` is a strict total order.
pub proof fn lemma_seq_lt_order(a: Seq<char>, b: Seq<char>)
    ensures
        !seq_lt(a, a),
        seq_lt(a, b) ==> !seq_lt(b, a),
        a != b ==> seq_lt(a, b) || seq_lt(b, a),
    decreases a.len(),
{
    if a.len() > 0 {
        lemma_seq_lt_order(a.drop_first(), a.drop_first());
        if b.len() > 0 {
            lemma_seq_lt_order(a.drop_first(), b.drop_first());
            if a[0] == b[0] && a.drop_first() == b.drop_first() {
                assert(a =~= seq![a[0]] + a.drop_first());
                assert(b =~= seq![b[0]] + b.drop_first());
            }
        }
    } else if b.len() == 0 {
        assert(a =~= b);
    }
}

/// `seq_lt` is transitive.
pub proof fn lemma_seq_lt_trans(a: Seq<char>, b: Seq<char>, c: Seq<char>)
    requires
        seq_lt(a, b),
        seq_lt(b, c),
    ensures
        seq_lt(a, c),
    decreases a.len(),
{
    if a.len() > 0 && b.len() > 0 && c.len() > 0 && a[0] == b[0] && b[0] == c[0] {
        lemma_seq_lt_trans(a.drop_first(), b.drop_first(), c.drop_first());
    }
}

/// Whether `a` comes before `b` (see [`seq_lt`]).
pub fn chars_lt(a: &[char], b: &[char]) -> (r: bool)
    ensures
        r == seq_lt(a@, b@),
{
    let mut i: usize = 0;
    assert(a@.subrange(0, a@.len() as int) =~= a@);
    assert(b@.subrange(0, b@.len() as int) =~= b@);
    while i < a.len() && i < b.len() && a[i] == b[i]
        invariant
            0 <= i <= a@.len(),
            i <= b@.len(),
            seq_lt(a@, b@) == seq_lt(a@.subrange(i as int, a@.len() as int), b@.subrange(i as int, b@.len() as int)),
        decreases a@.len() - i,
    {
        let ghost sa = a@.subrange(i as int, a@.len() as int);
        let ghost sb = b@.subrange(i as int, b@.len() as int);
        assert(sa.drop_first() =~= a@.subrange(i + 1, a@.len() as int));
        assert(sb.drop_first() =~= b@.subrange(i + 1, b@.len() as int));
        i = i + 1;
    }
    let ghost sa = a@.subrange(i as int, a@.len() as int);
    let ghost sb = b@.subrange(i as int, b@.len() as int);
    if i == a.len() {
        i < b.len()
    } else if i == b.len() {
        false
    } else {
        assert(sa[0] == a@[i as int] && sb[0] == b@[i as int]);
        a[i] < b[i]
    }
}

/// Whether the sequences are in strictly increasing order (so sorted, with
/// no repeats).
pub open spec fn sorted_unique(s: Seq<Seq<char>>) -> bool {
    forall|i: int, j: int| 0 <= i < j < s.len() ==> seq_lt(#[trigger] s[i], #[trigger] s[j])
}

/// Puts `x` in its place in the sorted list, unless it is there already.
pub fn insert_sorted(v: &mut Vec<String>, x: String)
    requires
        sorted_unique(old(v)@.map_values(|s: String| s@)),
    ensures
        sorted_unique(final(v)@.map_values(|s: String| s@)),
        final(v)@.map_values(|s: String| s@).to_set() == old(v)@.map_values(|s: String| s@).to_set().insert(x@),
{
    let ghost sv = v@.map_values(|s: String| s@);
    let xc = str_chars(x.as_str());
    let mut p: usize = 0;
    let mut done = false;
    while p < v.len() && !done
        invariant
            0 <= p <= v@.len(),
            sv == v@.map_values(|s: String| s@),
            xc@ == x@,
            forall|i: int| 0 <= i < p ==> seq_lt(#[trigger] sv[i], x@),
            done ==> p < v@.len() && !seq_lt(sv[p as int], x@),
        decreases v@.len() - p, if done { 0int } else { 1int },
    {
        let c = str_chars(v[p].as_str());
        assert(sv[p as int] == v@[p as int]@);
        if !chars_lt(c.as_slice(), xc.as_slice()) {
            done = true;
        } else {
            p = p + 1;
        }
    }
    if p < v.len() {
        let c = str_chars(v[p].as_str());
        assert(sv[p as int] == v@[p as int]@);
        if chars_equal(c.as_slice(), xc.as_slice()) {
            assert(sv.to_set() =~= sv.to_set().insert(x@)) by {
                assert(sv.contains(x@));
            }
            return;
        }
    }
    let ghost before = sv;
    v.insert(p, x);
    let ghost after = v@.map_values(|s: String| s@);
    assert(after =~= before.insert(p as int, xc@));
    proof {
        if p < before.len() {
            lemma_seq_lt_order(before[p as int], xc@);
        }
        assert forall|i: int, j: int| 0 <= i < j < after.len() implies seq_lt(#[trigger] after[i], #[trigger] after[j]) by {
            if j < p {
                assert(after[i] == before[i] && after[j] == before[j]);
            } else if j == p {
                assert(after[i] == before[i]);
            } else if i < p {
                assert(after[i] == before[i] && after[j] == before[j - 1]);
                if j - 1 > p {
                    lemma_seq_lt_trans(xc@, before[p as int], before[j - 1]);
                }
                lemma_seq_lt_trans(before[i], xc@, before[j - 1]);
            } else if i == p {
                assert(after[j] == before[j - 1]);
                if j - 1 > p {
                    lemma_seq_lt_trans(xc@, before[p as int], before[j - 1]);
                }
            } else {
                assert(after[i] == before[i - 1] && after[j] == before[j - 1]);
            }
        }
        assert forall|y: Seq<char>| after.to_set().contains(y) == before.to_set().insert(x@).contains(y) by {
            if after.contains(y) {
                let k = choose|k: int| 0 <= k < after.len() && after[k] == y;
                if k < p {
                    assert(before[k] == y);
                } else if k > p {
                    assert(before[k - 1] == y);
                }
            }
            if before.contains(y) {
                let k = choose|k: int| 0 <= k < before.len() && before[k] == y;
                if k < p {
                    assert(after[k] == y);
                } else {
                    assert(after[k + 1] == y);
                }
            }
            if y == x@ {
                assert(after[p as int] == y);
            }
        }
        assert(after.to_set() =~= before.to_set().insert(x@));
    }
}

} // verus!
