use vstd::prelude::*;

use crate::text::{all_digits, split_commas, split_on_commas};

verus! {

/// Whether `c` is `e` or `E`.
pub open spec fn is_exp_mark(c: char) -> bool {
    c == 'e' || c == 'E'
}

/// Whether `c` is a sign.
pub open spec fn is_sign(c: char) -> bool {
    c == '+' || c == '-'
}

/// `s` without its leading sign, if it has one.
pub open spec fn unsigned_part(s: Seq<char>) -> Seq<char> {
    if s.len() > 0 && is_sign(s[0]) {
        s.drop_first()
    } else {
        s
    }
}

/// One or more digits, after an optional sign.
pub open spec fn signed_digits(s: Seq<char>) -> bool {
    unsigned_part(s).len() > 0 && all_digits(unsigned_part(s))
}

/// Where the exponent of a number starts: at its first `e` or `E`, or at
/// the end.
pub open spec fn exp_start(s: Seq<char>) -> int
    decreases s.len(),
{
    if s.len() == 0 || is_exp_mark(s[0]) {
        0
    } else {
        1 + exp_start(s.drop_first())
    }
}

/// Digits with at most one decimal point among them, and at least one digit.
pub open spec fn mantissa_ok(m: Seq<char>) -> bool {
    &&& forall|i: int| 0 <= i < m.len() ==> ('0' <= #[trigger] m[i] <= '9' || m[i] == '.')
    &&& forall|i: int, j: int| 0 <= i < j < m.len() && #[trigger] m[i] == '.' ==> #[trigger] m[j] != '.'
    &&& exists|i: int| 0 <= i < m.len() && '0' <= #[trigger] m[i] <= '9'
}

/// Nothing, or `e` (or `E`) followed by signed digits.
pub open spec fn exponent_ok(x: Seq<char>) -> bool {
    x.len() == 0 || (is_exp_mark(x[0]) && signed_digits(x.drop_first()))
}

/// A decimal number: a mantissa, then an optional exponent.
pub open spec fn decimal_ok(s: Seq<char>) -> bool {
    mantissa_ok(s.take(exp_start(s))) && exponent_ok(s.skip(exp_start(s)))
}

/// Whether `c` equals the lower-case letter `w` up to case.
pub open spec fn char_ci(c: char, w: char) -> bool {
    c == w || c as u32 + 32 == w as u32
}

/// Whether `s` spells the lower-case word `w` up to case.
pub open spec fn word_ci(s: Seq<char>, w: Seq<char>) -> bool {
    s.len() == w.len() && forall|i: int| 0 <= i < s.len() ==> char_ci(#[trigger] s[i], w[i])
}

/// Text that Rust reads as a floating-point number: an optional sign, then
/// `inf`, `infinity` or `nan` in any case, or a decimal number.
pub open spec fn number_text(s: Seq<char>) -> bool {
    let b = unsigned_part(s);
    word_ci(b, "inf"@) || word_ci(b, "infinity"@) || word_ci(b, "nan"@) || decimal_ok(b)
}

proof fn lemma_exp_start(s: Seq<char>, k: int)
    requires
        0 <= k <= s.len(),
        forall|j: int| 0 <= j < k ==> !is_exp_mark(#[trigger] s[j]),
        k == s.len() || is_exp_mark(s[k]),
    ensures
        exp_start(s) == k,
    decreases k,
{
    if k > 0 {
        assert forall|j: int| 0 <= j < k - 1 implies !is_exp_mark(#[trigger] s.drop_first()[j]) by {
            assert(s.drop_first()[j] == s[j + 1]);
        }
        lemma_exp_start(s.drop_first(), k - 1);
    }
}

fn digits_only(s: &str) -> (r: bool)
    ensures
        r == all_digits(s@),
{
    let n = s.unicode_len();
    let mut i: usize = 0;
    while i < n
        invariant
            n == s@.len(),
            i <= n,
            forall|j: int| 0 <= j < i ==> '0' <= #[trigger] s@[j] <= '9',
        decreases n - i,
    {
        let c = s.get_char(i);
        if c < '0' || c > '9' {
            return false;
        }
        i = i + 1;
    }
    true
}

fn without_sign(s: &str) -> (r: &str)
    ensures
        r@ == unsigned_part(s@),
{
    let n = s.unicode_len();
    if n > 0 {
        let c = s.get_char(0);
        if c == '+' || c == '-' {
            return s.substring_char(1, n);
        }
    }
    s
}

fn signed_digits_check(s: &str) -> (r: bool)
    ensures
        r == signed_digits(s@),
{
    let d = without_sign(s);
    d.unicode_len() > 0 && digits_only(d)
}

fn mantissa_check(m: &str) -> (r: bool)
    ensures
        r == mantissa_ok(m@),
{
    let n = m.unicode_len();
    let mut i: usize = 0;
    let mut dot: Option<usize> = None;
    let mut digit: Option<usize> = None;
    while i < n
        invariant
            n == m@.len(),
            i <= n,
            forall|j: int| 0 <= j < i ==> ('0' <= #[trigger] m@[j] <= '9' || m@[j] == '.'),
            match dot {
                Some(d) => d < i && m@[d as int] == '.' && forall|j: int|
                    0 <= j < i && j != d ==> #[trigger] m@[j] != '.',
                None => forall|j: int| 0 <= j < i ==> #[trigger] m@[j] != '.',
            },
            match digit {
                Some(d) => d < i && '0' <= m@[d as int] <= '9',
                None => forall|j: int| 0 <= j < i ==> !('0' <= #[trigger] m@[j] <= '9'),
            },
        decreases n - i,
    {
        let c = m.get_char(i);
        if c == '.' {
            match dot {
                Some(d) => {
                    assert(m@[d as int] == '.' && m@[i as int] == '.');
                    return false;
                },
                None => {
                    dot = Some(i);
                },
            }
        } else if '0' <= c && c <= '9' {
            digit = Some(i);
        } else {
            return false;
        }
        i = i + 1;
    }
    match digit {
        Some(d) => {
            assert('0' <= m@[d as int] <= '9');
            true
        },
        None => false,
    }
}

fn word_check(s: &str, w: &str) -> (r: bool)
    ensures
        r == word_ci(s@, w@),
{
    let n = s.unicode_len();
    if n != w.unicode_len() {
        return false;
    }
    let mut i: usize = 0;
    while i < n
        invariant
            n == s@.len(),
            n == w@.len(),
            i <= n,
            forall|j: int| 0 <= j < i ==> char_ci(#[trigger] s@[j], w@[j]),
        decreases n - i,
    {
        let c = s.get_char(i);
        let l = w.get_char(i);
        if !(c == l || (c as u32) + 32 == (l as u32)) {
            return false;
        }
        i = i + 1;
    }
    true
}

fn decimal_check(s: &str) -> (r: bool)
    ensures
        r == decimal_ok(s@),
{
    let n = s.unicode_len();
    let mut k: usize = 0;
    while k < n
        invariant
            n == s@.len(),
            k <= n,
            forall|j: int| 0 <= j < k ==> !is_exp_mark(#[trigger] s@[j]),
        ensures
            k <= n,
            forall|j: int| 0 <= j < k ==> !is_exp_mark(#[trigger] s@[j]),
            k == n || is_exp_mark(s@[k as int]),
        decreases n - k,
    {
        let c = s.get_char(k);
        if c == 'e' || c == 'E' {
            break;
        }
        k = k + 1;
    }
    proof {
        lemma_exp_start(s@, k as int);
    }
    let m = s.substring_char(0, k);
    let x = s.substring_char(k, n);
    assert(m@ =~= s@.take(k as int));
    assert(x@ =~= s@.skip(k as int));
    if !mantissa_check(m) {
        return false;
    }
    if k == n {
        return true;
    }
    let rest = s.substring_char(k + 1, n);
    assert(rest@ =~= x@.drop_first());
    signed_digits_check(rest)
}

/// Whether Rust reads `s` as a floating-point number.
pub fn is_number_text(s: &str) -> (r: bool)
    ensures
        r == number_text(s@),
{
    let b = without_sign(s);
    word_check(b, "inf") || word_check(b, "infinity") || word_check(b, "nan") || decimal_check(b)
}

/// The pieces that read as numbers, in order.
pub open spec fn numeric_parts(p: Seq<Seq<char>>) -> Seq<Seq<char>>
    decreases p.len(),
{
    if p.len() == 0 {
        p
    } else if number_text(p.last()) {
        numeric_parts(p.drop_last()).push(p.last())
    } else {
        numeric_parts(p.drop_last())
    }
}

/// The components of a `bounds` value: its comma-separated pieces that
/// read as numbers, as written. The others are dropped.
pub open spec fn bounds_of(value: Seq<char>) -> Seq<Seq<char>> {
    numeric_parts(split_commas(value))
}

/// Reads the components of a `bounds` value, dropping those that are not
/// numbers.
pub fn parse_bounds(value: &str) -> (r: Vec<String>)
    ensures
        r.deep_view() == bounds_of(value@),
{
    let parts = split_on_commas(value);
    let ghost pv = parts.deep_view();
    let mut r: Vec<String> = Vec::new();
    let mut i: usize = 0;
    assert(pv.take(0) =~= Seq::<Seq<char>>::empty());
    while i < parts.len()
        invariant
            i <= parts@.len(),
            pv == parts.deep_view(),
            pv.len() == parts@.len(),
            r.deep_view() == numeric_parts(pv.take(i as int)),
        decreases parts@.len() - i,
    {
        assert(pv.take(i + 1).drop_last() =~= pv.take(i as int));
        assert(pv.take(i + 1).last() == parts@[i as int]@);
        if is_number_text(parts[i].as_str()) {
            let ghost before = r.deep_view();
            let piece = parts[i].clone();
            r.push(piece);
            assert(r.deep_view() =~= before.push(parts@[i as int]@));
        }
        i = i + 1;
    }
    assert(pv.take(i as int) =~= pv);
    r
}

} // verus!
