//! Reading numbers from command-line text as the standard library does:
//! `u32::from_str`, and the grammar that `f32::from_str` accepts.

use vstd::prelude::*;

use crate::text::{chars_eq, chars_of, decimal, hex_digit, sub_chars};

verus! {

pub open spec fn is_ascii_digit(c: char) -> bool {
    '0' <= c && c <= '9'
}

pub open spec fn all_digits(s: Seq<char>) -> bool {
    forall|i: int| 0 <= i < s.len() ==> #[trigger] is_ascii_digit(s[i])
}

pub open spec fn digit_value(c: char) -> nat {
    (c as int - '0' as int) as nat
}

/// The number that a string of decimal digits denotes.
pub open spec fn digits_value(s: Seq<char>) -> nat
    decreases s.len(),
{
    if s.len() == 0 {
        0
    } else {
        digits_value(s.drop_last()) * 10 + digit_value(s.last())
    }
}

/// `s` without one leading `+`.
pub open spec fn without_plus(s: Seq<char>) -> Seq<char> {
    if s.len() > 0 && s[0] == '+' {
        s.drop_first()
    } else {
        s
    }
}

/// What `u32::from_str` makes of `s`: an optional `+`, then at least one
/// decimal digit, denoting a value that fits.
pub open spec fn parsed_u32(s: Seq<char>) -> Option<u32> {
    let d = without_plus(s);
    if d.len() > 0 && all_digits(d) && digits_value(d) <= u32::MAX {
        Some(digits_value(d) as u32)
    } else {
        None
    }
}

proof fn lemma_digits_value_prefix(s: Seq<char>, k: int)
    requires
        0 <= k <= s.len(),
    ensures
        digits_value(s.take(k)) <= digits_value(s),
    decreases s.len(),
{
    if k < s.len() {
        lemma_digits_value_prefix(s.drop_last(), k);
        assert(s.drop_last().take(k) =~= s.take(k));
    } else {
        assert(s.take(k) =~= s);
    }
}

pub fn parse_u32(s: &str) -> (r: Option<u32>)
    ensures
        r == parsed_u32(s@),
{
    let v = chars_of(s);
    let start: usize = if v.len() > 0 && v[0] == '+' {
        1
    } else {
        0
    };
    let ghost d = without_plus(s@);
    assert(d =~= v@.subrange(start as int, v.len() as int));
    if start == v.len() {
        return None;
    }
    let mut i: usize = start;
    while i < v.len()
        invariant
            start <= i <= v.len(),
            v@ == s@,
            d == without_plus(s@),
            d == v@.subrange(start as int, v.len() as int),
            forall|j: int| start <= j < i ==> is_ascii_digit(#[trigger] v@[j]),
        decreases v.len() - i,
    {
        if !('0' <= v[i] && v[i] <= '9') {
            assert(!is_ascii_digit(d[i - start]));
            return None;
        }
        i = i + 1;
    }
    assert(all_digits(d)) by {
        assert forall|j: int| 0 <= j < d.len() implies #[trigger] is_ascii_digit(d[j]) by {
            assert(d[j] == v@[start + j]);
        }
    }
    let mut acc: u64 = 0;
    let mut i: usize = start;
    while i < v.len()
        invariant
            start <= i <= v.len(),
            v@ == s@,
            d == without_plus(s@),
            d == v@.subrange(start as int, v.len() as int),
            all_digits(d),
            acc == digits_value(d.take(i - start)),
            acc <= u32::MAX,
        decreases v.len() - i,
    {
        let c = v[i];
        assert(is_ascii_digit(d[i - start]));
        let dv: u64 = (c as u32 - '0' as u32) as u64;
        assert(d.take(i - start + 1).drop_last() =~= d.take(i - start));
        assert(dv == digit_value(d[i - start]));
        let next: u64 = acc * 10 + dv;
        if next > 0xFFFF_FFFF {
            proof {
                lemma_digits_value_prefix(d, i - start + 1);
            }
            return None;
        }
        acc = next;
        i = i + 1;
    }
    assert(d.take(d.len() as int) =~= d);
    Some(acc as u32)
}

proof fn lemma_decimal_digits(n: nat)
    ensures
        decimal(n).len() > 0,
        all_digits(decimal(n)),
        digits_value(decimal(n)) == n,
    decreases n,
{
    if n < 10 {
        let s = decimal(n);
        assert(s.drop_last() =~= Seq::<char>::empty());
        assert(digit_value(hex_digit(n)) == n);
        assert(digits_value(s.drop_last()) == 0);
        assert(digits_value(s) == digits_value(s.drop_last()) * 10 + digit_value(s.last()));
    } else {
        lemma_decimal_digits(n / 10);
        let s = decimal(n);
        assert(s.drop_last() == decimal(n / 10));
        assert(digit_value(hex_digit(n % 10)) == n % 10);
        assert(n == (n / 10) * 10 + n % 10) by (nonlinear_arith);
        assert(s.last() == hex_digit(n % 10));
        assert(digits_value(s) == digits_value(s.drop_last()) * 10 + digit_value(s.last()));
        assert forall|i: int| 0 <= i < s.len() implies #[trigger] is_ascii_digit(s[i]) by {
            if i < s.len() - 1 {
                assert(s[i] == decimal(n / 10)[i]);
            }
        }
    }
}

/// Every `u32` written in decimal reads back as itself.
pub proof fn lemma_parse_u32_of_decimal(n: u32)
    ensures
        parsed_u32(decimal(n as nat)) == Some(n),
{
    lemma_decimal_digits(n as nat);
    assert(is_ascii_digit(decimal(n as nat)[0]));
}

/// `c` in lower case when it is an ASCII capital.
pub open spec fn ascii_lower(c: char) -> char {
    if 'A' <= c && c <= 'Z' {
        ((c as u32) + 32) as char
    } else {
        c
    }
}

/// `s` without one leading sign.
pub open spec fn without_sign(s: Seq<char>) -> Seq<char> {
    if s.len() > 0 && (s[0] == '+' || s[0] == '-') {
        s.drop_first()
    } else {
        s
    }
}

/// Digits with at most one `.`, and at least one digit.
pub open spec fn is_mantissa(m: Seq<char>) -> bool {
    &&& forall|i: int| 0 <= i < m.len() ==> is_ascii_digit(#[trigger] m[i]) || m[i] == '.'
    &&& forall|i: int, j: int|
        0 <= i < m.len() && 0 <= j < m.len() && #[trigger] m[i] == '.' && #[trigger] m[j] == '.'
            ==> i == j
    &&& exists|i: int| 0 <= i < m.len() && is_ascii_digit(#[trigger] m[i])
}

/// An exponent after the `e`: an optional sign, then digits.
pub open spec fn is_exponent(e: Seq<char>) -> bool {
    without_sign(e).len() > 0 && all_digits(without_sign(e))
}

/// A decimal number, with or without an exponent.
pub open spec fn is_decimal_number(r: Seq<char>) -> bool {
    ||| is_mantissa(r)
    ||| exists|k: int|
        0 <= k < r.len() && #[trigger] r[k] == 'e' && is_mantissa(r.take(k)) && is_exponent(
            r.skip(k + 1),
        )
}

/// The grammar of `f32::from_str`, on the text in lower case:
/// `Sign? ('inf' | 'infinity' | 'nan' | Number)`, where a number has digits
/// with at most one point and at least one digit, and an optional exponent
/// `e Sign? Digit+`.
pub open spec fn is_float_literal(s: Seq<char>) -> bool {
    let r = without_sign(s.map_values(|c: char| ascii_lower(c)));
    r == "inf"@ || r == "infinity"@ || r == "nan"@ || is_decimal_number(r)
}

fn lower_chars(v: &Vec<char>) -> (r: Vec<char>)
    ensures
        r@ == v@.map_values(|c: char| ascii_lower(c)),
{
    let mut r: Vec<char> = Vec::new();
    let mut i: usize = 0;
    while i < v.len()
        invariant
            i <= v.len(),
            r@ == v@.take(i as int).map_values(|c: char| ascii_lower(c)),
        decreases v.len() - i,
    {
        let c = v[i];
        let l = if 'A' <= c && c <= 'Z' {
            ((c as u32) + 32) as u8 as char
        } else {
            c
        };
        proof {
            if 'A' <= c && c <= 'Z' {
                assert((((c as u32) + 32) as u8 as char) == ((c as u32) + 32) as char);
            }
        }
        r.push(l);
        assert(v@.take(i + 1).map_values(|c: char| ascii_lower(c)) =~= v@.take(i as int).map_values(
            |c: char| ascii_lower(c),
        ).push(ascii_lower(c)));
        i = i + 1;
    }
    assert(v@.take(v.len() as int) =~= v@);
    r
}

fn mantissa_ok(v: &Vec<char>, from: usize, to: usize) -> (r: bool)
    requires
        from <= to <= v.len(),
    ensures
        r == is_mantissa(v@.subrange(from as int, to as int)),
{
    let ghost m = v@.subrange(from as int, to as int);
    let mut dot_seen = false;
    let mut digit_seen = false;
    let ghost mut dot_at: int = 0;
    let ghost mut digit_at: int = 0;
    let mut i: usize = from;
    while i < to
        invariant
            from <= i <= to <= v.len(),
            m == v@.subrange(from as int, to as int),
            forall|j: int| 0 <= j < i - from ==> is_ascii_digit(#[trigger] m[j]) || m[j] == '.',
            dot_seen ==> 0 <= dot_at < i - from && m[dot_at] == '.',
            forall|j: int| 0 <= j < i - from && #[trigger] m[j] == '.' ==> dot_seen && j == dot_at,
            digit_seen ==> 0 <= digit_at < i - from && is_ascii_digit(m[digit_at]),
            !digit_seen ==> forall|j: int| 0 <= j < i - from ==> !is_ascii_digit(#[trigger] m[j]),
        decreases to - i,
    {
        let c = v[i];
        assert(m[i - from] == c);
        if '0' <= c && c <= '9' {
            digit_seen = true;
            proof {
                digit_at = i - from;
            }
        } else if c == '.' {
            if dot_seen {
                assert(m[dot_at] == '.' && m[i - from] == '.');
                return false;
            }
            dot_seen = true;
            proof {
                dot_at = i - from;
            }
        } else {
            return false;
        }
        i = i + 1;
    }
    if !digit_seen {
        assert(!is_mantissa(m));
        return false;
    }
    assert(is_ascii_digit(m[digit_at]));
    true
}

fn exponent_ok(v: &Vec<char>, from: usize) -> (r: bool)
    requires
        from <= v.len(),
    ensures
        r == is_exponent(v@.subrange(from as int, v.len() as int)),
{
    let ghost e = v@.subrange(from as int, v.len() as int);
    let start = if from < v.len() && (v[from] == '+' || v[from] == '-') {
        from + 1
    } else {
        from
    };
    assert(without_sign(e) =~= v@.subrange(start as int, v.len() as int));
    if start == v.len() {
        return false;
    }
    let mut i: usize = start;
    while i < v.len()
        invariant
            from <= start <= i <= v.len(),
            e == v@.subrange(from as int, v.len() as int),
            without_sign(e) == v@.subrange(start as int, v.len() as int),
            forall|j: int| start <= j < i ==> is_ascii_digit(#[trigger] v@[j]),
        decreases v.len() - i,
    {
        if !('0' <= v[i] && v[i] <= '9') {
            assert(!is_ascii_digit(without_sign(e)[i - start]));
            return false;
        }
        i = i + 1;
    }
    assert forall|j: int| 0 <= j < without_sign(e).len() implies #[trigger] is_ascii_digit(
        without_sign(e)[j],
    ) by {
        assert(without_sign(e)[j] == v@[start + j]);
    }
    true
}

/// Whether `f32::from_str` accepts `s`.
pub fn is_float_text(s: &str) -> (r: bool)
    ensures
        r == is_float_literal(s@),
{
    let v = chars_of(s);
    let l = lower_chars(&v);
    let start: usize = if l.len() > 0 && (l[0] == '+' || l[0] == '-') {
        1
    } else {
        0
    };
    let ghost lowered = s@.map_values(|c: char| ascii_lower(c));
    let ghost rr = without_sign(lowered);
    assert(rr =~= l@.subrange(start as int, l.len() as int));
    let r = sub_chars(&l, start, l.len());
    if chars_eq(&r, &chars_of("inf")) || chars_eq(&r, &chars_of("infinity")) || chars_eq(
        &r,
        &chars_of("nan"),
    ) {
        return true;
    }
    let mut k: usize = 0;
    while k < r.len() && r[k] != 'e'
        invariant
            k <= r.len(),
            forall|j: int| 0 <= j < k ==> #[trigger] r@[j] != 'e',
        decreases r.len() - k,
    {
        k = k + 1;
    }
    assert(r@.subrange(0, r.len() as int) =~= r@);
    if k == r.len() {
        let ok = mantissa_ok(&r, 0, r.len());
        assert(!exists|k2: int| 0 <= k2 < r@.len() && #[trigger] r@[k2] == 'e');
        return ok;
    }
    let m_ok = mantissa_ok(&r, 0, k);
    let e_ok = exponent_ok(&r, k + 1);
    assert(r@.take(k as int) =~= r@.subrange(0, k as int));
    assert(r@.skip(k + 1) =~= r@.subrange(k + 1, r.len() as int));
    if m_ok && e_ok {
        assert(r@[k as int] == 'e');
        return true;
    }
    assert(!is_mantissa(r@)) by {
        assert(!(is_ascii_digit(r@[k as int]) || r@[k as int] == '.'));
    }
    assert forall|k2: int|
        0 <= k2 < r@.len() && #[trigger] r@[k2] == 'e' && is_mantissa(r@.take(k2)) implies !is_exponent(
        r@.skip(k2 + 1),
    ) by {
        if k2 != k {
            assert(k2 > k);
            assert(r@.take(k2)[k as int] == 'e');
        }
    }
    false
}

} // verus!
