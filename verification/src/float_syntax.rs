//! The syntax of decimal floating-point numbers that `f64::from_str`
//! accepts: an optional sign, then `inf`, `infinity` or `nan` (in any
//! letter case), or a decimal number with an optional exponent.

use vstd::prelude::*;

verus! {

/// ASCII lower case of a character.
pub open spec fn ascii_lower(c: char) -> char {
    if 'A' <= c && c <= 'Z' {
        (((c as u32) + 32) as u8) as char
    } else {
        c
    }
}

/// ASCII case-insensitive equality with a lower-case word.
pub open spec fn eq_ignore_case(s: Seq<char>, word: Seq<char>) -> bool {
    s.len() == word.len() && forall|i: int| 0 <= i < s.len() ==> ascii_lower(#[trigger] s[i]) == word[i]
}

pub open spec fn is_dec_digit(c: char) -> bool {
    '0' <= c && c <= '9'
}

/// Digits with at most one `.` and at least one digit.
pub open spec fn is_mantissa(m: Seq<char>) -> bool {
    &&& forall|i: int| 0 <= i < m.len() ==> (is_dec_digit(#[trigger] m[i]) || m[i] == '.')
    &&& forall|i: int, j: int| 0 <= i < j < m.len() && m[i] == '.' ==> m[j] != '.'
    &&& exists|i: int| 0 <= i < m.len() && is_dec_digit(#[trigger] m[i])
}

/// The exponent's digits: the text after an optional sign.
pub open spec fn exp_digits(e: Seq<char>) -> Seq<char> {
    if e.len() > 0 && (e[0] == '+' || e[0] == '-') {
        e.skip(1)
    } else {
        e
    }
}

/// True when every character is a decimal digit.
pub open spec fn all_dec(d: Seq<char>) -> bool {
    forall|i: int| 0 <= i < d.len() ==> is_dec_digit(#[trigger] d[i])
}

/// An optional sign, then at least one digit.
pub open spec fn is_exponent(e: Seq<char>) -> bool {
    exp_digits(e).len() > 0 && all_dec(exp_digits(e))
}

/// Position of the first `e` or `E`.
pub open spec fn exp_mark(t: Seq<char>) -> Option<int> {
    if exists|i: int| 0 <= i < t.len() && (t[i] == 'e' || t[i] == 'E') {
        Some(choose|i: int| 0 <= i < t.len() && (t[i] == 'e' || t[i] == 'E') && forall|j: int| 0 <= j < i ==> !(t[j] == 'e' || t[j] == 'E'))
    } else {
        None
    }
}

/// True when `f64::from_str` accepts the text.
pub open spec fn is_float_text(s: Seq<char>) -> bool {
    let t = if s.len() > 0 && (s[0] == '+' || s[0] == '-') {
        s.skip(1)
    } else {
        s
    };
    ||| eq_ignore_case(t, "inf"@)
    ||| eq_ignore_case(t, "infinity"@)
    ||| eq_ignore_case(t, "nan"@)
    ||| match exp_mark(t) {
        Some(k) => is_mantissa(t.take(k)) && is_exponent(t.skip(k + 1)),
        None => is_mantissa(t),
    }
}

fn lower(c: char) -> (r: char)
    ensures
        r == ascii_lower(c),
{
    if 'A' <= c && c <= 'Z' {
        (((c as u32) + 32) as u8) as char
    } else {
        c
    }
}

pub(crate) fn eq_ignore_case_exec(s: &[char], word: &str) -> (r: bool)
    ensures
        r == eq_ignore_case(s@, word@),
{
    let w = crate::text::chars_of(word);
    if s.len() != w.len() {
        return false;
    }
    let mut i: usize = 0;
    while i < s.len()
        invariant
            w@ == word@,
            s@.len() == w@.len(),
            i <= s@.len(),
            forall|j: int| 0 <= j < i ==> ascii_lower(#[trigger] s@[j]) == w@[j],
        decreases s@.len() - i,
    {
        if lower(s[i]) != w[i] {
            return false;
        }
        i = i + 1;
    }
    true
}

fn is_mantissa_exec(m: &[char]) -> (r: bool)
    ensures
        r == is_mantissa(m@),
{
    let mut dots: usize = 0;
    let mut digits: bool = false;
    let mut first_dot: usize = 0;
    let mut i: usize = 0;
    while i < m.len()
        invariant
            i <= m@.len(),
            dots <= 1,
            forall|j: int| 0 <= j < i ==> (is_dec_digit(#[trigger] m@[j]) || m@[j] == '.'),
            forall|a: int, b: int| 0 <= a < b < i && m@[a] == '.' ==> m@[b] != '.',
            dots == 0 ==> forall|j: int| 0 <= j < i ==> m@[j] != '.',
            dots == 1 ==> first_dot < i && m@[first_dot as int] == '.',
            digits == exists|j: int| 0 <= j < i && is_dec_digit(#[trigger] m@[j]),
        decreases m@.len() - i,
    {
        let c = m[i];
        if c == '.' {
            if dots == 1 {
                assert(m@[first_dot as int] == '.' && first_dot < i);
                return false;
            }
            dots = 1;
            first_dot = i;
        } else if '0' <= c && c <= '9' {
            digits = true;
        } else {
            return false;
        }
        i = i + 1;
    }
    digits
}

fn is_exponent_exec(e: &[char]) -> (r: bool)
    ensures
        r == is_exponent(e@),
{
    let start: usize = if e.len() > 0 && (e[0] == '+' || e[0] == '-') {
        1
    } else {
        0
    };
    let ghost d = exp_digits(e@);
    if start >= e.len() {
        assert(d.len() == 0);
        return false;
    }
    assert(d =~= e@.skip(start as int));
    let mut i = start;
    let mut ok = true;
    while ok && i < e.len()
        invariant
            start <= i <= e@.len(),
            d == e@.skip(start as int),
            forall|j: int| start <= j < i ==> is_dec_digit(#[trigger] e@[j]),
            !ok ==> i < e@.len() && !is_dec_digit(e@[i as int]),
        decreases e@.len() - i + (if ok { 1int } else { 0int }),
    {
        if !('0' <= e[i] && e[i] <= '9') {
            ok = false;
        } else {
            i = i + 1;
        }
    }
    if !ok {
        assert(d[i - start] == e@[i as int]);
        assert(!is_dec_digit(d[i - start]));
        assert(!all_dec(d));
        return false;
    }
    assert forall|j: int| 0 <= j < d.len() implies is_dec_digit(#[trigger] d[j]) by {
        assert(d[j] == e@[j + start]);
    }
    assert(all_dec(d));
    true
}

/// True when `f64::from_str` accepts the text.
pub fn is_float_text_exec(s: &str) -> (r: bool)
    ensures
        r == is_float_text(s@),
{
    let cs = crate::text::chars_of(s);
    let t = if cs.len() > 0 && (cs[0] == '+' || cs[0] == '-') {
        crate::text::sub_chars(cs.as_slice(), 1, cs.len())
    } else {
        crate::text::copy_chars(&cs)
    };
    proof {
        if cs@.len() > 0 && (cs@[0] == '+' || cs@[0] == '-') {
            assert(t@ =~= s@.skip(1));
        }
    }
    if eq_ignore_case_exec(t.as_slice(), "inf") || eq_ignore_case_exec(t.as_slice(), "infinity")
        || eq_ignore_case_exec(t.as_slice(), "nan") {
        return true;
    }
    let mut k: usize = 0;
    while k < t.len() && !(t[k] == 'e' || t[k] == 'E')
        invariant
            k <= t@.len(),
            forall|j: int| 0 <= j < k ==> !(t@[j] == 'e' || t@[j] == 'E'),
        decreases t@.len() - k,
    {
        k = k + 1;
    }
    if k < t.len() {
        proof {
            let w = choose|i: int| 0 <= i < t@.len() && (t@[i] == 'e' || t@[i] == 'E') && forall|j: int| 0 <= j < i ==> !(t@[j] == 'e' || t@[j] == 'E');
            assert(0 <= k < t@.len() && (t@[k as int] == 'e' || t@[k as int] == 'E'));
            if w < k {
            } else if w > k {
                assert(!(t@[k as int] == 'e' || t@[k as int] == 'E'));
            }
        }
        let m = crate::text::sub_chars(t.as_slice(), 0, k);
        let e = crate::text::sub_chars(t.as_slice(), k + 1, t.len());
        assert(m@ =~= t@.take(k as int));
        assert(e@ =~= t@.skip(k + 1));
        is_mantissa_exec(m.as_slice()) && is_exponent_exec(e.as_slice())
    } else {
        is_mantissa_exec(t.as_slice())
    }
}

} // verus!
