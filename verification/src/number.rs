//! Reading a JSON number's decimal text: integers and the seconds-to-
//! milliseconds conversion used for tool durations.

use vstd::prelude::*;
use crate::json::{is_digit, all_digits, digits_value, lemma_digits_prefix_bound};
use crate::text::chars_of;

verus! {

/// Number of consecutive decimal digits in `t` starting at `i`.
pub open spec fn run_len(t: Seq<char>, i: int) -> nat
    decreases t.len() - i,
{
    if 0 <= i < t.len() && is_digit(t[i]) {
        1 + run_len(t, i + 1)
    } else {
        0
    }
}

/// `x` clamped into `u64`.
pub open spec fn clamp_u64(x: int) -> u64 {
    if x < 0 {
        0
    } else if x > u64::MAX {
        u64::MAX
    } else {
        x as u64
    }
}

/// `x * 10^m`.
pub open spec fn times_pow10(x: int, m: nat) -> int
    decreases m,
{
    if m == 0 {
        x
    } else {
        times_pow10(x, (m - 1) as nat) * 10
    }
}

/// The parts of a JSON number `-? digits (. digits)? ([eE] [+-]? digits)?`:
/// its sign, all its significant digits (integer then fraction), the
/// number of fraction digits, the exponent's sign and magnitude. `None`
/// when the text does not have that form.
pub open spec fn num_parts(t: Seq<char>) -> Option<(bool, Seq<char>, int, bool, nat)> {
    let (s0, p, has_dot, f, q, has_exp, eneg, ed0, end, ok) = num_layout(t);
    if ok {
        let digits = if has_dot {
            t.subrange(s0, p) + t.subrange(p + 1, q)
        } else {
            t.subrange(s0, p)
        };
        let ev: nat = if has_exp { digits_value(t.subrange(ed0, end)) } else { 0 };
        Some((s0 == 1, digits, f, eneg, ev))
    } else {
        None
    }
}

/// Where the pieces of a JSON number's text lie: sign length, end of the
/// integer digits, whether a fraction follows and its length, end of the
/// fraction, whether an exponent follows and is negative, where its digits
/// start and end, and whether the text is well formed.
pub open spec fn num_layout(t: Seq<char>) -> (int, int, bool, int, int, bool, bool, int, int, bool) {
    let s0: int = if t.len() > 0 && t[0] == '-' { 1 } else { 0 };
    let a: int = run_len(t, s0) as int;
    let p: int = s0 + a;
    let has_dot = p < t.len() && t[p] == '.';
    let f: int = if has_dot { run_len(t, p + 1) as int } else { 0 };
    let q: int = if has_dot { p + 1 + f } else { p };
    let has_exp = q < t.len() && (t[q] == 'e' || t[q] == 'E');
    let es: int = q + 1;
    let eneg = has_exp && es < t.len() && t[es] == '-';
    let esign = has_exp && es < t.len() && (t[es] == '-' || t[es] == '+');
    let ed0: int = if esign { es + 1 } else { es };
    let ed: int = if has_exp { run_len(t, ed0) as int } else { 0 };
    let end: int = if has_exp { ed0 + ed } else { q };
    let ok = a >= 1 && (!has_dot || f >= 1) && (!has_exp || ed >= 1) && end == t.len();
    (s0, p, has_dot, f, q, has_exp, eneg, ed0, end, ok)
}

/// Milliseconds of `digits * 10^(e - f)` seconds: truncated toward zero and
/// clamped into `u64`.
pub open spec fn ms_of_parts(d: Seq<char>, f: int, eneg: bool, eabs: nat) -> u64 {
    let e: int = if eneg { -eabs } else { eabs as int };
    let k = d.len() + e - f + 3;
    if k <= 0 {
        0
    } else if k <= d.len() {
        clamp_u64(digits_value(d.take(k)) as int)
    } else {
        clamp_u64(times_pow10(digits_value(d) as int, (k - d.len()) as nat))
    }
}

/// A number of seconds, given as JSON number text, in whole milliseconds:
/// the value times 1000 truncated toward zero, 0 for negative values and
/// for text that is not a JSON number, and `u64::MAX` above that.
pub open spec fn number_ms(t: Seq<char>) -> u64 {
    match num_parts(t) {
        None => 0,
        Some((neg, d, f, eneg, eabs)) => if neg {
            0
        } else {
            ms_of_parts(d, f, eneg, eabs)
        },
    }
}

/// Length of the digit run of `cs` starting at `i`.
pub fn digit_run(cs: &Vec<char>, i: usize) -> (n: usize)
    requires
        i <= cs@.len(),
    ensures
        n == run_len(cs@, i as int),
        i + n <= cs@.len(),
{
    let mut k: usize = i;
    while k < cs.len() && ('0' <= cs[k] && cs[k] <= '9')
        invariant
            i <= k <= cs@.len(),
            forall|m: int| i <= m < k ==> is_digit(cs@[m]),
        decreases cs@.len() - k,
    {
        k = k + 1;
    }
    proof {
        lemma_run_len(cs@, i as int, k as int);
    }
    k - i
}

proof fn lemma_run_len(t: Seq<char>, i: int, k: int)
    requires
        0 <= i <= k <= t.len(),
        forall|m: int| i <= m < k ==> is_digit(t[m]),
        k == t.len() || !is_digit(t[k]),
    ensures
        run_len(t, i) == k - i,
    decreases k - i,
{
    if i < k {
        lemma_run_len(t, i + 1, k);
    }
}

/// Saturating value of the digits `d[0..k]`.
fn sat_digits(d: &Vec<char>, k: usize) -> (r: u64)
    requires
        k <= d@.len(),
        all_digits(d@),
    ensures
        r == clamp_u64(digits_value(d@.take(k as int)) as int),
{
    let mut acc: u64 = 0;
    let mut i: usize = 0;
    while i < k
        invariant
            k <= d@.len(),
            all_digits(d@),
            i <= k,
            acc == clamp_u64(digits_value(d@.take(i as int)) as int),
        decreases k - i,
    {
        assert(d@.take(i + 1).drop_last() =~= d@.take(i as int));
        assert(is_digit(d@[i as int]));
        let dv = (d[i] as u32 - '0' as u32) as u64;
        if acc == u64::MAX || acc > (u64::MAX - dv) / 10 {
            acc = u64::MAX;
        } else {
            acc = acc * 10 + dv;
        }
        i = i + 1;
    }
    acc
}

proof fn lemma_times_pow10_mono(x: int, y: int, m: nat)
    requires
        0 <= x <= y,
    ensures
        0 <= times_pow10(x, m) <= times_pow10(y, m),
    decreases m,
{
    if m > 0 {
        lemma_times_pow10_mono(x, y, (m - 1) as nat);
    }
}

proof fn lemma_times_pow10_grows(x: int, m: nat, n: nat)
    requires
        x >= 1,
        m <= n,
    ensures
        times_pow10(x, m) <= times_pow10(x, n),
        times_pow10(x, m) >= 1,
    decreases n,
{
    if n > m {
        lemma_times_pow10_grows(x, m, (n - 1) as nat);
    } else {
        lemma_times_pow10_pos(x, m);
    }
}

proof fn lemma_times_pow10_pos(x: int, m: nat)
    requires
        x >= 1,
    ensures
        times_pow10(x, m) >= 1,
    decreases m,
{
    if m > 0 {
        lemma_times_pow10_pos(x, (m - 1) as nat);
    }
}

proof fn lemma_times_pow10_big(x: int, m: nat)
    requires
        x >= 1,
        m >= 20,
    ensures
        times_pow10(x, m) > u64::MAX,
{
    lemma_times_pow10_mono(1, x, m);
    lemma_times_pow10_grows(1, 20, m);
    reveal_with_fuel(times_pow10, 21);
    assert(times_pow10(1, 20) == 100000000000000000000int);
}

/// `number_ms` of a JSON number's text.
pub fn number_ms_exec(text: &str) -> (r: u64)
    ensures
        r == number_ms(text@),
{
    let cs = chars_of(text);
    match number_parts(&cs) {
        None => 0,
        Some((neg, d, f, eneg, ev)) => {
            if neg {
                0
            } else {
                let ghost eabs = num_parts(cs@)->Some_0.4;
                ms_from_parts(&d, f, eneg, ev, Ghost(eabs))
            }
        },
    }
}

/// The exponent magnitude bound above which every exponent acts alike.
pub open spec fn exp_cap() -> nat {
    0x4_0000_0000_0000_0000nat
}

/// `num_layout` of a character sequence.
fn scan_layout(cs: &Vec<char>) -> (r: (usize, usize, bool, usize, usize, bool, bool, usize, usize, bool))
    ensures
        ({
            let (s0, p, has_dot, f, q, has_exp, eneg, ed0, end, ok) = num_layout(cs@);
            &&& r.0 == s0 && r.1 == p && r.2 == has_dot && r.3 == f && r.4 == q
            &&& r.5 == has_exp && r.6 == eneg && r.9 == ok
            &&& (has_exp ==> r.7 == ed0 && r.8 == end)
            &&& (ok ==> p <= cs@.len() && q <= cs@.len() && end == cs@.len() && s0 <= p
                && (has_dot ==> p + 1 <= q) && (has_exp ==> ed0 <= end))
        }),
{
    let n = cs.len();
    let s0: usize = if n > 0 && cs[0] == '-' { 1 } else { 0 };
    let a = digit_run(cs, s0);
    let p = s0 + a;
    let has_dot = p < n && cs[p] == '.';
    let f: usize = if has_dot { digit_run(cs, p + 1) } else { 0 };
    let q: usize = if has_dot { p + 1 + f } else { p };
    let has_exp = q < n && (cs[q] == 'e' || cs[q] == 'E');
    let es: usize = if q < n { q + 1 } else { q };
    let eneg = has_exp && es < n && cs[es] == '-';
    let esign = has_exp && es < n && (cs[es] == '-' || cs[es] == '+');
    let ed0: usize = if esign { es + 1 } else { es };
    let ed: usize = if has_exp { digit_run(cs, ed0) } else { 0 };
    let end: usize = if has_exp { ed0 + ed } else { q };
    let ok = a >= 1 && (!has_dot || f >= 1) && (!has_exp || ed >= 1) && end == n;
    (s0, p, has_dot, f, q, has_exp, eneg, ed0, end, ok)
}

/// The characters `cs[from..to]`.
fn copy_range(cs: &Vec<char>, from: usize, to: usize, out: &mut Vec<char>)
    requires
        from <= to <= cs@.len(),
    ensures
        final(out)@ == old(out)@ + cs@.subrange(from as int, to as int),
{
    let ghost start = out@;
    let mut i: usize = from;
    while i < to
        invariant
            from <= i <= to,
            to <= cs@.len(),
            out@ == start + cs@.subrange(from as int, i as int),
        decreases to - i,
    {
        out.push(cs[i]);
        i = i + 1;
        assert(out@ =~= start + cs@.subrange(from as int, i as int));
    }
}

/// The value of the digits `cs[from..to]`, saturated at `exp_cap()`.
fn sat_exponent(cs: &Vec<char>, from: usize, to: usize) -> (ev: u128)
    requires
        from <= to <= cs@.len(),
        all_digits(cs@.subrange(from as int, to as int)),
    ensures
        ev == (if digits_value(cs@.subrange(from as int, to as int)) >= exp_cap() {
            exp_cap()
        } else {
            digits_value(cs@.subrange(from as int, to as int))
        }),
{
    let cap: u128 = 0x4_0000_0000_0000_0000u128;
    let ghost seg = cs@.subrange(from as int, to as int);
    let mut ev: u128 = 0;
    let mut j: usize = from;
    while j < to
        invariant
            from <= j <= to,
            to <= cs@.len(),
            seg == cs@.subrange(from as int, to as int),
            ev <= cap,
            cap == exp_cap(),
            all_digits(seg),
            ev == (if digits_value(seg.take(j - from)) >= cap {
                cap as nat
            } else {
                digits_value(seg.take(j - from))
            }),
        decreases to - j,
    {
        assert(seg.take(j + 1 - from).drop_last() =~= seg.take(j - from));
        assert(is_digit(seg[j - from]));
        let dv = (cs[j] as u32 - '0' as u32) as u128;
        if ev >= cap || ev * 10 + dv >= cap {
            proof {
                if digits_value(seg.take(j - from)) >= cap {
                    lemma_digits_prefix_bound(seg.take(j + 1 - from), (j - from) as int);
                    assert(seg.take(j + 1 - from).take(j - from) =~= seg.take(j - from));
                }
            }
            ev = cap;
        } else {
            ev = ev * 10 + dv;
        }
        j = j + 1;
    }
    assert(seg.take(to - from) =~= seg);
    ev
}

/// `num_parts`, with the exponent magnitude saturated at `exp_cap()`.
fn number_parts(cs: &Vec<char>) -> (r: Option<(bool, Vec<char>, usize, bool, u128)>)
    ensures
        match num_parts(cs@) {
            None => r is None,
            Some((neg, d, f, eneg, eabs)) => r matches Some((rn, rd, rf, re, rv)) && rn == neg
                && rd@ == d && rf == f && re == eneg && rv == (if eabs >= exp_cap() {
                exp_cap()
            } else {
                eabs
            }) && all_digits(d),
        },
{
    let (s0, p, has_dot, f, q, has_exp, eneg, ed0, end, ok) = scan_layout(cs);
    if !ok {
        return None;
    }
    let mut d: Vec<char> = Vec::new();
    copy_range(cs, s0, p, &mut d);
    if has_dot {
        copy_range(cs, p + 1, q, &mut d);
    }
    proof {
        assert(d@ =~= (if has_dot {
            cs@.subrange(s0 as int, p as int) + cs@.subrange(p + 1, q as int)
        } else {
            cs@.subrange(s0 as int, p as int)
        }));
        lemma_run_digits(cs@, s0 as int, (p - s0) as int);
        if has_dot {
            lemma_run_digits(cs@, p + 1, f as int);
        }
        assert(all_digits(d@));
    }
    let mut ev: u128 = 0;
    if has_exp {
        proof {
            lemma_run_digits(cs@, ed0 as int, (end - ed0) as int);
        }
        ev = sat_exponent(cs, ed0, end);
    }
    Some((s0 == 1, d, f, eneg, ev))
}

/// `ms_of_parts`, given the exponent magnitude saturated at `exp_cap()`.
fn ms_from_parts(d: &Vec<char>, f: usize, eneg: bool, ev: u128, Ghost(eabs): Ghost<nat>) -> (r: u64)
    requires
        all_digits(d@),
        ev == (if eabs >= exp_cap() { exp_cap() } else { eabs }),
    ensures
        r == ms_of_parts(d@, f as int, eneg, eabs),
{
    let dlen = d.len();
    let e: i128 = if eneg { -(ev as i128) } else { ev as i128 };
    let k: i128 = dlen as i128 + e - f as i128 + 3;
    let ghost et: int = if eneg { -eabs } else { eabs as int };
    let ghost kt: int = dlen + et - f + 3;
    proof {
        assert(dlen <= usize::MAX && f <= usize::MAX);
        if eabs >= exp_cap() {
            if eneg {
                assert(k <= 0 && kt <= 0);
            } else {
                assert(k >= dlen + 20 && kt >= dlen + 20);
            }
        } else {
            assert(k == kt);
        }
    }
    if k <= 0 {
        return 0;
    }
    if k <= dlen as i128 {
        return sat_digits(d, k as usize);
    }
    let m: i128 = k - dlen as i128;
    let v = sat_digits(d, dlen);
    proof {
        assert(d@.take(dlen as int) =~= d@);
    }
    if v == 0 {
        proof {
            lemma_times_pow10_zero((kt - dlen) as nat);
        }
        return 0;
    }
    if m >= 20 {
        proof {
            lemma_times_pow10_big(digits_value(d@) as int, (kt - dlen) as nat);
        }
        return u64::MAX;
    }
    let mu = m as u32;
    let mut r: u64 = v;
    let mut j: u32 = 0;
    while j < mu
        invariant
            j <= mu,
            mu < 20,
            r == clamp_u64(times_pow10(digits_value(d@) as int, j as nat)),
        decreases mu - j,
    {
        proof {
            lemma_times_pow10_mono(0, digits_value(d@) as int, j as nat);
        }
        if r > u64::MAX / 10 {
            r = u64::MAX;
        } else {
            r = r * 10;
        }
        j = j + 1;
    }
    r
}

proof fn lemma_times_pow10_zero(m: nat)
    ensures
        times_pow10(0, m) == 0,
    decreases m,
{
    if m > 0 {
        lemma_times_pow10_zero((m - 1) as nat);
    }
}

proof fn lemma_run_digits(t: Seq<char>, i: int, n: int)
    requires
        0 <= i,
        n == run_len(t, i),
    ensures
        i + n <= t.len() || n == 0,
        forall|m: int| i <= m < i + n ==> is_digit(t[m]),
        all_digits(t.subrange(i, i + n)) || n == 0,
    decreases n,
{
    if n > 0 {
        lemma_run_digits(t, i + 1, n - 1);
        assert forall|m: int| i <= m < i + n implies is_digit(t[m]) by {
            if m > i {
            }
        }
    }
}

} // verus!
