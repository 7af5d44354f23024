//! Character-level string helpers shared by the parsers and editors.

use vstd::prelude::*;

verus! {

/// Unicode `White_Space` property, which is what `char::is_whitespace` and
/// `str::trim` test.
pub open spec fn is_ws(c: char) -> bool {
    let u = c as u32;
    ||| (0x09 <= u && u <= 0x0d)
    ||| u == 0x20
    ||| u == 0x85
    ||| u == 0xa0
    ||| u == 0x1680
    ||| (0x2000 <= u && u <= 0x200a)
    ||| u == 0x2028
    ||| u == 0x2029
    ||| u == 0x202f
    ||| u == 0x205f
    ||| u == 0x3000
}

/// Appends one character to a string (`String::push`).
#[verifier::external_body]
pub fn push_char(s: &mut String, c: char)
    ensures
        final(s)@ == old(s)@.push(c),
{
    s.push(c);
}

/// The characters of a string slice, in order.
pub fn chars_of(s: &str) -> (v: Vec<char>)
    ensures
        v@ == s@,
{
    let n = s.unicode_len();
    let mut v: Vec<char> = Vec::new();
    let mut i: usize = 0;
    while i < n
        invariant
            n == s@.len(),
            i <= n,
            v@ == s@.take(i as int),
        decreases n - i,
    {
        let c = s.get_char(i);
        v.push(c);
        i = i + 1;
        assert(v@ =~= s@.take(i as int));
    }
    assert(s@.take(n as int) =~= s@);
    v
}

/// Builds a string from a sequence of characters.
pub fn string_from_chars(v: &[char]) -> (s: String)
    ensures
        s@ == v@,
{
    let mut s = String::new();
    let mut i: usize = 0;
    while i < v.len()
        invariant
            i <= v@.len(),
            s@ == v@.take(i as int),
        decreases v@.len() - i,
    {
        push_char(&mut s, v[i]);
        i = i + 1;
        assert(s@ =~= v@.take(i as int));
    }
    assert(v@.take(v@.len() as int) =~= v@);
    s
}

} // verus!

verus! {

/// Character-wise equality of two string slices.
pub fn str_eq(a: &str, b: &str) -> (r: bool)
    ensures
        r == (a@ == b@),
{
    let x = chars_of(a);
    let y = chars_of(b);
    chars_eq(&x, &y)
}

/// Equality of two character sequences.
pub fn chars_eq(x: &[char], y: &[char]) -> (r: bool)
    ensures
        r == (x@ == y@),
{
    if x.len() != y.len() {
        return false;
    }
    let mut i: usize = 0;
    while i < x.len()
        invariant
            x@.len() == y@.len(),
            i <= x@.len(),
            forall|j: int| 0 <= j < i ==> x@[j] == y@[j],
        decreases x@.len() - i,
    {
        if x[i] != y[i] {
            return false;
        }
        i = i + 1;
    }
    assert(x@ =~= y@);
    true
}

} // verus!

verus! {

/// Number of whitespace characters at the start of `s`.
pub open spec fn lead_ws(s: Seq<char>) -> nat
    decreases s.len(),
{
    if s.len() > 0 && is_ws(s[0]) {
        1 + lead_ws(s.drop_first())
    } else {
        0
    }
}

/// Number of whitespace characters at the end of `s`.
pub open spec fn trail_ws(s: Seq<char>) -> nat
    decreases s.len(),
{
    if s.len() > 0 && is_ws(s.last()) {
        1 + trail_ws(s.drop_last())
    } else {
        0
    }
}

/// `str::trim_start`.
pub open spec fn trim_start(s: Seq<char>) -> Seq<char> {
    s.skip(lead_ws(s) as int)
}

/// `str::trim_end`.
pub open spec fn trim_end(s: Seq<char>) -> Seq<char> {
    s.take(s.len() - trail_ws(s))
}

/// `str::trim`.
pub open spec fn trim(s: Seq<char>) -> Seq<char> {
    trim_end(trim_start(s))
}

/// `s` starts with `p`.
pub open spec fn starts_with(s: Seq<char>, p: Seq<char>) -> bool {
    p.len() <= s.len() && s.take(p.len() as int) == p
}

/// `s` ends with `p`.
pub open spec fn ends_with(s: Seq<char>, p: Seq<char>) -> bool {
    p.len() <= s.len() && s.skip(s.len() - p.len()) == p
}

/// `p` occurs in `s` at position `i`.
pub open spec fn occurs_at(s: Seq<char>, p: Seq<char>, i: int) -> bool {
    0 <= i && i + p.len() <= s.len() && s.subrange(i, i + p.len()) == p
}

/// `s.contains(p)`.
pub open spec fn contains(s: Seq<char>, p: Seq<char>) -> bool {
    exists|i: int| occurs_at(s, p, i)
}

/// The first position at or after `i` where `p` occurs in `s`.
pub open spec fn find_from(s: Seq<char>, p: Seq<char>, i: int) -> Option<int>
    decreases s.len() + 1 - i,
{
    if i < 0 || i > s.len() {
        None
    } else if occurs_at(s, p, i) {
        Some(i)
    } else {
        find_from(s, p, i + 1)
    }
}

/// `s.find(p)`: the first position where `p` occurs.
pub open spec fn find(s: Seq<char>, p: Seq<char>) -> Option<int> {
    find_from(s, p, 0)
}

pub open spec fn is_ws_exec_spec(c: char) -> bool {
    is_ws(c)
}

/// `char::is_whitespace`.
pub fn is_whitespace(c: char) -> (r: bool)
    ensures
        r == is_ws(c),
{
    let u = c as u32;
    (0x09 <= u && u <= 0x0d) || u == 0x20 || u == 0x85 || u == 0xa0 || u == 0x1680 || (0x2000
        <= u && u <= 0x200a) || u == 0x2028 || u == 0x2029 || u == 0x202f || u == 0x205f || u
        == 0x3000
}

pub proof fn lemma_lead_ws(s: Seq<char>, k: int)
    requires
        0 <= k <= s.len(),
        forall|j: int| 0 <= j < k ==> is_ws(s[j]),
        k == s.len() || !is_ws(s[k]),
    ensures
        lead_ws(s) == k,
    decreases k,
{
    if k > 0 {
        let t = s.drop_first();
        assert forall|j: int| 0 <= j < k - 1 implies is_ws(t[j]) by {
            assert(t[j] == s[j + 1]);
        }
        lemma_lead_ws(t, k - 1);
    }
}

pub proof fn lemma_trail_ws(s: Seq<char>, k: int)
    requires
        0 <= k <= s.len(),
        forall|j: int| s.len() - k <= j < s.len() ==> is_ws(s[j]),
        k == s.len() || !is_ws(s[s.len() - k - 1]),
    ensures
        trail_ws(s) == k,
    decreases k,
{
    if k > 0 {
        let t = s.drop_last();
        assert forall|j: int| t.len() - (k - 1) <= j < t.len() implies is_ws(t[j]) by {
            assert(t[j] == s[j]);
        }
        if k - 1 < t.len() {
            assert(t[t.len() - (k - 1) - 1] == s[s.len() - k - 1]);
        }
        lemma_trail_ws(t, k - 1);
    }
}

/// `trim` of a character sequence.
pub fn trim_chars(s: &Vec<char>) -> (r: Vec<char>)
    ensures
        r@ == trim(s@),
{
    let n = s.len();
    let mut a: usize = 0;
    while a < n && is_whitespace(s[a])
        invariant
            n == s@.len(),
            a <= n,
            forall|j: int| 0 <= j < a ==> is_ws(s@[j]),
        decreases n - a,
    {
        a = a + 1;
    }
    proof {
        lemma_lead_ws(s@, a as int);
    }
    let ghost t = s@.skip(a as int);
    let mut b: usize = n;
    while b > a && is_whitespace(s[b - 1])
        invariant
            n == s@.len(),
            a <= b <= n,
            t == s@.skip(a as int),
            forall|j: int| b <= j < n ==> is_ws(s@[j]),
        decreases b,
    {
        b = b - 1;
    }
    proof {
        assert forall|j: int| t.len() - (n - b) <= j < t.len() implies is_ws(t[j]) by {
            assert(t[j] == s@[j + a]);
        }
        if n - b < t.len() {
            assert(t[t.len() - (n - b) - 1] == s@[b - 1]);
        }
        lemma_trail_ws(t, (n - b) as int);
    }
    let mut r: Vec<char> = Vec::new();
    let mut i: usize = a;
    while i < b
        invariant
            a <= i <= b,
            b <= s@.len(),
            r@ == s@.subrange(a as int, i as int),
        decreases b - i,
    {
        r.push(s[i]);
        i = i + 1;
        assert(r@ =~= s@.subrange(a as int, i as int));
    }
    assert(r@ =~= trim(s@));
    r
}

/// `s.starts_with(p)` on character sequences.
pub fn starts_with_chars(s: &[char], p: &[char]) -> (r: bool)
    ensures
        r == starts_with(s@, p@),
{
    if p.len() > s.len() {
        return false;
    }
    let mut i: usize = 0;
    while i < p.len()
        invariant
            p@.len() <= s@.len(),
            i <= p@.len(),
            forall|j: int| 0 <= j < i ==> s@[j] == p@[j],
        decreases p@.len() - i,
    {
        if s[i] != p[i] {
            assert(s@.take(p@.len() as int)[i as int] != p@[i as int]);
            return false;
        }
        i = i + 1;
    }
    assert(s@.take(p@.len() as int) =~= p@);
    true
}

/// `p` occurs in `s` at position `i`.
pub fn occurs_at_exec(s: &[char], p: &[char], i: usize) -> (r: bool)
    ensures
        r == occurs_at(s@, p@, i as int),
{
    if i > s.len() || p.len() > s.len() - i {
        return false;
    }
    let mut k: usize = 0;
    while k < p.len()
        invariant
            s@.len() <= usize::MAX,
            i + p@.len() <= s@.len(),
            k <= p@.len(),
            forall|j: int| 0 <= j < k ==> s@[i + j] == p@[j],
        decreases p@.len() - k,
    {
        if s[i + k] != p[k] {
            assert(s@.subrange(i as int, i + p@.len())[k as int] != p@[k as int]);
            return false;
        }
        k = k + 1;
    }
    assert(s@.subrange(i as int, i + p@.len()) =~= p@);
    true
}

/// `s.find(p)` on character sequences.
pub fn find_chars(s: &[char], p: &[char]) -> (r: Option<usize>)
    ensures
        match r {
            Some(i) => find(s@, p@) == Some(i as int) && occurs_at(s@, p@, i as int),
            None => find(s@, p@) is None && !contains(s@, p@),
        },
{
    let mut i: usize = 0;
    while i <= s.len()
        invariant
            i <= s@.len() + 1,
            find(s@, p@) == find_from(s@, p@, i as int),
            forall|j: int| 0 <= j < i ==> !occurs_at(s@, p@, j),
        decreases s@.len() + 1 - i,
    {
        if occurs_at_exec(s, p, i) {
            return Some(i);
        }
        if i == s.len() {
            assert(find_from(s@, p@, i + 1) is None);
            proof {
                assert forall|k: int| !occurs_at(s@, p@, k) by {
                    if occurs_at(s@, p@, k) {
                        assert(k <= s@.len());
                    }
                }
            }
            return None;
        }
        i = i + 1;
    }
    None
}

/// `s.contains(p)` on character sequences.
pub fn contains_chars(s: &[char], p: &[char]) -> (r: bool)
    ensures
        r == contains(s@, p@),
{
    match find_chars(s, p) {
        Some(_) => true,
        None => false,
    }
}

} // verus!

verus! {

/// The pieces of `s` between `'\n'` characters (`s.split('\n')`): always at
/// least one piece.
pub open spec fn split_nl(s: Seq<char>) -> Seq<Seq<char>>
    decreases s.len(),
{
    if s.len() == 0 {
        seq![Seq::empty()]
    } else {
        let prev = split_nl(s.drop_last());
        if s.last() == '\n' {
            prev.push(Seq::empty())
        } else {
            prev.update(prev.len() - 1, prev.last().push(s.last()))
        }
    }
}

/// A piece that was ended by `'\n'` loses one trailing `'\r'`.
pub open spec fn strip_cr(p: Seq<char>) -> Seq<char> {
    if p.len() > 0 && p.last() == '\r' {
        p.drop_last()
    } else {
        p
    }
}

/// `s.lines()`: the lines of `s`, split at `"\n"` or `"\r\n"`; a final
/// empty piece (text ending in a newline) is not a line.
pub open spec fn lines_of(s: Seq<char>) -> Seq<Seq<char>> {
    let ps = split_nl(s);
    let n = ps.len() - 1;
    let ended = Seq::new(n as nat, |i: int| strip_cr(ps[i]));
    if ps[n].len() == 0 {
        ended
    } else {
        ended.push(ps[n])
    }
}

pub proof fn lemma_split_nl_len(s: Seq<char>)
    ensures
        split_nl(s).len() >= 1,
    decreases s.len(),
{
    if s.len() > 0 {
        lemma_split_nl_len(s.drop_last());
    }
}

/// The lines of a text, as character vectors.
pub fn lines(s: &Vec<char>) -> (r: Vec<Vec<char>>)
    ensures
        r@.len() == lines_of(s@).len(),
        forall|i: int| 0 <= i < r@.len() ==> (#[trigger] r@[i])@ == lines_of(s@)[i],
{
    let mut pieces: Vec<Vec<char>> = Vec::new();
    let mut cur: Vec<char> = Vec::new();
    let mut i: usize = 0;
    while i < s.len()
        invariant
            i <= s@.len(),
            pieces@.len() + 1 == split_nl(s@.take(i as int)).len(),
            forall|k: int| 0 <= k < pieces@.len() ==> (#[trigger] pieces@[k])@ == split_nl(
                s@.take(i as int),
            )[k],
            cur@ == split_nl(s@.take(i as int)).last(),
        decreases s@.len() - i,
    {
        proof {
            lemma_split_nl_len(s@.take(i as int));
            assert(s@.take(i + 1).drop_last() =~= s@.take(i as int));
        }
        if s[i] == '\n' {
            pieces.push(cur);
            cur = Vec::new();
            proof {
                assert(cur@ =~= Seq::<char>::empty());
            }
        } else {
            cur.push(s[i]);
        }
        i = i + 1;
    }
    proof {
        assert(s@.take(s@.len() as int) =~= s@);
        lemma_split_nl_len(s@);
    }
    let ghost ps = split_nl(s@);
    let mut out: Vec<Vec<char>> = Vec::new();
    let mut k: usize = 0;
    while k < pieces.len()
        invariant
            ps == split_nl(s@),
            pieces@.len() + 1 == ps.len(),
            forall|j: int| 0 <= j < pieces@.len() ==> (#[trigger] pieces@[j])@ == ps[j],
            k <= pieces@.len(),
            out@.len() == k,
            forall|j: int| 0 <= j < k ==> (#[trigger] out@[j])@ == strip_cr(ps[j]),
        decreases pieces@.len() - k,
    {
        let p = &pieces[k];
        let mut q: Vec<char> = Vec::new();
        let n = if p.len() > 0 && p[p.len() - 1] == '\r' {
            p.len() - 1
        } else {
            p.len()
        };
        let mut j: usize = 0;
        while j < n
            invariant
                n <= p@.len(),
                j <= n,
                q@ == p@.take(j as int),
            decreases n - j,
        {
            q.push(p[j]);
            j = j + 1;
            assert(q@ =~= p@.take(j as int));
        }
        assert(q@ =~= strip_cr(p@));
        out.push(q);
        k = k + 1;
    }
    if cur.len() > 0 {
        out.push(cur);
    }
    proof {
        let n = ps.len() - 1;
        let ended = Seq::new(n as nat, |i: int| strip_cr(ps[i]));
        if ps[n].len() == 0 {
            assert forall|i: int| 0 <= i < out@.len() implies (#[trigger] out@[i])@ == lines_of(
                s@,
            )[i] by {
                assert(lines_of(s@) == ended);
            }
        } else {
            assert forall|i: int| 0 <= i < out@.len() implies (#[trigger] out@[i])@ == lines_of(
                s@,
            )[i] by {
                assert(lines_of(s@) == ended.push(ps[n]));
            }
        }
    }
    out
}

/// The lines joined with `'\n'` between them (`lines.join("\n")`).
pub open spec fn join_nl(ls: Seq<Seq<char>>) -> Seq<char>
    decreases ls.len(),
{
    if ls.len() == 0 {
        Seq::empty()
    } else if ls.len() == 1 {
        ls[0]
    } else {
        join_nl(ls.drop_last()) + seq!['\n'] + ls.last()
    }
}

/// Appends the characters of `p` to `v`.
pub fn append_chars(v: &mut Vec<char>, p: &[char])
    ensures
        final(v)@ == old(v)@ + p@,
{
    let mut i: usize = 0;
    while i < p.len()
        invariant
            i <= p@.len(),
            v@ == old(v)@ + p@.take(i as int),
        decreases p@.len() - i,
    {
        v.push(p[i]);
        i = i + 1;
        assert(v@ =~= old(v)@ + p@.take(i as int));
    }
    assert(p@.take(p@.len() as int) =~= p@);
}

/// Joins lines with `'\n'` between them.
pub fn join_lines(ls: &Vec<Vec<char>>) -> (r: Vec<char>)
    ensures
        r@ == join_nl(Seq::new(ls@.len(), |i: int| ls@[i]@)),
{
    let ghost vs = Seq::new(ls@.len(), |i: int| ls@[i]@);
    let mut out: Vec<char> = Vec::new();
    let mut i: usize = 0;
    while i < ls.len()
        invariant
            vs == Seq::new(ls@.len(), |i: int| ls@[i]@),
            i <= ls@.len(),
            out@ == join_nl(vs.take(i as int)),
        decreases ls@.len() - i,
    {
        proof {
            assert(vs.take(i + 1).drop_last() =~= vs.take(i as int));
        }
        if i > 0 {
            out.push('\n');
        }
        append_chars(&mut out, ls[i].as_slice());
        i = i + 1;
        proof {
            if i == 1 {
                assert(out@ =~= join_nl(vs.take(i as int)));
            } else {
                assert(out@ =~= join_nl(vs.take(i as int)));
            }
        }
    }
    assert(vs.take(ls@.len() as int) =~= vs);
    out
}

/// Bytes that a character takes in UTF-8.
pub open spec fn char_bytes(c: char) -> nat {
    if (c as u32) < 0x80 {
        1
    } else if (c as u32) < 0x800 {
        2
    } else if (c as u32) < 0x10000 {
        3
    } else {
        4
    }
}

/// Bytes that a character sequence takes in UTF-8 (`str::len`).
pub open spec fn utf8_len(s: Seq<char>) -> nat
    decreases s.len(),
{
    if s.len() == 0 {
        0
    } else {
        utf8_len(s.drop_last()) + char_bytes(s.last())
    }
}

/// Bytes of leading whitespace: `line.len() - line.trim_start().len()`.
pub open spec fn indent_bytes(line: Seq<char>) -> nat {
    utf8_len(line.take(lead_ws(line) as int))
}

/// `trim_start` of a character sequence, with the bytes it removed.
pub fn trim_start_chars(s: &[char]) -> (r: (Vec<char>, u128))
    ensures
        r.0@ == trim_start(s@),
        r.1 == indent_bytes(s@),
        r.1 <= 4 * s@.len(),
{
    let mut a: usize = 0;
    let mut bytes: u128 = 0;
    while a < s.len() && is_whitespace(s[a])
        invariant
            a <= s@.len(),
            forall|j: int| 0 <= j < a ==> is_ws(#[trigger] s@[j]),
            bytes == utf8_len(s@.take(a as int)),
            bytes <= 4 * a,
        decreases s@.len() - a,
    {
        let u = s[a] as u32;
        let b: u128 = if u < 0x80 {
            1
        } else if u < 0x800 {
            2
        } else if u < 0x10000 {
            3
        } else {
            4
        };
        proof {
            assert(s@.take(a + 1).drop_last() =~= s@.take(a as int));
        }
        bytes = bytes + b;
        a = a + 1;
    }
    proof {
        lemma_lead_ws(s@, a as int);
    }
    let mut r: Vec<char> = Vec::new();
    let mut i = a;
    while i < s.len()
        invariant
            a <= i <= s@.len(),
            r@ == s@.subrange(a as int, i as int),
        decreases s@.len() - i,
    {
        r.push(s[i]);
        i = i + 1;
        assert(r@ =~= s@.subrange(a as int, i as int));
    }
    assert(r@ =~= s@.skip(a as int));
    (r, bytes)
}

} // verus!

verus! {

/// Number of leading `c` characters.
pub open spec fn lead_run(s: Seq<char>, c: char) -> nat
    decreases s.len(),
{
    if s.len() > 0 && s[0] == c {
        1 + lead_run(s.drop_first(), c)
    } else {
        0
    }
}

/// Number of trailing `c` characters.
pub open spec fn trail_run(s: Seq<char>, c: char) -> nat
    decreases s.len(),
{
    if s.len() > 0 && s.last() == c {
        1 + trail_run(s.drop_last(), c)
    } else {
        0
    }
}

/// `s.trim_matches(c)`.
pub open spec fn trim_matches(s: Seq<char>, c: char) -> Seq<char> {
    let t = s.skip(lead_run(s, c) as int);
    t.take(t.len() - trail_run(t, c))
}

pub proof fn lemma_lead_run(s: Seq<char>, c: char, k: int)
    requires
        0 <= k <= s.len(),
        forall|j: int| 0 <= j < k ==> s[j] == c,
        k == s.len() || s[k] != c,
    ensures
        lead_run(s, c) == k,
    decreases k,
{
    if k > 0 {
        let t = s.drop_first();
        assert forall|j: int| 0 <= j < k - 1 implies t[j] == c by {
            assert(t[j] == s[j + 1]);
        }
        lemma_lead_run(t, c, k - 1);
    }
}

pub proof fn lemma_trail_run(s: Seq<char>, c: char, k: int)
    requires
        0 <= k <= s.len(),
        forall|j: int| s.len() - k <= j < s.len() ==> s[j] == c,
        k == s.len() || s[s.len() - k - 1] != c,
    ensures
        trail_run(s, c) == k,
    decreases k,
{
    if k > 0 {
        let t = s.drop_last();
        assert forall|j: int| t.len() - (k - 1) <= j < t.len() implies t[j] == c by {
            assert(t[j] == s[j]);
        }
        if k - 1 < t.len() {
            assert(t[t.len() - (k - 1) - 1] == s[s.len() - k - 1]);
        }
        lemma_trail_run(t, c, k - 1);
    }
}

/// The characters of `s` from `a` up to `b`.
pub fn sub_chars(s: &[char], a: usize, b: usize) -> (r: Vec<char>)
    requires
        a <= b <= s@.len(),
    ensures
        r@ == s@.subrange(a as int, b as int),
{
    let mut r: Vec<char> = Vec::new();
    let mut i = a;
    while i < b
        invariant
            a <= i <= b,
            b <= s@.len(),
            r@ == s@.subrange(a as int, i as int),
        decreases b - i,
    {
        r.push(s[i]);
        i = i + 1;
        assert(r@ =~= s@.subrange(a as int, i as int));
    }
    r
}

/// `s.trim_matches(c)` on character sequences.
pub fn trim_matches_chars(s: &[char], c: char) -> (r: Vec<char>)
    ensures
        r@ == trim_matches(s@, c),
{
    let n = s.len();
    let mut a: usize = 0;
    while a < n && s[a] == c
        invariant
            n == s@.len(),
            a <= n,
            forall|j: int| 0 <= j < a ==> s@[j] == c,
        decreases n - a,
    {
        a = a + 1;
    }
    proof {
        lemma_lead_run(s@, c, a as int);
    }
    let ghost t = s@.skip(a as int);
    let mut b: usize = n;
    while b > a && s[b - 1] == c
        invariant
            n == s@.len(),
            a <= b <= n,
            t == s@.skip(a as int),
            forall|j: int| b <= j < n ==> s@[j] == c,
        decreases b,
    {
        b = b - 1;
    }
    proof {
        assert forall|j: int| t.len() - (n - b) <= j < t.len() implies t[j] == c by {
            assert(t[j] == s@[j + a]);
        }
        if n - b < t.len() {
            assert(t[t.len() - (n - b) - 1] == s@[b - 1]);
        }
        lemma_trail_run(t, c, (n - b) as int);
    }
    let r = sub_chars(s, a, b);
    assert(r@ =~= trim_matches(s@, c));
    r
}

/// Position of the first `c` in `s`.
pub open spec fn find_char(s: Seq<char>, c: char) -> Option<int> {
    if exists|i: int| 0 <= i < s.len() && s[i] == c {
        Some(choose|i: int| 0 <= i < s.len() && s[i] == c && forall|j: int| 0 <= j < i ==> s[j] != c)
    } else {
        None
    }
}

/// Finds the first `c` in `s`.
pub fn find_char_exec(s: &[char], c: char) -> (r: Option<usize>)
    ensures
        match r {
            Some(i) => find_char(s@, c) == Some(i as int) && i < s@.len() && s@[i as int] == c
                && forall|j: int| 0 <= j < i ==> s@[j] != c,
            None => find_char(s@, c) is None && forall|j: int| 0 <= j < s@.len() ==> s@[j] != c,
        },
{
    let mut i: usize = 0;
    while i < s.len()
        invariant
            i <= s@.len(),
            forall|j: int| 0 <= j < i ==> s@[j] != c,
        decreases s@.len() - i,
    {
        if s[i] == c {
            proof {
                let w = choose|k: int| 0 <= k < s@.len() && s@[k] == c && forall|j: int|
                    0 <= j < k ==> s@[j] != c;
                assert(0 <= i < s@.len() && s@[i as int] == c && forall|j: int|
                    0 <= j < i ==> s@[j] != c);
                if w < i {
                } else if w > i {
                    assert(s@[i as int] != c);
                }
            }
            return Some(i);
        }
        i = i + 1;
    }
    None
}

} // verus!

verus! {

/// `s.split(c)`: the pieces of `s` between occurrences of `c`; always at
/// least one piece.
pub open spec fn split_on(s: Seq<char>, c: char) -> Seq<Seq<char>>
    decreases s.len(),
{
    if s.len() == 0 {
        seq![Seq::empty()]
    } else {
        let prev = split_on(s.drop_last(), c);
        if s.last() == c {
            prev.push(Seq::empty())
        } else {
            prev.update(prev.len() - 1, prev.last().push(s.last()))
        }
    }
}

proof fn lemma_split_on_len(s: Seq<char>, c: char)
    ensures
        split_on(s, c).len() >= 1,
    decreases s.len(),
{
    if s.len() > 0 {
        lemma_split_on_len(s.drop_last(), c);
    }
}

/// Splits `s` at each `c`.
pub fn split_chars(s: &[char], c: char) -> (r: Vec<Vec<char>>)
    ensures
        r@.len() == split_on(s@, c).len(),
        forall|i: int| 0 <= i < r@.len() ==> (#[trigger] r@[i])@ == split_on(s@, c)[i],
{
    let mut pieces: Vec<Vec<char>> = Vec::new();
    let mut cur: Vec<char> = Vec::new();
    let mut i: usize = 0;
    while i < s.len()
        invariant
            i <= s@.len(),
            pieces@.len() + 1 == split_on(s@.take(i as int), c).len(),
            forall|k: int| 0 <= k < pieces@.len() ==> (#[trigger] pieces@[k])@ == split_on(
                s@.take(i as int),
                c,
            )[k],
            cur@ == split_on(s@.take(i as int), c).last(),
        decreases s@.len() - i,
    {
        proof {
            lemma_split_on_len(s@.take(i as int), c);
            assert(s@.take(i + 1).drop_last() =~= s@.take(i as int));
        }
        if s[i] == c {
            pieces.push(cur);
            cur = Vec::new();
            proof {
                assert(cur@ =~= Seq::<char>::empty());
            }
        } else {
            cur.push(s[i]);
        }
        i = i + 1;
    }
    proof {
        assert(s@.take(s@.len() as int) =~= s@);
        lemma_split_on_len(s@, c);
    }
    pieces.push(cur);
    pieces
}

/// A copy of a character vector.
pub fn copy_chars(s: &Vec<char>) -> (r: Vec<char>)
    ensures
        r@ == s@,
{
    let r = sub_chars(s.as_slice(), 0, s.len());
    assert(r@ =~= s@);
    r
}

/// `p` followed by `s`, as a new vector.
pub fn concat_chars(p: &[char], s: &[char]) -> (r: Vec<char>)
    ensures
        r@ == p@ + s@,
{
    let mut r = sub_chars(p, 0, p.len());
    assert(r@ =~= p@);
    append_chars(&mut r, s);
    r
}

} // verus!

verus! {

/// `s.ends_with(p)` on character sequences.
pub fn ends_with_chars(s: &[char], p: &[char]) -> (r: bool)
    ensures
        r == ends_with(s@, p@),
{
    if p.len() > s.len() {
        return false;
    }
    let n = s.len();
    let off = n - p.len();
    let mut i: usize = 0;
    while i < p.len()
        invariant
            n == s@.len(),
            off + p@.len() == n,
            i <= p@.len(),
            forall|j: int| 0 <= j < i ==> s@[off + j] == p@[j],
        decreases p@.len() - i,
    {
        if s[off + i] != p[i] {
            assert(s@.skip(off as int)[i as int] != p@[i as int]);
            return false;
        }
        i = i + 1;
    }
    assert(s@.skip(off as int) =~= p@);
    true
}

} // verus!

verus! {

/// `str::to_ascii_lowercase`: ASCII letters lowered, other characters kept.
pub open spec fn ascii_lowercase(s: Seq<char>) -> Seq<char> {
    s.map_values(|c: char| crate::float_syntax::ascii_lower(c))
}

/// Lowers the ASCII letters of a string.
pub fn to_ascii_lowercase(s: &str) -> (r: Vec<char>)
    ensures
        r@ == ascii_lowercase(s@),
{
    let cs = chars_of(s);
    let mut out: Vec<char> = Vec::new();
    let mut i: usize = 0;
    while i < cs.len()
        invariant
            cs@ == s@,
            i <= cs@.len(),
            out@ == ascii_lowercase(s@).take(i as int),
        decreases cs@.len() - i,
    {
        let c = cs[i];
        let l = if 'A' <= c && c <= 'Z' {
            (((c as u32) + 32) as u8) as char
        } else {
            c
        };
        out.push(l);
        i = i + 1;
        assert(out@ =~= ascii_lowercase(s@).take(i as int));
    }
    assert(ascii_lowercase(s@).take(cs@.len() as int) =~= ascii_lowercase(s@));
    out
}

} // verus!

verus! {

/// A text that neither starts nor ends with whitespace is its own trim.
pub proof fn lemma_trim_fixed(s: Seq<char>)
    requires
        s.len() == 0 || (!is_ws(s[0]) && !is_ws(s.last())),
    ensures
        trim(s) == s,
{
    lemma_lead_ws(s, 0);
    assert(s.skip(0) =~= s);
    lemma_trail_ws(s, 0);
    assert(s.take(s.len() as int) =~= s);
}

/// The trim of a text is the part from its first to its last
/// non-whitespace character.
pub proof fn lemma_trim_range(s: Seq<char>, a: int, b: int)
    requires
        0 <= a <= b < s.len(),
        forall|j: int| 0 <= j < a ==> is_ws(s[j]),
        !is_ws(s[a]),
        !is_ws(s[b]),
        forall|j: int| b < j < s.len() ==> is_ws(s[j]),
    ensures
        trim(s) == s.subrange(a, b + 1),
{
    lemma_lead_ws(s, a);
    let u = s.skip(a);
    let k = s.len() - 1 - b;
    assert forall|j: int| u.len() - k <= j < u.len() implies is_ws(u[j]) by {
        assert(u[j] == s[j + a]);
    }
    assert(u[u.len() - k - 1] == s[b]);
    lemma_trail_ws(u, k);
    assert(u.take(u.len() - k) =~= s.subrange(a, b + 1));
}

/// A text of whitespace only trims to nothing.
pub proof fn lemma_trim_all_ws(s: Seq<char>)
    requires
        forall|j: int| 0 <= j < s.len() ==> is_ws(s[j]),
    ensures
        trim(s).len() == 0,
{
    lemma_lead_ws(s, s.len() as int);
}

/// Dropping a trailing whitespace character does not change the trim.
pub proof fn lemma_trim_drop_ws(s: Seq<char>)
    requires
        s.len() > 0,
        is_ws(s.last()),
    ensures
        trim(s.drop_last()) == trim(s),
{
    let t = s.drop_last();
    if forall|j: int| 0 <= j < t.len() ==> is_ws(t[j]) {
        lemma_trim_all_ws(t);
        assert forall|j: int| 0 <= j < s.len() implies is_ws(s[j]) by {
            if j < t.len() {
                assert(t[j] == s[j]);
            }
        }
        lemma_trim_all_ws(s);
        assert(trim(t) =~= trim(s));
    } else {
        let w = choose|w: int| 0 <= w < t.len() && !is_ws(t[w]);
        let a = first_non_ws(t, w);
        let b = last_non_ws(t, w);
        assert(t[a] == s[a] && t[b] == s[b]);
        assert forall|j: int| 0 <= j < a implies is_ws(s[j]) by {
            assert(t[j] == s[j]);
        }
        assert forall|j: int| b < j < s.len() implies is_ws(s[j]) by {
            if j < t.len() {
                assert(t[j] == s[j]);
            }
        }
        lemma_trim_range(t, a, b);
        lemma_trim_range(s, a, b);
        assert(t.subrange(a, b + 1) =~= s.subrange(a, b + 1));
    }
}

/// The first non-whitespace position, given one.
pub proof fn first_non_ws(s: Seq<char>, w: int) -> (a: int)
    requires
        0 <= w < s.len(),
        !is_ws(s[w]),
    ensures
        0 <= a <= w,
        !is_ws(s[a]),
        forall|j: int| 0 <= j < a ==> is_ws(s[j]),
    decreases w,
{
    if forall|j: int| 0 <= j < w ==> is_ws(s[j]) {
        w
    } else {
        let v = choose|v: int| 0 <= v < w && !is_ws(s[v]);
        first_non_ws(s, v)
    }
}

/// The last non-whitespace position, given one.
pub proof fn last_non_ws(s: Seq<char>, w: int) -> (b: int)
    requires
        0 <= w < s.len(),
        !is_ws(s[w]),
    ensures
        w <= b < s.len(),
        !is_ws(s[b]),
        forall|j: int| b < j < s.len() ==> is_ws(s[j]),
    decreases s.len() - w,
{
    if forall|j: int| w < j < s.len() ==> is_ws(s[j]) {
        w
    } else {
        let v = choose|v: int| w < v < s.len() && !is_ws(s[v]);
        last_non_ws(s, v)
    }
}

/// `strip_cr` does not change the trim of a line.
pub proof fn lemma_trim_strip_cr(l: Seq<char>)
    ensures
        trim(strip_cr(l)) == trim(l),
{
    if l.len() > 0 && l.last() == '\r' {
        assert(is_ws(l.last()));
        lemma_trim_drop_ws(l);
    }
}

/// No piece of `split_nl` holds a newline.
pub proof fn lemma_split_no_nl(s: Seq<char>)
    ensures
        forall|i: int, j: int| 0 <= i < split_nl(s).len() && 0 <= j < split_nl(s)[i].len() ==> split_nl(s)[i][j] != '\n',
    decreases s.len(),
{
    if s.len() > 0 {
        lemma_split_no_nl(s.drop_last());
        lemma_split_nl_len(s.drop_last());
        let prev = split_nl(s.drop_last());
        if s.last() != '\n' {
            let last = prev.last().push(s.last());
            assert forall|j: int| 0 <= j < last.len() implies last[j] != '\n' by {
                if j < prev.last().len() {
                    assert(last[j] == prev[prev.len() - 1][j]);
                }
            }
        }
    }
}

/// No line of a text holds a newline.
pub proof fn lemma_lines_no_nl(s: Seq<char>)
    ensures
        forall|i: int, j: int| 0 <= i < lines_of(s).len() && 0 <= j < lines_of(s)[i].len() ==> lines_of(s)[i][j] != '\n',
{
    lemma_split_no_nl(s);
    lemma_split_nl_len(s);
    let ps = split_nl(s);
    let n = ps.len() - 1;
    assert forall|i: int, j: int| 0 <= i < lines_of(s).len() && 0 <= j < lines_of(s)[i].len() implies lines_of(s)[i][j] != '\n' by {
        if i < n {
            assert(lines_of(s)[i] == strip_cr(ps[i]));
            assert(strip_cr(ps[i])[j] == ps[i][j]);
        } else {
            assert(lines_of(s)[i] == ps[n]);
        }
    }
}

/// Appending text without newlines extends the last piece.
pub proof fn lemma_split_concat(s: Seq<char>, t: Seq<char>)
    requires
        forall|j: int| 0 <= j < t.len() ==> t[j] != '\n',
    ensures
        split_nl(s + t) == split_nl(s).update(split_nl(s).len() - 1, split_nl(s).last() + t),
    decreases t.len(),
{
    lemma_split_nl_len(s);
    if t.len() == 0 {
        assert(s + t =~= s);
        assert(split_nl(s).last() + t =~= split_nl(s).last());
        assert(split_nl(s).update(split_nl(s).len() - 1, split_nl(s).last()) =~= split_nl(s));
    } else {
        let t0 = t.drop_last();
        lemma_split_concat(s, t0);
        assert((s + t).drop_last() =~= s + t0);
        assert((s + t).last() == t.last());
        let prev = split_nl(s + t0);
        assert(prev.last() == split_nl(s).last() + t0);
        assert((split_nl(s).last() + t0).push(t.last()) =~= split_nl(s).last() + t);
        assert(split_nl(s + t) =~= split_nl(s).update(split_nl(s).len() - 1, split_nl(s).last() + t));
    }
}

/// Splitting joined lines without newlines gives the lines back.
pub proof fn lemma_split_join(ls: Seq<Seq<char>>)
    requires
        ls.len() >= 1,
        forall|i: int, j: int| 0 <= i < ls.len() && 0 <= j < ls[i].len() ==> ls[i][j] != '\n',
    ensures
        split_nl(join_nl(ls)) == ls,
    decreases ls.len(),
{
    if ls.len() == 1 {
        lemma_split_concat(Seq::empty(), ls[0]);
        assert(Seq::<char>::empty() + ls[0] =~= ls[0]);
        assert(split_nl(Seq::<char>::empty()) =~= seq![Seq::<char>::empty()]);
        assert(seq![Seq::<char>::empty()].update(0, Seq::<char>::empty() + ls[0]) =~= ls);
    } else {
        let init = ls.drop_last();
        lemma_split_join(init);
        let a = join_nl(init) + seq!['\n'];
        assert(a.drop_last() =~= join_nl(init));
        assert(split_nl(a) == init.push(Seq::<char>::empty()));
        lemma_split_concat(a, ls.last());
        assert(join_nl(ls) =~= a + ls.last());
        assert(Seq::<char>::empty() + ls.last() =~= ls.last());
        assert(init.push(Seq::<char>::empty()).update(init.len() as int, ls.last()) =~= ls);
    }
}

/// The lines of joined lines ended by a newline are the lines, each
/// without one trailing carriage return.
pub proof fn lemma_lines_of_joined(ls: Seq<Seq<char>>)
    requires
        ls.len() >= 1,
        forall|i: int, j: int| 0 <= i < ls.len() && 0 <= j < ls[i].len() ==> ls[i][j] != '\n',
    ensures
        lines_of(join_nl(ls) + seq!['\n']) == Seq::new(ls.len(), |i: int| strip_cr(ls[i])),
{
    lemma_split_join(ls);
    let s = join_nl(ls) + seq!['\n'];
    assert(s.drop_last() =~= join_nl(ls));
    assert(split_nl(s) == ls.push(Seq::<char>::empty()));
    assert(lines_of(s) =~= Seq::new(ls.len(), |i: int| strip_cr(ls[i])));
}

} // verus!

verus! {

/// A trimmed text neither starts nor ends with whitespace.
pub proof fn lemma_trim_ends(s: Seq<char>)
    ensures
        trim(s).len() == 0 || (!is_ws(trim(s)[0]) && !is_ws(trim(s).last())),
        trim(trim(s)) == trim(s),
{
    if forall|j: int| 0 <= j < s.len() ==> is_ws(s[j]) {
        lemma_trim_all_ws(s);
    } else {
        let w = choose|w: int| 0 <= w < s.len() && !is_ws(s[w]);
        let a = first_non_ws(s, w);
        let b = last_non_ws(s, w);
        lemma_trim_range(s, a, b);
        assert(trim(s)[0] == s[a]);
        assert(trim(s).last() == s[b]);
    }
    lemma_trim_fixed(trim(s));
}

} // verus!
