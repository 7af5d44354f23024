//! Hermes configuration: `.env` files, the blocks of `config.yaml` that the
//! desktop edits, provider key rules and proxy resolution.

use vstd::prelude::*;
use vstd::string::StringSliceAdditionalSpecFns;
use crate::json::{Json, JsonV, jget, ostr, obool, ostring};
use crate::text::{trim, trim_chars, lines, lines_of, join_nl, join_lines, chars_of,
    string_from_chars, find_char, find_char_exec, trim_matches, trim_matches_chars, sub_chars,
    starts_with, starts_with_chars, append_chars, str_eq, trim_start, trim_start_chars,
    indent_bytes, chars_eq, contains, contains_chars, split_chars, concat_chars};

verus! {

/// The entry that one `.env` line gives: `KEY=value`, with the key trimmed
/// and the value trimmed and stripped of surrounding `"` and then `'`.
/// Blank lines, comments and lines without `=` give none.
pub open spec fn env_entry(line: Seq<char>) -> Option<(Seq<char>, Seq<char>)> {
    let t = trim(line);
    if t.len() == 0 || t[0] == '#' {
        None
    } else {
        match find_char(t, '=') {
            Some(i) => Some(
                (trim(t.take(i)), trim_matches(trim_matches(trim(t.skip(i + 1)), '"'), '\'')),
            ),
            None => None,
        }
    }
}

/// The entries of a sequence of `.env` lines, in order.
pub open spec fn env_entries(ls: Seq<Seq<char>>) -> Seq<(Seq<char>, Seq<char>)>
    decreases ls.len(),
{
    if ls.len() == 0 {
        Seq::empty()
    } else {
        let r = env_entries(ls.drop_last());
        match env_entry(ls.last()) {
            Some(e) => r.push(e),
            None => r,
        }
    }
}

/// The map that a sequence of entries gives: a later entry overrides an
/// earlier one with the same key.
pub open spec fn env_view(es: Seq<(Seq<char>, Seq<char>)>) -> Map<Seq<char>, Seq<char>>
    decreases es.len(),
{
    if es.len() == 0 {
        Map::empty()
    } else {
        env_view(es.drop_last()).insert(es.last().0, es.last().1)
    }
}

/// The variables that a `.env` text defines.
pub open spec fn parse_env(content: Seq<char>) -> Map<Seq<char>, Seq<char>> {
    env_view(env_entries(lines_of(content)))
}

/// The views of a vector of string pairs.
pub open spec fn pairs_view(v: Seq<(String, String)>) -> Seq<(Seq<char>, Seq<char>)> {
    Seq::new(v.len(), |i: int| (v[i].0@, v[i].1@))
}

/// Environment variables, as a map from name to value.
pub struct EnvMap {
    pub entries: Vec<(String, String)>,
}

impl View for EnvMap {
    type V = Map<Seq<char>, Seq<char>>;

    open spec fn view(&self) -> Map<Seq<char>, Seq<char>> {
        env_view(pairs_view(self.entries@))
    }
}

proof fn lemma_env_view_tail(es: Seq<(Seq<char>, Seq<char>)>, i: int, k: Seq<char>)
    requires
        0 <= i <= es.len(),
        forall|j: int| i <= j < es.len() ==> (#[trigger] es[j]).0 != k,
    ensures
        env_view(es).contains_key(k) == env_view(es.take(i)).contains_key(k),
        env_view(es)[k] == env_view(es.take(i))[k],
    decreases es.len(),
{
    if es.len() > i {
        assert(es.drop_last().take(i) =~= es.take(i));
        lemma_env_view_tail(es.drop_last(), i, k);
    } else {
        assert(es.take(i) =~= es);
    }
}

impl EnvMap {
    /// An empty map.
    pub fn new() -> (r: Self)
        ensures
            r@ == Map::<Seq<char>, Seq<char>>::empty(),
    {
        EnvMap { entries: Vec::new() }
    }

    /// Sets `key` to `value`.
    pub fn insert(&mut self, key: &str, value: &str)
        ensures
            final(self)@ == old(self)@.insert(key@, value@),
    {
        self.entries.push((key.to_owned(), value.to_owned()));
        proof {
            assert(pairs_view(self.entries@).drop_last() =~= pairs_view(old(self).entries@));
        }
    }

    /// The value of `key`, if set.
    pub fn get(&self, key: &str) -> (r: Option<&str>)
        ensures
            match r {
                Some(v) => self@.contains_key(key@) && self@[key@] == v@,
                None => !self@.contains_key(key@),
            },
    {
        let ghost es = pairs_view(self.entries@);
        let mut i = self.entries.len();
        while i > 0
            invariant
                es == pairs_view(self.entries@),
                i <= self.entries@.len(),
                forall|j: int| i <= j < es.len() ==> (#[trigger] es[j]).0 != key@,
            decreases i,
        {
            if str_eq(self.entries[i - 1].0.as_str(), key) {
                proof {
                    assert(es.take(i as int).drop_last() =~= es.take(i - 1));
                    lemma_env_view_tail(es, i as int, key@);
                }
                return Some(self.entries[i - 1].1.as_str());
            }
            i = i - 1;
        }
        proof {
            lemma_env_view_tail(es, 0, key@);
            assert(es.take(0) =~= Seq::<(Seq<char>, Seq<char>)>::empty());
        }
        None
    }

    /// The value of `key`, trimmed, or empty when unset.
    pub fn get_trimmed(&self, key: &str) -> (r: Vec<char>)
        ensures
            r@ == (if self@.contains_key(key@) {
                trim(self@[key@])
            } else {
                Seq::empty()
            }),
    {
        match self.get(key) {
            Some(v) => trim_chars(&chars_of(v)),
            None => Vec::new(),
        }
    }
}

fn env_entry_exec(line: &Vec<char>) -> (r: Option<(Vec<char>, Vec<char>)>)
    ensures
        match r {
            Some((k, v)) => env_entry(line@) == Some((k@, v@)),
            None => env_entry(line@) is None,
        },
{
    let t = trim_chars(line);
    if t.len() == 0 || t[0] == '#' {
        return None;
    }
    match find_char_exec(t.as_slice(), '=') {
        Some(i) => {
            let k = trim_chars(&sub_chars(t.as_slice(), 0, i));
            let v0 = trim_chars(&sub_chars(t.as_slice(), i + 1, t.len()));
            let v1 = trim_matches_chars(v0.as_slice(), '"');
            let v2 = trim_matches_chars(v1.as_slice(), '\'');
            assert(t@.subrange(0, i as int) =~= t@.take(i as int));
            assert(t@.subrange(i + 1, t@.len() as int) =~= t@.skip(i + 1));
            Some((k, v2))
        },
        None => None,
    }
}

/// Reads the variables that a `.env` text defines.
pub fn read_env(content: &str) -> (r: EnvMap)
    ensures
        r@ == parse_env(content@),
{
    let ls = lines(&chars_of(content));
    let ghost lv = lines_of(content@);
    let mut m = EnvMap { entries: Vec::new() };
    let mut i: usize = 0;
    proof {
        assert(pairs_view(m.entries@) =~= env_entries(lv.take(0)));
    }
    while i < ls.len()
        invariant
            lv == lines_of(content@),
            ls@.len() == lv.len(),
            forall|j: int| 0 <= j < ls@.len() ==> (#[trigger] ls@[j])@ == lv[j],
            i <= ls@.len(),
            pairs_view(m.entries@) == env_entries(lv.take(i as int)),
        decreases ls@.len() - i,
    {
        proof {
            assert(lv.take(i + 1).drop_last() =~= lv.take(i as int));
        }
        let ghost before = m.entries@;
        match env_entry_exec(&ls[i]) {
            Some((k, v)) => {
                m.entries.push((string_from_chars(k.as_slice()), string_from_chars(v.as_slice())));
                proof {
                    assert(pairs_view(m.entries@) =~= pairs_view(before).push((k@, v@)));
                }
            },
            None => {},
        }
        i = i + 1;
    }
    proof {
        assert(lv.take(ls@.len() as int) =~= lv);
    }
    m
}

/// The `.env` line that sets `key` to `value`: `KEY="value"`.
pub open spec fn env_line(key: Seq<char>, value: Seq<char>) -> Seq<char> {
    key + "=\""@ + value + "\""@
}

/// True when a line assigns `key` (`KEY=` or `KEY =` after trimming).
pub open spec fn assigns_key(line: Seq<char>, key: Seq<char>) -> bool {
    starts_with(trim(line), key + "="@) || starts_with(trim(line), key + " ="@)
}

/// The first line that assigns `key`.
pub open spec fn first_assigning(ls: Seq<Seq<char>>, key: Seq<char>) -> Option<int> {
    if exists|i: int| 0 <= i < ls.len() && assigns_key(ls[i], key) {
        Some(
            choose|i: int|
                0 <= i < ls.len() && assigns_key(ls[i], key) && forall|j: int|
                    0 <= j < i ==> !assigns_key(ls[j], key),
        )
    } else {
        None
    }
}

/// The `.env` text after `key` is set to `value`: the first line that
/// assigns the key is replaced, else the line is appended; the text ends
/// with a newline.
pub open spec fn with_env_value(content: Seq<char>, key: Seq<char>, value: Seq<char>) -> Seq<char> {
    let ls = lines_of(content);
    let ls2 = match first_assigning(ls, key) {
        Some(i) => ls.update(i, env_line(key, value)),
        None => ls.push(env_line(key, value)),
    };
    join_nl(ls2) + "\n"@
}

/// A key that a `.env` line carries unchanged: no `=` and no newline in
/// it, and, when it is not empty, no `#` first and no whitespace at either
/// end.
pub open spec fn plain_env_key(k: Seq<char>) -> bool {
    &&& forall|j: int| 0 <= j < k.len() ==> k[j] != '=' && k[j] != '\n'
    &&& k.len() > 0 ==> (k[0] != '#' && !crate::text::is_ws(k[0]) && !crate::text::is_ws(k.last()))
}

/// A value that a quoted `.env` line gives back unchanged: no newline in
/// it and, when it is not empty, no quote of either kind at either end.
pub open spec fn plain_env_value(v: Seq<char>) -> bool {
    &&& forall|j: int| 0 <= j < v.len() ==> v[j] != '\n'
    &&& v.len() > 0 ==> (v[0] != '"' && v[0] != '\'' && v.last() != '"' && v.last() != '\'')
}

/// Whether a `.env` line defines the key.
pub open spec fn defines_key(line: Seq<char>, k: Seq<char>) -> bool {
    match env_entry(line) {
        Some(e) => e.0 == k,
        None => false,
    }
}

proof fn lemma_env_line_entry(k: Seq<char>, v: Seq<char>)
    requires
        plain_env_key(k),
        plain_env_value(v),
    ensures
        env_entry(env_line(k, v)) == Some((k, v)),
{
    reveal_strlit("=\"");
    reveal_strlit("\"");
    let t = env_line(k, v);
    let n = k.len() as int;
    assert(t.len() == n + 3 + v.len());
    assert(t[n] == '=');
    assert(t.last() == '"');
    if k.len() > 0 {
        assert(t[0] == k[0]);
    }
    crate::text::lemma_trim_fixed(t);
    assert(exists|i: int| 0 <= i < t.len() && t[i] == '=');
    let i0 = choose|i: int| 0 <= i < t.len() && t[i] == '=' && forall|j: int| 0 <= j < i ==> t[j] != '=';
    if i0 < n {
        assert(t[i0] == k[i0]);
    } else if i0 > n {
        assert(t[n] != '=');
    }
    assert(find_char(t, '=') == Some(n));
    assert(t.take(n) =~= k);
    crate::text::lemma_trim_fixed(k);
    let q = t.skip(n + 1);
    assert(q =~= seq!['"'] + v + seq!['"']);
    crate::text::lemma_trim_fixed(q);
    if v.len() == 0 {
        crate::text::lemma_lead_run(q, '"', 2);
        let t1 = q.skip(2);
        assert(t1.len() == 0);
        crate::text::lemma_trail_run(t1, '"', 0);
        assert(trim_matches(q, '"') =~= v);
        let t2 = v.skip(0);
        crate::text::lemma_lead_run(v, '\'', 0);
        crate::text::lemma_trail_run(t2, '\'', 0);
        assert(trim_matches(v, '\'') =~= v);
    } else {
        assert(q[1] == v[0]);
        crate::text::lemma_lead_run(q, '"', 1);
        let t1 = q.skip(1);
        assert(t1 =~= v + seq!['"']);
        assert(t1[t1.len() - 2] == v.last());
        crate::text::lemma_trail_run(t1, '"', 1);
        assert(t1.take(t1.len() - 1) =~= v);
        assert(trim_matches(q, '"') =~= v);
        crate::text::lemma_lead_run(v, '\'', 0);
        assert(v.skip(0) =~= v);
        crate::text::lemma_trail_run(v, '\'', 0);
        assert(v.take(v.len() as int) =~= v);
        assert(trim_matches(v, '\'') =~= v);
    }
}

proof fn lemma_env_entries_strip_cr(ls: Seq<Seq<char>>)
    ensures
        env_entries(Seq::new(ls.len(), |i: int| crate::text::strip_cr(ls[i]))) == env_entries(ls),
    decreases ls.len(),
{
    let ms = Seq::new(ls.len(), |i: int| crate::text::strip_cr(ls[i]));
    if ls.len() > 0 {
        let init = ls.drop_last();
        lemma_env_entries_strip_cr(init);
        assert(ms.drop_last() =~= Seq::new(init.len(), |i: int| crate::text::strip_cr(init[i])));
        crate::text::lemma_trim_strip_cr(ls.last());
        assert(env_entry(ms.last()) == env_entry(ls.last()));
    }
}

proof fn lemma_lines_env_last(ls: Seq<Seq<char>>, i: int, k: Seq<char>, v: Seq<char>)
    requires
        0 <= i < ls.len(),
        env_entry(ls[i]) == Some((k, v)),
        forall|j: int| i < j < ls.len() ==> !defines_key(#[trigger] ls[j], k),
    ensures
        env_view(env_entries(ls)).contains_key(k),
        env_view(env_entries(ls))[k] == v,
    decreases ls.len(),
{
    let init = ls.drop_last();
    assert(ls.last() == ls[ls.len() - 1]);
    let prev = env_entries(init);
    assert(env_entries(ls) == (match env_entry(ls.last()) {
        Some(e) => prev.push(e),
        None => prev,
    }));
    if i < ls.len() - 1 {
        assert forall|j: int| i < j < init.len() implies !defines_key(#[trigger] init[j], k) by {
            assert(init[j] == ls[j]);
        }
        assert(init[i] == ls[i]);
        lemma_lines_env_last(init, i, k, v);
        assert(!defines_key(ls[ls.len() - 1], k));
        match env_entry(ls.last()) {
            Some(e) => {
                assert(e.0 != k);
                let es = prev.push(e);
                assert(es.drop_last() =~= prev);
                assert(env_view(es) == env_view(prev).insert(e.0, e.1));
            },
            None => {},
        }
    } else {
        let es = prev.push((k, v));
        assert(es.drop_last() =~= prev);
        assert(env_view(es) == env_view(prev).insert(k, v));
    }
}

proof fn lemma_min_assigning(ls: Seq<Seq<char>>, key: Seq<char>, m: int)
    requires
        0 <= m < ls.len(),
        assigns_key(ls[m], key),
    ensures
        exists|i: int|
            0 <= i < ls.len() && assigns_key(ls[i], key) && forall|j: int| 0 <= j < i ==> !assigns_key(ls[j], key),
    decreases m,
{
    if !(forall|j: int| 0 <= j < m ==> !assigns_key(ls[j], key)) {
        let j = choose|j: int| 0 <= j < m && assigns_key(ls[j], key);
        lemma_min_assigning(ls, key, j);
    }
}

proof fn lemma_first_assigning(ls: Seq<Seq<char>>, key: Seq<char>)
    ensures
        match first_assigning(ls, key) {
            Some(i) => 0 <= i < ls.len() && assigns_key(ls[i], key),
            None => true,
        },
{
    if exists|i: int| 0 <= i < ls.len() && assigns_key(ls[i], key) {
        let m = choose|i: int| 0 <= i < ls.len() && assigns_key(ls[i], key);
        lemma_min_assigning(ls, key, m);
    }
}

/// A variable written to a `.env` text reads back with the written value,
/// provided the key and value survive the quoted line unchanged and no
/// later line than the one rewritten defines the key again.
#[verifier::rlimit(50)]
pub proof fn lemma_env_read_after_write(content: Seq<char>, key: Seq<char>, value: Seq<char>)
    requires
        plain_env_key(key),
        plain_env_value(value),
        match first_assigning(lines_of(content), key) {
            Some(i) => forall|j: int| i < j < lines_of(content).len() ==> !defines_key(#[trigger] lines_of(content)[j], key),
            None => true,
        },
    ensures
        parse_env(with_env_value(content, key, value)).contains_key(key),
        parse_env(with_env_value(content, key, value))[key] == value,
{
    reveal_strlit("\n");
    reveal_strlit("=\"");
    reveal_strlit("\"");
    let ls = lines_of(content);
    crate::text::lemma_lines_no_nl(content);
    let line = env_line(key, value);
    assert forall|j: int| 0 <= j < line.len() implies line[j] != '\n' by {
        if j < key.len() {
            assert(line[j] == key[j]);
        } else if key.len() + 2 <= j < key.len() + 2 + value.len() {
            assert(line[j] == value[j - key.len() - 2]);
        }
    }
    lemma_env_line_entry(key, value);
    let idx: int = match first_assigning(ls, key) {
        Some(i) => i,
        None => ls.len() as int,
    };
    let ls2 = match first_assigning(ls, key) {
        Some(i) => ls.update(i, line),
        None => ls.push(line),
    };
    lemma_first_assigning(ls, key);
    assert(0 <= idx < ls2.len());
    assert(ls2[idx] == line);
    assert forall|i: int, j: int| 0 <= i < ls2.len() && 0 <= j < ls2[i].len() implies ls2[i][j] != '\n' by {
        if i != idx {
            assert(ls2[i] == ls[i]);
        }
    }
    assert forall|j: int| idx < j < ls2.len() implies !defines_key(#[trigger] ls2[j], key) by {
        assert(ls2[j] == ls[j]);
    }
    assert("\n"@ =~= seq!['\n']);
    crate::text::lemma_lines_of_joined(ls2);
    lemma_env_entries_strip_cr(ls2);
    lemma_lines_env_last(ls2, idx, key, value);
}

fn env_line_exec(key: &str, value: &str) -> (r: Vec<char>)
    ensures
        r@ == env_line(key@, value@),
{
    let mut out = chars_of(key);
    append_chars(&mut out, chars_of("=\"").as_slice());
    append_chars(&mut out, chars_of(value).as_slice());
    append_chars(&mut out, chars_of("\"").as_slice());
    out
}

fn assigns_key_exec(line: &Vec<char>, key: &str) -> (r: bool)
    ensures
        r == assigns_key(line@, key@),
{
    let t = trim_chars(line);
    let mut p1 = chars_of(key);
    append_chars(&mut p1, chars_of("=").as_slice());
    let mut p2 = chars_of(key);
    append_chars(&mut p2, chars_of(" =").as_slice());
    starts_with_chars(t.as_slice(), p1.as_slice()) || starts_with_chars(
        t.as_slice(),
        p2.as_slice(),
    )
}

/// The `.env` text after `key` is set to `value` (see `with_env_value`).
#[verifier::rlimit(40)]
pub fn write_env_value(content: &str, key: &str, value: &str) -> (r: String)
    ensures
        r@ == with_env_value(content@, key@, value@),
{
    let mut ls = lines(&chars_of(content));
    let ghost lv = lines_of(content@);
    let mut i: usize = 0;
    let mut found = false;
    while !found && i < ls.len()
        invariant
            lv == lines_of(content@),
            ls@.len() == lv.len(),
            forall|j: int| 0 <= j < ls@.len() ==> (#[trigger] ls@[j])@ == lv[j],
            i <= ls@.len(),
            found ==> i < ls@.len() && assigns_key(lv[i as int], key@),
            forall|j: int| 0 <= j < i ==> !assigns_key(#[trigger] lv[j], key@),
        decreases ls@.len() - i + (if found { 0int } else { 1int }),
    {
        if assigns_key_exec(&ls[i], key) {
            found = true;
        } else {
            i = i + 1;
        }
    }
    let ghost target = if found {
        lv.update(i as int, env_line(key@, value@))
    } else {
        lv.push(env_line(key@, value@))
    };
    proof {
        if found {
            let w = choose|k: int|
                0 <= k < lv.len() && assigns_key(lv[k], key@) && forall|j: int|
                    0 <= j < k ==> !assigns_key(lv[j], key@);
            assert(0 <= i < lv.len() && assigns_key(lv[i as int], key@));
            if w < i {
            } else if w > i {
                assert(!assigns_key(lv[i as int], key@));
            }
            assert(first_assigning(lv, key@) == Some(i as int));
        } else {
            assert(first_assigning(lv, key@) is None);
        }
    }
    let line = env_line_exec(key, value);
    if found {
        ls.set(i, line);
    } else {
        ls.push(line);
    }
    proof {
        assert forall|j: int| 0 <= j < ls@.len() implies (#[trigger] ls@[j])@ == target[j] by {}
        assert(Seq::new(ls@.len(), |j: int| ls@[j]@) =~= target);
    }
    let mut out = join_lines(&ls);
    out.push('\n');
    proof {
        reveal_strlit("\n");
        assert(out@ =~= with_env_value(content@, key@, value@));
    }
    string_from_chars(out.as_slice())
}


/// `n` spaces.
pub open spec fn spaces(n: nat) -> Seq<char> {
    Seq::new(n, |i: int| ' ')
}

/// The YAML line `<indent spaces>key: value`.
pub open spec fn kv_line(indent: nat, k: Seq<char>, v: Seq<char>) -> Seq<char> {
    spaces(indent) + k + ": "@ + v
}

/// The YAML lines for the pairs, each indented by `indent` spaces.
pub open spec fn kv_lines(kvs: Seq<(Seq<char>, Seq<char>)>, indent: nat) -> Seq<Seq<char>> {
    Seq::new(kvs.len(), |i: int| kv_line(indent, kvs[i].0, kvs[i].1))
}

/// True when the pair's key, followed by `:`, starts `t`.
pub open spec fn key_starts(kv: (Seq<char>, Seq<char>), t: Seq<char>) -> bool {
    starts_with(t, kv.0 + ":"@)
}

/// The first pair whose key starts the (left-trimmed) line `t`.
pub open spec fn first_key_match(kvs: Seq<(Seq<char>, Seq<char>)>, t: Seq<char>) -> Option<int> {
    if exists|i: int| 0 <= i < kvs.len() && key_starts(kvs[i], t) {
        Some(
            choose|i: int|
                0 <= i < kvs.len() && key_starts(kvs[i], t) && forall|j: int|
                    0 <= j < i ==> !key_starts(kvs[j], t),
        )
    } else {
        None
    }
}

/// True when a left-trimmed line opens the block whose header is `hdr`
/// (`block:`): the line is the header, or starts with the header and `:`.
pub open spec fn is_block_header(t: Seq<char>, hdr: Seq<char>) -> bool {
    t == hdr || starts_with(t, hdr + ":"@)
}

/// The line walk of the block editor over `ls`: the lines it writes,
/// whether it is inside the block, the block's indentation in bytes, and
/// the keys it has set, in order.
pub open spec fn scan_block(ls: Seq<Seq<char>>, hdr: Seq<char>, kvs: Seq<(Seq<char>, Seq<char>)>) -> (
    Seq<Seq<char>>,
    bool,
    nat,
    Seq<Seq<char>>,
)
    decreases ls.len(),
{
    if ls.len() == 0 {
        (Seq::empty(), false, 0, Seq::empty())
    } else {
        let prev = scan_block(ls.drop_last(), hdr, kvs);
        let line = ls.last();
        let t = trim_start(line);
        let ind = indent_bytes(line);
        if is_block_header(t, hdr) {
            (prev.0.push(line), true, ind, prev.3)
        } else if prev.1 && t.len() > 0 && ind <= prev.2 {
            (prev.0.push(line), false, prev.2, prev.3)
        } else if prev.1 {
            match first_key_match(kvs, t) {
                Some(i) => (
                    prev.0.push(kv_line(prev.2 + 2, kvs[i].0, kvs[i].1)),
                    true,
                    prev.2,
                    prev.3.push(kvs[i].0),
                ),
                None => (prev.0.push(line), true, prev.2, prev.3),
            }
        } else {
            (prev.0.push(line), false, prev.2, prev.3)
        }
    }
}

/// The pairs whose keys are not among `done`, in order.
pub open spec fn missing_pairs(kvs: Seq<(Seq<char>, Seq<char>)>, done: Seq<Seq<char>>) -> Seq<
    (Seq<char>, Seq<char>),
>
    decreases kvs.len(),
{
    if kvs.len() == 0 {
        Seq::empty()
    } else {
        let r = missing_pairs(kvs.drop_last(), done);
        if done.contains(kvs.last().0) {
            r
        } else {
            r.push(kvs.last())
        }
    }
}

/// True when `line` ends a block whose header is indented by `ind` bytes:
/// it is not blank and not indented deeper than the header.
pub open spec fn ends_block(line: Seq<char>, ind: nat) -> bool {
    trim_start(line).len() > 0 && indent_bytes(line) <= ind
}

/// True when the line opens the block whose header is `hdr`.
pub open spec fn opens_block(line: Seq<char>, hdr: Seq<char>) -> bool {
    is_block_header(trim_start(line), hdr)
}

/// The index of the first line that opens the block `hdr`.
pub open spec fn first_header(out: Seq<Seq<char>>, hdr: Seq<char>) -> Option<int> {
    if exists|i: int| 0 <= i < out.len() && opens_block(out[i], hdr) {
        Some(
            choose|i: int|
                0 <= i < out.len() && opens_block(out[i], hdr) && forall|j: int|
                    0 <= j < i ==> !opens_block(out[j], hdr),
        )
    } else {
        None
    }
}

/// The index just past the block whose header is line `h`, indented by
/// `ind` bytes: the first later line that ends the block, or the number of
/// lines when none does.
pub open spec fn block_end(out: Seq<Seq<char>>, ind: nat, h: int) -> int {
    if exists|j: int| h < j < out.len() && ends_block(out[j], ind) {
        choose|j: int|
            h < j < out.len() && ends_block(out[j], ind) && forall|q: int|
                h < q < j ==> !ends_block(out[q], ind)
    } else {
        out.len() as int
    }
}

/// The text after the scalar leaves `kvs` are set under the block `block`
/// of a YAML text: inside the block, the first line that starts with a
/// key and `:` is rewritten to that key's value; keys that were not found
/// are inserted at the end of the (first) block, indented two spaces
/// deeper than its header, or, when no line opens the block, appended
/// under a new `block:` header at the end; lines outside the block are
/// kept as they are.
pub open spec fn set_block_scalars(content: Seq<char>, block: Seq<char>, kvs: Seq<(Seq<char>, Seq<char>)>) -> Seq<char> {
    let hdr = block + ":"@;
    let sc = scan_block(lines_of(content), hdr, kvs);
    let out = sc.0;
    let miss = missing_pairs(kvs, sc.3);
    let out2 = if miss.len() > 0 {
        match first_header(out, hdr) {
            Some(h) => {
                let ind = indent_bytes(out[h]);
                let e = block_end(out, ind, h);
                out.take(e) + kv_lines(miss, ind + 2) + out.skip(e)
            },
            None => out.push(hdr) + kv_lines(miss, 2),
        }
    } else {
        out
    };
    let out3 = if out2.len() == 0 {
        seq![hdr] + kv_lines(kvs, 2)
    } else {
        out2
    };
    join_nl(out3)
}

pub fn spaces_exec(n: u128) -> (r: Vec<char>)
    ensures
        r@ == spaces(n as nat),
{
    let mut r: Vec<char> = Vec::new();
    let mut i: u128 = 0;
    while i < n
        invariant
            i <= n,
            r@ == spaces(i as nat),
        decreases n - i,
    {
        r.push(' ');
        i = i + 1;
        assert(r@ =~= spaces(i as nat));
    }
    r
}

pub fn kv_line_exec(indent: u128, k: &str, v: &str) -> (r: Vec<char>)
    ensures
        r@ == kv_line(indent as nat, k@, v@),
{
    let mut out = spaces_exec(indent);
    append_chars(&mut out, chars_of(k).as_slice());
    append_chars(&mut out, chars_of(": ").as_slice());
    append_chars(&mut out, chars_of(v).as_slice());
    out
}

pub fn first_key_match_exec(kvs: &Vec<(String, String)>, t: &Vec<char>) -> (r: Option<usize>)
    ensures
        match r {
            Some(i) => first_key_match(pairs_view(kvs@), t@) == Some(i as int) && i < kvs@.len(),
            None => first_key_match(pairs_view(kvs@), t@) is None,
        },
{
    let ghost pv = pairs_view(kvs@);
    let mut j: usize = 0;
    while j < kvs.len()
        invariant
            pv == pairs_view(kvs@),
            j <= kvs@.len(),
            forall|q: int| 0 <= q < j ==> !key_starts(#[trigger] pv[q], t@),
        decreases kvs@.len() - j,
    {
        let mut p = chars_of(kvs[j].0.as_str());
        append_chars(&mut p, chars_of(":").as_slice());
        if starts_with_chars(t.as_slice(), p.as_slice()) {
            proof {
                assert(key_starts(pv[j as int], t@));
                let w = choose|i: int|
                    0 <= i < pv.len() && key_starts(pv[i], t@) && forall|q: int|
                        0 <= q < i ==> !key_starts(pv[q], t@);
                if w < j {
                } else if w > j {
                    assert(!key_starts(pv[j as int], t@));
                }
            }
            return Some(j);
        }
        j = j + 1;
    }
    None
}

fn contains_key_exec(done: &Vec<String>, k: &str) -> (r: bool)
    ensures
        r == Seq::new(done@.len(), |i: int| done@[i]@).contains(k@),
{
    let ghost dv = Seq::new(done@.len(), |i: int| done@[i]@);
    let mut i: usize = 0;
    while i < done.len()
        invariant
            dv == Seq::new(done@.len(), |i: int| done@[i]@),
            i <= done@.len(),
            forall|q: int| 0 <= q < i ==> dv[q] != k@,
        decreases done@.len() - i,
    {
        if str_eq(done[i].as_str(), k) {
            assert(dv[i as int] == k@);
            return true;
        }
        i = i + 1;
    }
    false
}

/// A copy of a list of string pairs.
pub fn copy_pairs(v: &Vec<(String, String)>) -> (r: Vec<(String, String)>)
    ensures
        pairs_view(r@) == pairs_view(v@),
{
    let mut out: Vec<(String, String)> = Vec::new();
    let mut i: usize = 0;
    while i < v.len()
        invariant
            i <= v@.len(),
            pairs_view(out@) == pairs_view(v@).take(i as int),
        decreases v@.len() - i,
    {
        let ghost before = pairs_view(out@);
        out.push((v[i].0.as_str().to_owned(), v[i].1.as_str().to_owned()));
        assert(pairs_view(out@) =~= before.push(pairs_view(v@)[i as int]));
        assert(pairs_view(v@).take(i + 1) =~= pairs_view(v@).take(i as int).push(pairs_view(v@)[i as int]));
        i = i + 1;
    }
    assert(pairs_view(v@).take(v@.len() as int) =~= pairs_view(v@));
    out
}

/// The views of a vector of strings.
pub open spec fn strs_view(v: Seq<String>) -> Seq<Seq<char>> {
    Seq::new(v.len(), |i: int| v[i]@)
}

/// The views of a vector of character vectors.
pub open spec fn lines_view(v: Seq<Vec<char>>) -> Seq<Seq<char>> {
    Seq::new(v.len(), |i: int| v[i]@)
}

#[verifier::rlimit(60)]
fn scan_block_exec(ls: &Vec<Vec<char>>, hdr: &Vec<char>, kvs: &Vec<(String, String)>) -> (r: (
    Vec<Vec<char>>,
    Vec<String>,
))
    ensures
        lines_view(r.0@) == scan_block(lines_view(ls@), hdr@, pairs_view(kvs@)).0,
        strs_view(r.1@) == scan_block(lines_view(ls@), hdr@, pairs_view(kvs@)).3,
{
    let ghost lv = lines_view(ls@);
    let ghost pv = pairs_view(kvs@);
    let mut out: Vec<Vec<char>> = Vec::new();
    let mut done: Vec<String> = Vec::new();
    let mut in_block = false;
    let mut block_indent: u128 = 0;
    let mut colon_hdr = sub_chars(hdr.as_slice(), 0, hdr.len());
    colon_hdr.push(':');
    let mut i: usize = 0;
    proof {
        assert(lines_view(out@) =~= Seq::<Seq<char>>::empty());
        assert(strs_view(done@) =~= Seq::<Seq<char>>::empty());
        assert(lv.take(0) =~= Seq::<Seq<char>>::empty());
        reveal_strlit(":");
        assert(colon_hdr@ =~= hdr@ + ":"@);
    }
    while i < ls.len()
        invariant
            lv == lines_view(ls@),
            pv == pairs_view(kvs@),
            colon_hdr@ == hdr@ + ":"@,
            i <= ls@.len(),
            lines_view(out@) == scan_block(lv.take(i as int), hdr@, pv).0,
            in_block == scan_block(lv.take(i as int), hdr@, pv).1,
            block_indent as nat == scan_block(lv.take(i as int), hdr@, pv).2,
            block_indent <= 4 * (usize::MAX as u128),
            strs_view(done@) == scan_block(lv.take(i as int), hdr@, pv).3,
        decreases ls@.len() - i,
    {
        proof {
            assert(lv.take(i + 1).drop_last() =~= lv.take(i as int));
            assert(lv.take(i + 1).last() == ls@[i as int]@);
        }
        let ghost o0 = lines_view(out@);
        let ghost d0 = strs_view(done@);
        let (t, ind) = trim_start_chars(ls[i].as_slice());
        let copy = sub_chars(ls[i].as_slice(), 0, ls[i].len());
        assert(copy@ =~= lv[i as int]);
        let is_header = chars_eq(t.as_slice(), hdr.as_slice()) || starts_with_chars(
            t.as_slice(),
            colon_hdr.as_slice(),
        );
        if is_header {
            in_block = true;
            block_indent = ind;
            out.push(copy);
            proof {
                assert(lines_view(out@) =~= o0.push(lv[i as int]));
            }
        } else if in_block && t.len() > 0 && ind <= block_indent {
            in_block = false;
            out.push(copy);
            proof {
                assert(lines_view(out@) =~= o0.push(lv[i as int]));
            }
        } else if in_block {
            match first_key_match_exec(kvs, &t) {
                Some(j) => {
                    let line = kv_line_exec(
                        block_indent + 2,
                        kvs[j].0.as_str(),
                        kvs[j].1.as_str(),
                    );
                    let ghost lview = line@;
                    out.push(line);
                    done.push(kvs[j].0.as_str().to_owned());
                    proof {
                        assert(strs_view(done@) =~= d0.push(pv[j as int].0));
                        assert(lines_view(out@) =~= o0.push(lview));
                    }
                },
                None => {
                    out.push(copy);
                    proof {
                        assert(lines_view(out@) =~= o0.push(lv[i as int]));
                    }
                },
            }
        } else {
            out.push(copy);
            proof {
                assert(lines_view(out@) =~= o0.push(lv[i as int]));
            }
        }
        proof {
            assert(lines_view(out@) =~= scan_block(lv.take(i + 1), hdr@, pv).0);
        }
        i = i + 1;
    }
    proof {
        assert(lv.take(ls@.len() as int) =~= lv);
    }
    (out, done)
}


pub fn missing_pairs_exec(kvs: &Vec<(String, String)>, done: &Vec<String>) -> (r: Vec<(String, String)>)
    ensures
        pairs_view(r@) == missing_pairs(pairs_view(kvs@), strs_view(done@)),
{
    let ghost pv = pairs_view(kvs@);
    let mut r: Vec<(String, String)> = Vec::new();
    let mut j: usize = 0;
    proof {
        assert(pairs_view(r@) =~= missing_pairs(pv.take(0), strs_view(done@)));
    }
    while j < kvs.len()
        invariant
            pv == pairs_view(kvs@),
            j <= kvs@.len(),
            pairs_view(r@) == missing_pairs(pv.take(j as int), strs_view(done@)),
        decreases kvs@.len() - j,
    {
        proof {
            assert(pv.take(j + 1).drop_last() =~= pv.take(j as int));
            assert(pv.take(j + 1).last() == pv[j as int]);
        }
        let ghost before = r@;
        if !contains_key_exec(done, kvs[j].0.as_str()) {
            r.push((kvs[j].0.as_str().to_owned(), kvs[j].1.as_str().to_owned()));
            proof {
                assert(pairs_view(r@) =~= pairs_view(before).push(pv[j as int]));
            }
        }
        j = j + 1;
    }
    proof {
        assert(pv.take(kvs@.len() as int) =~= pv);
    }
    r
}

fn push_kv_lines(out: &mut Vec<Vec<char>>, kvs: &Vec<(String, String)>, indent: u128)
    ensures
        lines_view(final(out)@) == lines_view(old(out)@) + kv_lines(pairs_view(kvs@), indent as nat),
{
    let ghost base = lines_view(out@);
    let ghost pv = pairs_view(kvs@);
    let mut j: usize = 0;
    while j < kvs.len()
        invariant
            pv == pairs_view(kvs@),
            base == lines_view(old(out)@),
            j <= kvs@.len(),
            lines_view(out@) == base + kv_lines(pv.take(j as int), indent as nat),
        decreases kvs@.len() - j,
    {
        let line = kv_line_exec(indent, kvs[j].0.as_str(), kvs[j].1.as_str());
        let ghost lview = line@;
        let ghost o0 = lines_view(out@);
        out.push(line);
        proof {
            assert(lines_view(out@) =~= o0.push(lview));
            assert(kv_lines(pv.take(j + 1), indent as nat) =~= kv_lines(pv.take(j as int), indent as nat).push(lview));
        }
        j = j + 1;
    }
    proof {
        assert(pv.take(kvs@.len() as int) =~= pv);
    }
}

fn opens_block_exec(line: &Vec<char>, hdr: &Vec<char>) -> (r: bool)
    ensures
        r == opens_block(line@, hdr@),
{
    let (t, _) = trim_start_chars(line.as_slice());
    let mut colon_hdr = sub_chars(hdr.as_slice(), 0, hdr.len());
    colon_hdr.push(':');
    proof {
        reveal_strlit(":");
        assert(colon_hdr@ =~= hdr@ + ":"@);
    }
    chars_eq(t.as_slice(), hdr.as_slice()) || starts_with_chars(t.as_slice(), colon_hdr.as_slice())
}

fn first_header_exec(out: &Vec<Vec<char>>, hdr: &Vec<char>) -> (r: Option<usize>)
    ensures
        match r {
            Some(h) => first_header(lines_view(out@), hdr@) == Some(h as int) && h < out@.len(),
            None => first_header(lines_view(out@), hdr@) is None,
        },
{
    let ghost lv = lines_view(out@);
    let mut i: usize = 0;
    while i < out.len()
        invariant
            lv == lines_view(out@),
            i <= out@.len(),
            forall|q: int| 0 <= q < i ==> !opens_block(#[trigger] lv[q], hdr@),
        decreases out@.len() - i,
    {
        if opens_block_exec(&out[i], hdr) {
            proof {
                assert(opens_block(lv[i as int], hdr@));
                let w = choose|k: int|
                    0 <= k < lv.len() && opens_block(lv[k], hdr@) && forall|j: int|
                        0 <= j < k ==> !opens_block(lv[j], hdr@);
                if w > i {
                    assert(!opens_block(lv[i as int], hdr@));
                }
            }
            return Some(i);
        }
        i = i + 1;
    }
    None
}

fn block_end_exec(out: &Vec<Vec<char>>, ind: u128, h: usize) -> (r: usize)
    requires
        h < out@.len(),
    ensures
        r as int == block_end(lines_view(out@), ind as nat, h as int),
        h < r <= out@.len(),
{
    let ghost lv = lines_view(out@);
    let n = out.len();
    let mut j: usize = h + 1;
    while j < out.len()
        invariant
            lv == lines_view(out@),
            h < j <= out@.len(),
            forall|q: int| h < q < j ==> !ends_block(#[trigger] lv[q], ind as nat),
        decreases out@.len() - j,
    {
        let (t, k) = trim_start_chars(out[j].as_slice());
        if t.len() > 0 && k <= ind {
            proof {
                assert(ends_block(lv[j as int], ind as nat));
                let w = choose|x: int|
                    h < x < lv.len() && ends_block(lv[x], ind as nat) && forall|q: int|
                        h < q < x ==> !ends_block(lv[q], ind as nat);
                if w > j {
                    assert(!ends_block(lv[j as int], ind as nat));
                }
            }
            return j;
        }
        j = j + 1;
    }
    j
}

fn splice_kv_lines(out: &Vec<Vec<char>>, e: usize, kvs: &Vec<(String, String)>, indent: u128) -> (r: Vec<Vec<char>>)
    requires
        e <= out@.len(),
    ensures
        lines_view(r@) == lines_view(out@).take(e as int) + kv_lines(pairs_view(kvs@), indent as nat)
            + lines_view(out@).skip(e as int),
{
    let ghost ov = lines_view(out@);
    let mut out2: Vec<Vec<char>> = Vec::new();
    let mut k: usize = 0;
    while k < e
        invariant
            ov == lines_view(out@),
            k <= e <= out@.len(),
            lines_view(out2@) == ov.take(k as int),
        decreases e - k,
    {
        let ghost o0 = lines_view(out2@);
        let c = sub_chars(out[k].as_slice(), 0, out[k].len());
        assert(c@ =~= ov[k as int]);
        out2.push(c);
        proof {
            assert(lines_view(out2@) =~= o0.push(ov[k as int]));
            assert(ov.take(k + 1) =~= ov.take(k as int).push(ov[k as int]));
        }
        k = k + 1;
    }
    push_kv_lines(&mut out2, kvs, indent);
    let ghost mid = lines_view(out2@);
    while k < out.len()
        invariant
            ov == lines_view(out@),
            e <= k <= out@.len(),
            lines_view(out2@) == mid + ov.subrange(e as int, k as int),
        decreases out@.len() - k,
    {
        let ghost o0 = lines_view(out2@);
        let c = sub_chars(out[k].as_slice(), 0, out[k].len());
        assert(c@ =~= ov[k as int]);
        out2.push(c);
        proof {
            assert(lines_view(out2@) =~= o0.push(ov[k as int]));
            assert(ov.subrange(e as int, k + 1) =~= ov.subrange(e as int, k as int).push(ov[k as int]));
        }
        k = k + 1;
    }
    proof {
        assert(ov.subrange(e as int, ov.len() as int) =~= ov.skip(e as int));
    }
    out2
}

/// Sets scalar leaves under a top-level block of a YAML text, keeping every
/// other line as it is (see `set_block_scalars`).
pub fn set_yaml_block_scalars(content: &str, block: &str, kvs: &Vec<(String, String)>) -> (r: String)
    ensures
        r@ == set_block_scalars(content@, block@, pairs_view(kvs@)),
{
    let ls = lines(&chars_of(content));
    proof {
        assert(lines_view(ls@) =~= lines_of(content@));
    }
    let mut hdr = chars_of(block);
    hdr.push(':');
    proof {
        reveal_strlit(":");
        assert(hdr@ =~= block@ + ":"@);
    }
    let (out, done) = scan_block_exec(&ls, &hdr, kvs);
    let miss = missing_pairs_exec(kvs, &done);
    let mut out2: Vec<Vec<char>> = Vec::new();
    if miss.len() > 0 {
        match first_header_exec(&out, &hdr) {
            Some(h) => {
                let (_, ind) = trim_start_chars(out[h].as_slice());
                let hl = out[h].len();
                assert(ind <= 4 * hl);
                let e = block_end_exec(&out, ind, h);
                out2 = splice_kv_lines(&out, e, &miss, ind + 2);
            },
            None => {
                out2 = out;
                let ghost o0 = lines_view(out2@);
                let hcopy = sub_chars(hdr.as_slice(), 0, hdr.len());
                assert(hcopy@ =~= hdr@);
                out2.push(hcopy);
                proof {
                    assert(lines_view(out2@) =~= o0.push(hdr@));
                }
                push_kv_lines(&mut out2, &miss, 2);
            },
        }
    } else {
        out2 = out;
    }
    if out2.len() == 0 {
        let hcopy = sub_chars(hdr.as_slice(), 0, hdr.len());
        assert(hcopy@ =~= hdr@);
        out2.push(hcopy);
        proof {
            assert(lines_view(out2@) =~= seq![hdr@]);
        }
        push_kv_lines(&mut out2, kvs, 2);
    }
    let joined = join_lines(&out2);
    proof {
        assert(Seq::new(out2@.len(), |i: int| out2@[i]@) =~= lines_view(out2@));
    }
    string_from_chars(joined.as_slice())
}


/// Names what `str::to_lowercase` returns for a string (its Unicode
/// lowercase mapping).
pub uninterp spec fn lowercase(s: Seq<char>) -> Seq<char>;

/// `str::to_lowercase`.
#[verifier::external_body]
pub(crate) fn to_lowercase(s: &str) -> (r: String)
    ensures
        r@ == lowercase(s@),
{
    s.to_lowercase()
}

/// The API-key variable that a provider base URL calls for, by the host
/// that its lowercase form contains; `CUSTOM_API_KEY` for others.
pub open spec fn env_key_for_url(url: Seq<char>) -> Seq<char> {
    let u = lowercase(url);
    if contains(u, "openrouter.ai"@) {
        "OPENROUTER_API_KEY"@
    } else if contains(u, "anthropic.com"@) {
        "ANTHROPIC_API_KEY"@
    } else if contains(u, "openai.com"@) {
        "OPENAI_API_KEY"@
    } else if contains(u, "ollama.com"@) {
        "OLLAMA_API_KEY"@
    } else if contains(u, "huggingface.co"@) {
        "HF_TOKEN"@
    } else if contains(u, "api.groq.com"@) {
        "GROQ_API_KEY"@
    } else if contains(u, "api.deepseek.com"@) {
        "DEEPSEEK_API_KEY"@
    } else if contains(u, "api.together.xyz"@) {
        "TOGETHER_API_KEY"@
    } else if contains(u, "api.fireworks.ai"@) {
        "FIREWORKS_API_KEY"@
    } else if contains(u, "api.cerebras.ai"@) {
        "CEREBRAS_API_KEY"@
    } else if contains(u, "api.mistral.ai"@) {
        "MISTRAL_API_KEY"@
    } else if contains(u, "api.perplexity.ai"@) {
        "PERPLEXITY_API_KEY"@
    } else if contains(u, "api.xiaomimimo.com"@) {
        "XIAOMI_API_KEY"@
    } else {
        "CUSTOM_API_KEY"@
    }
}

/// Each known provider host selects its own key variable: a URL whose
/// lowercase form names the host (and none of the hosts checked before it,
/// which an aggregator such as OpenRouter may also carry in its path)
/// expects that provider's key; a URL naming none of them expects
/// `CUSTOM_API_KEY`.
pub proof fn lemma_env_key_per_host(url: Seq<char>)
    ensures
        ({
            let u = lowercase(url);
            &&& (contains(u, "openrouter.ai"@)) ==> env_key_for_url(url) == "OPENROUTER_API_KEY"@
            &&& (contains(u, "anthropic.com"@) && !contains(u, "openrouter.ai"@)) ==> env_key_for_url(url) == "ANTHROPIC_API_KEY"@
            &&& (contains(u, "openai.com"@) && !contains(u, "openrouter.ai"@) && !contains(u, "anthropic.com"@)) ==> env_key_for_url(url) == "OPENAI_API_KEY"@
            &&& (contains(u, "ollama.com"@) && !contains(u, "openrouter.ai"@) && !contains(u, "anthropic.com"@) && !contains(u, "openai.com"@)) ==> env_key_for_url(url) == "OLLAMA_API_KEY"@
            &&& (contains(u, "huggingface.co"@) && !contains(u, "openrouter.ai"@) && !contains(u, "anthropic.com"@) && !contains(u, "openai.com"@) && !contains(u, "ollama.com"@)) ==> env_key_for_url(url) == "HF_TOKEN"@
            &&& (contains(u, "api.groq.com"@) && !contains(u, "openrouter.ai"@) && !contains(u, "anthropic.com"@) && !contains(u, "openai.com"@) && !contains(u, "ollama.com"@) && !contains(u, "huggingface.co"@)) ==> env_key_for_url(url) == "GROQ_API_KEY"@
            &&& (contains(u, "api.deepseek.com"@) && !contains(u, "openrouter.ai"@) && !contains(u, "anthropic.com"@) && !contains(u, "openai.com"@) && !contains(u, "ollama.com"@) && !contains(u, "huggingface.co"@) && !contains(u, "api.groq.com"@)) ==> env_key_for_url(url) == "DEEPSEEK_API_KEY"@
            &&& (contains(u, "api.together.xyz"@) && !contains(u, "openrouter.ai"@) && !contains(u, "anthropic.com"@) && !contains(u, "openai.com"@) && !contains(u, "ollama.com"@) && !contains(u, "huggingface.co"@) && !contains(u, "api.groq.com"@) && !contains(u, "api.deepseek.com"@)) ==> env_key_for_url(url) == "TOGETHER_API_KEY"@
            &&& (contains(u, "api.fireworks.ai"@) && !contains(u, "openrouter.ai"@) && !contains(u, "anthropic.com"@) && !contains(u, "openai.com"@) && !contains(u, "ollama.com"@) && !contains(u, "huggingface.co"@) && !contains(u, "api.groq.com"@) && !contains(u, "api.deepseek.com"@) && !contains(u, "api.together.xyz"@)) ==> env_key_for_url(url) == "FIREWORKS_API_KEY"@
            &&& (contains(u, "api.cerebras.ai"@) && !contains(u, "openrouter.ai"@) && !contains(u, "anthropic.com"@) && !contains(u, "openai.com"@) && !contains(u, "ollama.com"@) && !contains(u, "huggingface.co"@) && !contains(u, "api.groq.com"@) && !contains(u, "api.deepseek.com"@) && !contains(u, "api.together.xyz"@) && !contains(u, "api.fireworks.ai"@)) ==> env_key_for_url(url) == "CEREBRAS_API_KEY"@
            &&& (contains(u, "api.mistral.ai"@) && !contains(u, "openrouter.ai"@) && !contains(u, "anthropic.com"@) && !contains(u, "openai.com"@) && !contains(u, "ollama.com"@) && !contains(u, "huggingface.co"@) && !contains(u, "api.groq.com"@) && !contains(u, "api.deepseek.com"@) && !contains(u, "api.together.xyz"@) && !contains(u, "api.fireworks.ai"@) && !contains(u, "api.cerebras.ai"@)) ==> env_key_for_url(url) == "MISTRAL_API_KEY"@
            &&& (contains(u, "api.perplexity.ai"@) && !contains(u, "openrouter.ai"@) && !contains(u, "anthropic.com"@) && !contains(u, "openai.com"@) && !contains(u, "ollama.com"@) && !contains(u, "huggingface.co"@) && !contains(u, "api.groq.com"@) && !contains(u, "api.deepseek.com"@) && !contains(u, "api.together.xyz"@) && !contains(u, "api.fireworks.ai"@) && !contains(u, "api.cerebras.ai"@) && !contains(u, "api.mistral.ai"@)) ==> env_key_for_url(url) == "PERPLEXITY_API_KEY"@
            &&& (contains(u, "api.xiaomimimo.com"@) && !contains(u, "openrouter.ai"@) && !contains(u, "anthropic.com"@) && !contains(u, "openai.com"@) && !contains(u, "ollama.com"@) && !contains(u, "huggingface.co"@) && !contains(u, "api.groq.com"@) && !contains(u, "api.deepseek.com"@) && !contains(u, "api.together.xyz"@) && !contains(u, "api.fireworks.ai"@) && !contains(u, "api.cerebras.ai"@) && !contains(u, "api.mistral.ai"@) && !contains(u, "api.perplexity.ai"@)) ==> env_key_for_url(url) == "XIAOMI_API_KEY"@
            &&& (!contains(u, "openrouter.ai"@) && !contains(u, "anthropic.com"@) && !contains(u, "openai.com"@) && !contains(u, "ollama.com"@) && !contains(u, "huggingface.co"@) && !contains(u, "api.groq.com"@) && !contains(u, "api.deepseek.com"@) && !contains(u, "api.together.xyz"@) && !contains(u, "api.fireworks.ai"@) && !contains(u, "api.cerebras.ai"@) && !contains(u, "api.mistral.ai"@) && !contains(u, "api.perplexity.ai"@) && !contains(u, "api.xiaomimimo.com"@)) ==> env_key_for_url(url) == "CUSTOM_API_KEY"@
        }),
{
}

fn has(u: &Vec<char>, p: &str) -> (r: bool)
    ensures
        r == contains(u@, p@),
{
    contains_chars(u.as_slice(), chars_of(p).as_slice())
}

/// The environment variable expected to hold the API key for a base URL.
pub fn expected_env_key_for_url(url: &str) -> (r: &'static str)
    ensures
        r@ == env_key_for_url(url@),
{
    let u = chars_of(to_lowercase(url).as_str());
    if has(&u, "openrouter.ai") {
        "OPENROUTER_API_KEY"
    } else if has(&u, "anthropic.com") {
        "ANTHROPIC_API_KEY"
    } else if has(&u, "openai.com") {
        "OPENAI_API_KEY"
    } else if has(&u, "ollama.com") {
        "OLLAMA_API_KEY"
    } else if has(&u, "huggingface.co") {
        "HF_TOKEN"
    } else if has(&u, "api.groq.com") {
        "GROQ_API_KEY"
    } else if has(&u, "api.deepseek.com") {
        "DEEPSEEK_API_KEY"
    } else if has(&u, "api.together.xyz") {
        "TOGETHER_API_KEY"
    } else if has(&u, "api.fireworks.ai") {
        "FIREWORKS_API_KEY"
    } else if has(&u, "api.cerebras.ai") {
        "CEREBRAS_API_KEY"
    } else if has(&u, "api.mistral.ai") {
        "MISTRAL_API_KEY"
    } else if has(&u, "api.perplexity.ai") {
        "PERPLEXITY_API_KEY"
    } else if has(&u, "api.xiaomimimo.com") {
        "XIAOMI_API_KEY"
    } else {
        "CUSTOM_API_KEY"
    }
}

/// True when the lowercase URL starts with a loopback or private-network
/// `http://` host prefix: localhost, 127.0.0.1, 0.0.0.0, [::1], 10/8,
/// 172.16/12 (second octet 16 to 31) and 192.168/16.
pub open spec fn local_url(url: Seq<char>) -> bool {
    let u = lowercase(url);
    ||| starts_with(u, "http://localhost"@)
    ||| starts_with(u, "http://127.0.0.1"@)
    ||| starts_with(u, "http://0.0.0.0"@)
    ||| starts_with(u, "http://[::1]"@)
    ||| starts_with(u, "http://192.168."@)
    ||| starts_with(u, "http://10."@)
    ||| starts_with(u, "http://172.16."@)
    ||| starts_with(u, "http://172.17."@)
    ||| starts_with(u, "http://172.18."@)
    ||| starts_with(u, "http://172.19."@)
    ||| starts_with(u, "http://172.20."@)
    ||| starts_with(u, "http://172.21."@)
    ||| starts_with(u, "http://172.22."@)
    ||| starts_with(u, "http://172.23."@)
    ||| starts_with(u, "http://172.24."@)
    ||| starts_with(u, "http://172.25."@)
    ||| starts_with(u, "http://172.26."@)
    ||| starts_with(u, "http://172.27."@)
    ||| starts_with(u, "http://172.28."@)
    ||| starts_with(u, "http://172.29."@)
    ||| starts_with(u, "http://172.30."@)
    ||| starts_with(u, "http://172.31."@)
}

fn begins(u: &Vec<char>, p: &str) -> (r: bool)
    ensures
        r == starts_with(u@, p@),
{
    starts_with_chars(u.as_slice(), chars_of(p).as_slice())
}

/// True if the URL points to a local or private-network host.
pub fn is_local_base_url(url: &str) -> (r: bool)
    ensures
        r == local_url(url@),
{
    let u = chars_of(to_lowercase(url).as_str());
    begins(&u, "http://localhost") || begins(&u, "http://127.0.0.1") || begins(&u, "http://0.0.0.0")
        || begins(&u, "http://[::1]") || begins(&u, "http://192.168.") || begins(&u, "http://10.")
        || begins(&u, "http://172.16.") || begins(&u, "http://172.17.") || begins(
        &u,
        "http://172.18.",
    ) || begins(&u, "http://172.19.") || begins(&u, "http://172.20.") || begins(&u, "http://172.21.")
        || begins(&u, "http://172.22.") || begins(&u, "http://172.23.") || begins(&u, "http://172.24.")
        || begins(&u, "http://172.25.") || begins(&u, "http://172.26.") || begins(&u, "http://172.27.")
        || begins(&u, "http://172.28.") || begins(&u, "http://172.29.") || begins(
        &u,
        "http://172.30.",
    ) || begins(&u, "http://172.31.")
}

/// Providers that sign in with OAuth only.
pub open spec fn oauth_only_provider(p: Seq<char>) -> bool {
    ||| p == "openai-codex"@
    ||| p == "xai-oauth"@
    ||| p == "qwen-oauth"@
    ||| p == "google-gemini-cli"@
    ||| p == "minimax-oauth"@
    ||| p == "kimi-coding"@
}

/// True when `env` sets `k` to a value that is not blank.
pub open spec fn key_set(env: Map<Seq<char>, Seq<char>>, k: Seq<char>) -> bool {
    env.contains_key(k) && trim(env[k]).len() > 0
}

/// The provider-key check: true when no key is needed (provider `auto`, an
/// OAuth-only provider, a local URL, or a URL with no known key variable),
/// or when the expected key, `OPENAI_API_KEY` or `CUSTOM_API_KEY` is set.
pub open spec fn has_key_for(env: Map<Seq<char>, Seq<char>>, provider: Seq<char>, url: Seq<char>) -> bool {
    let p = lowercase(provider);
    let k = env_key_for_url(url);
    ||| p == "auto"@
    ||| oauth_only_provider(p)
    ||| local_url(url)
    ||| k.len() == 0
    ||| k == "CUSTOM_API_KEY"@
    ||| key_set(env, k)
    ||| key_set(env, "OPENAI_API_KEY"@)
    ||| key_set(env, "CUSTOM_API_KEY"@)
}

fn is_key_set(env: &EnvMap, k: &str) -> (r: bool)
    ensures
        r == key_set(env@, k@),
{
    env.get_trimmed(k).len() > 0
}

/// Checks whether the API key for a provider and base URL is present in the
/// environment, or the check does not apply.
pub fn has_api_key_for_provider(env: &EnvMap, provider: &str, base_url: &str) -> (r: bool)
    ensures
        r == has_key_for(env@, provider@, base_url@),
{
    let lower = to_lowercase(provider);
    let p = lower.as_str();
    if str_eq(p, "auto") {
        return true;
    }
    if str_eq(p, "openai-codex") || str_eq(p, "xai-oauth") || str_eq(p, "qwen-oauth") || str_eq(
        p,
        "google-gemini-cli",
    ) || str_eq(p, "minimax-oauth") || str_eq(p, "kimi-coding") {
        return true;
    }
    if is_local_base_url(base_url) {
        return true;
    }
    let expected = expected_env_key_for_url(base_url);
    if expected.unicode_len() == 0 || str_eq(expected, "CUSTOM_API_KEY") {
        return true;
    }
    if is_key_set(env, expected) {
        return true;
    }
    is_key_set(env, "OPENAI_API_KEY") || is_key_set(env, "CUSTOM_API_KEY")
}

/// The `API_SERVER_KEY` variable, if set.
pub fn get_api_server_key(env: &EnvMap) -> (r: Option<String>)
    ensures
        match r {
            Some(v) => env@.contains_key("API_SERVER_KEY"@) && env@["API_SERVER_KEY"@] == v@,
            None => !env@.contains_key("API_SERVER_KEY"@),
        },
{
    match env.get("API_SERVER_KEY") {
        Some(v) => Some(v.to_owned()),
        None => None,
    }
}

/// The name of a profile that has its own directory: any but `default` and
/// the empty name.
pub open spec fn named_profile(profile: Option<Seq<char>>) -> Option<Seq<char>> {
    match profile {
        Some(p) => if p != "default"@ && p.len() > 0 {
            Some(p)
        } else {
            None
        },
        None => None,
    }
}

/// The optional view of an optional string slice.
pub open spec fn ostr_view(o: Option<&str>) -> Option<Seq<char>> {
    match o {
        Some(s) => Some(s@),
        None => None,
    }
}

/// The directory of a profile, as path components below the Hermes home:
/// `profiles/<name>` for a named profile, the home itself otherwise.
pub fn profile_home(profile: Option<&str>) -> (r: Vec<String>)
    ensures
        strs_view(r@) == (match named_profile(ostr_view(profile)) {
            Some(p) => seq!["profiles"@, p],
            None => Seq::<Seq<char>>::empty(),
        }),
{
    let mut r: Vec<String> = Vec::new();
    match profile {
        Some(p) => {
            if !str_eq(p, "default") && p.unicode_len() > 0 {
                r.push("profiles".to_owned());
                r.push(p.to_owned());
            }
        },
        None => {},
    }
    proof {
        assert(strs_view(r@) =~= (match named_profile(ostr_view(profile)) {
            Some(p) => seq!["profiles"@, p],
            None => Seq::<Seq<char>>::empty(),
        }));
    }
    r
}


/// Desktop proxy settings; off unless explicitly enabled.
pub struct ProxySettings {
    pub use_proxy: bool,
    pub proxy_url: String,
}

impl Default for ProxySettings {
    fn default() -> (r: Self)
        ensures
            !r.use_proxy,
            r.proxy_url@.len() == 0,
    {
        ProxySettings { use_proxy: false, proxy_url: String::new() }
    }
}

/// The value of a variable that is set to a non-empty value.
pub open spec fn nonempty_var(env: Map<Seq<char>, Seq<char>>, k: Seq<char>) -> Option<Seq<char>> {
    if env.contains_key(k) && env[k].len() > 0 {
        Some(env[k])
    } else {
        None
    }
}

/// The proxy URL that settings give: empty when off; else the configured
/// URL, else `HTTP_PROXY` (or, when that is unset, `HTTPS_PROXY`) of the
/// process if not empty, else the system proxy, else empty.
pub open spec fn resolved_proxy(
    use_proxy: bool,
    url: Seq<char>,
    process_env: Map<Seq<char>, Seq<char>>,
    system: Option<Seq<char>>,
) -> Seq<char> {
    if !use_proxy {
        Seq::empty()
    } else if url.len() > 0 {
        url
    } else {
        let env_p = if process_env.contains_key("HTTP_PROXY"@) {
            Some(process_env["HTTP_PROXY"@])
        } else if process_env.contains_key("HTTPS_PROXY"@) {
            Some(process_env["HTTPS_PROXY"@])
        } else {
            None
        };
        match env_p {
            Some(e) if e.len() > 0 => e,
            _ => match system {
                Some(sp) => sp,
                None => Seq::empty(),
            },
        }
    }
}

impl ProxySettings {
    /// The effective proxy URL; empty means a direct connection. The process
    /// environment and the detected system proxy are passed in.
    pub fn resolve_url(&self, process_env: &EnvMap, system_proxy: Option<&str>) -> (r: String)
        ensures
            r@ == resolved_proxy(self.use_proxy, self.proxy_url@, process_env@, ostr_view(system_proxy)),
    {
        if !self.use_proxy {
            return String::new();
        }
        if self.proxy_url.as_str().unicode_len() > 0 {
            return self.proxy_url.as_str().to_owned();
        }
        let env_p = match process_env.get("HTTP_PROXY") {
            Some(v) => Some(v),
            None => process_env.get("HTTPS_PROXY"),
        };
        match env_p {
            Some(e) => {
                if e.unicode_len() > 0 {
                    return e.to_owned();
                }
            },
            None => {},
        }
        match system_proxy {
            Some(sp) => sp.to_owned(),
            None => String::new(),
        }
    }
}

/// The proxy variables, in the order they are consulted.
pub open spec fn proxy_vars() -> Seq<Seq<char>> {
    seq![
        "HTTPS_PROXY"@,
        "HTTP_PROXY"@,
        "ALL_PROXY"@,
        "https_proxy"@,
        "http_proxy"@,
        "all_proxy"@,
    ]
}

fn proxy_var(i: usize) -> (r: &'static str)
    requires
        i < 6,
    ensures
        r@ == proxy_vars()[i as int],
{
    if i == 0 {
        "HTTPS_PROXY"
    } else if i == 1 {
        "HTTP_PROXY"
    } else if i == 2 {
        "ALL_PROXY"
    } else if i == 3 {
        "https_proxy"
    } else if i == 4 {
        "http_proxy"
    } else {
        "all_proxy"
    }
}

/// The first variable of `names` that `env` sets to a non-empty value.
pub open spec fn first_nonempty(env: Map<Seq<char>, Seq<char>>, names: Seq<Seq<char>>) -> Option<Seq<char>>
    decreases names.len(),
{
    if names.len() == 0 {
        None
    } else {
        match nonempty_var(env, names[0]) {
            Some(v) => Some(v),
            None => first_nonempty(env, names.drop_first()),
        }
    }
}

proof fn lemma_first_nonempty_step(env: Map<Seq<char>, Seq<char>>, names: Seq<Seq<char>>, i: int)
    requires
        0 <= i < names.len(),
        forall|j: int| 0 <= j < i ==> nonempty_var(env, #[trigger] names[j]) is None,
    ensures
        first_nonempty(env, names) == first_nonempty(env, names.skip(i)),
    decreases i,
{
    if i > 0 {
        assert(names.drop_first().skip(i - 1) =~= names.skip(i));
        assert forall|j: int| 0 <= j < i - 1 implies nonempty_var(env, #[trigger] names.drop_first()[j]) is None by {
            assert(names.drop_first()[j] == names[j + 1]);
        }
        lemma_first_nonempty_step(env, names.drop_first(), i - 1);
    } else {
        assert(names.skip(0) =~= names);
    }
}

fn first_nonempty_exec(env: &EnvMap) -> (r: Option<String>)
    ensures
        ostring(r) == first_nonempty(env@, proxy_vars()),
{
    let ghost names = proxy_vars();
    let mut i: usize = 0;
    while i < 6
        invariant
            names == proxy_vars(),
            i <= 6,
            forall|j: int| 0 <= j < i ==> nonempty_var(env@, #[trigger] names[j]) is None,
        decreases 6 - i,
    {
        match env.get(proxy_var(i)) {
            Some(v) => {
                if v.unicode_len() > 0 {
                    proof {
                        lemma_first_nonempty_step(env@, names, i as int);
                        assert(names.skip(i as int)[0] == names[i as int]);
                    }
                    return Some(v.to_owned());
                }
            },
            None => {},
        }
        i = i + 1;
    }
    proof {
        lemma_first_nonempty_step(env@, names, 5);
        assert(names.skip(5)[0] == names[5]);
        assert(names.skip(5).drop_first().len() == 0);
        assert(first_nonempty(env@, names.skip(5).drop_first()) is None);
        assert(nonempty_var(env@, names.skip(5)[0]) is None);
    }
    None
}

/// The proxy that the backend process should use, by priority: the
/// desktop proxy settings when enabled and resolving to a URL; the first
/// non-empty proxy variable of the `.env` file; the same of the process
/// environment; the system proxy; else empty.
pub open spec fn effective_proxy(
    use_proxy: bool,
    url: Seq<char>,
    env_file: Map<Seq<char>, Seq<char>>,
    process_env: Map<Seq<char>, Seq<char>>,
    system: Option<Seq<char>>,
) -> Seq<char> {
    let own = resolved_proxy(use_proxy, url, process_env, system);
    if use_proxy && own.len() > 0 {
        own
    } else {
        match first_nonempty(env_file, proxy_vars()) {
            Some(v) => v,
            None => match first_nonempty(process_env, proxy_vars()) {
                Some(v) => v,
                None => match system {
                    Some(sp) => sp,
                    None => Seq::empty(),
                },
            },
        }
    }
}

/// Resolves the proxy for the backend from all sources, in priority order
/// (see `effective_proxy`).
pub fn resolve_effective_proxy(
    settings: &ProxySettings,
    env_file: &EnvMap,
    process_env: &EnvMap,
    system_proxy: Option<&str>,
) -> (r: String)
    ensures
        r@ == effective_proxy(
            settings.use_proxy,
            settings.proxy_url@,
            env_file@,
            process_env@,
            ostr_view(system_proxy),
        ),
{
    if settings.use_proxy {
        let url = settings.resolve_url(process_env, system_proxy);
        if url.as_str().unicode_len() > 0 {
            return url;
        }
    }
    match first_nonempty_exec(env_file) {
        Some(v) => {
            return v;
        },
        None => {},
    }
    match first_nonempty_exec(process_env) {
        Some(v) => {
            return v;
        },
        None => {},
    }
    match system_proxy {
        Some(sp) => sp.to_owned(),
        None => String::new(),
    }
}


/// The desktop's view of the active model configuration.
pub struct ModelConfig {
    pub provider: String,
    pub model: String,
    pub base_url: String,
    pub proxy: ProxySettings,
    pub reasoning_effort: Option<String>,
    pub verbosity: Option<String>,
    pub autonomy_policy: Option<String>,
    pub prompt_cache: Option<bool>,
    pub reasoning_context: Option<String>,
    pub model_routing: Option<Vec<(String, String)>>,
}

/// A string value, or empty for anything else.
pub open spec fn str_or_empty(o: Option<JsonV>) -> Seq<char> {
    match ostr(o) {
        Some(s) => s,
        None => Seq::empty(),
    }
}

/// The value when it is an object.
pub open spec fn as_object(o: Option<JsonV>) -> Option<JsonV> {
    match o {
        Some(JsonV::Object(es)) => Some(JsonV::Object(es)),
        _ => None,
    }
}

/// The `model:` block of the YAML configuration, when it is a mapping.
pub open spec fn yaml_model_block(y: JsonV) -> Option<JsonV> {
    as_object(jget(y, "model"@))
}

/// The proxy block: the top-level `proxy:` mapping, else `model.proxy`.
pub open spec fn yaml_proxy_block(y: JsonV, mb: JsonV) -> Option<JsonV> {
    match as_object(jget(y, "proxy"@)) {
        Some(pb) => Some(pb),
        None => as_object(jget(mb, "proxy"@)),
    }
}

/// True when the YAML configuration has a `model:` block that names a
/// provider or a default model; it is then the source of truth.
pub open spec fn yaml_model_applies(y: Option<JsonV>) -> bool {
    match y {
        Some(y) => match yaml_model_block(y) {
            Some(mb) => str_or_empty(jget(mb, "provider"@)).len() > 0 || str_or_empty(
                jget(mb, "default"@),
            ).len() > 0,
            None => false,
        },
        None => false,
    }
}

/// The entries of a mapping whose values are strings, in order.
pub open spec fn str_entries(es: Seq<(Seq<char>, JsonV)>) -> Seq<(Seq<char>, Seq<char>)>
    decreases es.len(),
{
    if es.len() == 0 {
        Seq::empty()
    } else {
        let r = str_entries(es.drop_last());
        match es.last().1 {
            JsonV::Str(s) => r.push((es.last().0, s)),
            _ => r,
        }
    }
}

/// The optional view of optional string pairs.
pub open spec fn routing_view(o: Option<Vec<(String, String)>>) -> Option<Seq<(Seq<char>, Seq<char>)>> {
    match o {
        Some(v) => Some(pairs_view(v@)),
        None => None,
    }
}

/// A variable's value, or empty when unset.
pub open spec fn env_or_empty(env: Map<Seq<char>, Seq<char>>, k: Seq<char>) -> Seq<char> {
    if env.contains_key(k) {
        env[k]
    } else {
        Seq::empty()
    }
}

/// True when `r` is the model configuration that the parsed YAML
/// configuration `y` (absent when it could not be read) and the `.env`
/// variables give: the YAML `model:` block when it applies, else the
/// `PROVIDER`, `MODEL` and `BASE_URL` variables.
pub open spec fn model_config_reads(r: ModelConfig, y: Option<JsonV>, env: Map<Seq<char>, Seq<char>>) -> bool {
    if yaml_model_applies(y) {
        let yv = y->Some_0;
        let mb = yaml_model_block(yv)->Some_0;
        &&& r.provider@ == str_or_empty(jget(mb, "provider"@))
        &&& r.model@ == str_or_empty(jget(mb, "default"@))
        &&& r.base_url@ == str_or_empty(jget(mb, "base_url"@))
        &&& match yaml_proxy_block(yv, mb) {
            Some(pb) => r.proxy.use_proxy == (obool(jget(pb, "use_proxy"@)) == Some(true))
                && r.proxy.proxy_url@ == str_or_empty(jget(pb, "proxy_url"@)),
            None => !r.proxy.use_proxy && r.proxy.proxy_url@.len() == 0,
        }
        &&& ostring(r.reasoning_effort) == ostr(jget(mb, "reasoning_effort"@))
        &&& ostring(r.verbosity) == ostr(jget(mb, "verbosity"@))
        &&& ostring(r.autonomy_policy) == ostr(jget(mb, "autonomy"@))
        &&& r.prompt_cache == obool(jget(mb, "prompt_cache"@))
        &&& ostring(r.reasoning_context) == ostr(jget(mb, "reasoning_context"@))
        &&& routing_view(r.model_routing) == match as_object(jget(mb, "model_routing"@)) {
            Some(JsonV::Object(es)) => Some(str_entries(es)),
            _ => None,
        }
    } else {
        &&& r.provider@ == env_or_empty(env, "PROVIDER"@)
        &&& r.model@ == env_or_empty(env, "MODEL"@)
        &&& r.base_url@ == env_or_empty(env, "BASE_URL"@)
        &&& !r.proxy.use_proxy && r.proxy.proxy_url@.len() == 0
        &&& r.reasoning_effort is None && r.verbosity is None && r.autonomy_policy is None
        &&& r.prompt_cache is None && r.reasoning_context is None && r.model_routing is None
    }
}

fn object_of<'a>(o: Option<&'a Json>) -> (r: Option<&'a Json>)
    ensures
        match r {
            Some(j) => as_object(oview_ref(o)) == Some(j@) && j@ is Object,
            None => as_object(oview_ref(o)) is None,
        },
{
    match o {
        Some(j) => {
            if j.is_object() {
                Some(j)
            } else {
                None
            }
        },
        None => None,
    }
}

/// The optional view of an optional reference.
pub open spec fn oview_ref(o: Option<&Json>) -> Option<JsonV> {
    match o {
        Some(j) => Some(j@),
        None => None,
    }
}

fn str_field(obj: &Json, k: &str) -> (r: String)
    ensures
        r@ == str_or_empty(jget(obj@, k@)),
{
    match obj.get(k) {
        Some(v) => match v.as_str() {
            Some(s) => s.to_owned(),
            None => String::new(),
        },
        None => String::new(),
    }
}

fn opt_str_field(obj: &Json, k: &str) -> (r: Option<String>)
    ensures
        ostring(r) == ostr(jget(obj@, k@)),
{
    match obj.get(k) {
        Some(v) => match v.as_str() {
            Some(s) => Some(s.to_owned()),
            None => None,
        },
        None => None,
    }
}

fn proxy_from(pb: &Json) -> (r: ProxySettings)
    ensures
        r.use_proxy == (obool(jget(pb@, "use_proxy"@)) == Some(true)),
        r.proxy_url@ == str_or_empty(jget(pb@, "proxy_url"@)),
{
    let use_proxy = match pb.get("use_proxy") {
        Some(v) => match v.as_bool() {
            Some(b) => b,
            None => false,
        },
        None => false,
    };
    ProxySettings { use_proxy, proxy_url: str_field(pb, "proxy_url") }
}

pub fn str_entries_exec(obj: &Json) -> (r: Vec<(String, String)>)
    requires
        obj@ is Object,
    ensures
        Some(JsonV::Object(obj@->Object_0)) == Some(obj@) && pairs_view(r@) == str_entries(
            obj@->Object_0,
        ),
{
    let mut out: Vec<(String, String)> = Vec::new();
    match obj {
        Json::Object(es) => {
            proof {
                crate::json::lemma_view_entries(es@);
            }
            let ghost vs = crate::json::view_entries(es@);
            let mut i: usize = 0;
            proof {
                assert(pairs_view(out@) =~= str_entries(vs.take(0)));
            }
            while i < es.len()
                invariant
                    obj@ == JsonV::Object(vs),
                    vs == crate::json::view_entries(es@),
                    vs.len() == es@.len(),
                    forall|k: int| 0 <= k < es@.len() ==> #[trigger] vs[k] == (es@[k].0@, es@[k].1@),
                    i <= es@.len(),
                    pairs_view(out@) == str_entries(vs.take(i as int)),
                decreases es@.len() - i,
            {
                proof {
                    assert(vs.take(i + 1).drop_last() =~= vs.take(i as int));
                    assert(vs.take(i + 1).last() == vs[i as int]);
                }
                let ghost before = out@;
                match es[i].1.as_str() {
                    Some(v) => {
                        out.push((es[i].0.as_str().to_owned(), v.to_owned()));
                        proof {
                            assert(pairs_view(out@) =~= pairs_view(before).push((es@[i as int].0@, v@)));
                        }
                    },
                    None => {},
                }
                i = i + 1;
            }
            proof {
                assert(vs.take(es@.len() as int) =~= vs);
            }
            out
        },
        _ => out,
    }
}

fn env_value_or_empty(env: &EnvMap, k: &str) -> (r: String)
    ensures
        r@ == env_or_empty(env@, k@),
{
    match env.get(k) {
        Some(v) => v.to_owned(),
        None => String::new(),
    }
}

/// The model configuration from the parsed `config.yaml` (absent when it
/// could not be read) and the `.env` variables (see `model_config_reads`).
pub fn get_model_config(yaml: Option<&Json>, env: &EnvMap) -> (r: ModelConfig)
    ensures
        model_config_reads(r, oview_ref(yaml), env@),
{
    match yaml {
        Some(y) => match object_of(y.get("model")) {
            Some(mb) => {
                let provider = str_field(mb, "provider");
                let default = str_field(mb, "default");
                if provider.as_str().unicode_len() > 0 || default.as_str().unicode_len() > 0 {
                    let proxy = match object_of(y.get("proxy")) {
                        Some(pb) => proxy_from(pb),
                        None => match object_of(mb.get("proxy")) {
                            Some(pb) => proxy_from(pb),
                            None => ProxySettings { use_proxy: false, proxy_url: String::new() },
                        },
                    };
                    let model_routing = match object_of(mb.get("model_routing")) {
                        Some(obj) => Some(str_entries_exec(obj)),
                        None => None,
                    };
                    let prompt_cache = match mb.get("prompt_cache") {
                        Some(v) => v.as_bool(),
                        None => None,
                    };
                    return ModelConfig {
                        provider,
                        model: default,
                        base_url: str_field(mb, "base_url"),
                        proxy,
                        reasoning_effort: opt_str_field(mb, "reasoning_effort"),
                        verbosity: opt_str_field(mb, "verbosity"),
                        autonomy_policy: opt_str_field(mb, "autonomy"),
                        prompt_cache,
                        reasoning_context: opt_str_field(mb, "reasoning_context"),
                        model_routing,
                    };
                }
            },
            None => {},
        },
        None => {},
    }
    ModelConfig {
        provider: env_value_or_empty(env, "PROVIDER"),
        model: env_value_or_empty(env, "MODEL"),
        base_url: env_value_or_empty(env, "BASE_URL"),
        proxy: ProxySettings { use_proxy: false, proxy_url: String::new() },
        reasoning_effort: None,
        verbosity: None,
        autonomy_policy: None,
        prompt_cache: None,
        reasoning_context: None,
        model_routing: None,
    }
}


/// Appends `(k, v)` when `v` is present and not empty.
pub open spec fn push_nonempty(kvs: Seq<(Seq<char>, Seq<char>)>, k: Seq<char>, v: Option<Seq<char>>) -> Seq<
    (Seq<char>, Seq<char>),
> {
    match v {
        Some(x) => if x.len() > 0 {
            kvs.push((k, x))
        } else {
            kvs
        },
        None => kvs,
    }
}

/// `"true"` or `"false"`.
pub open spec fn bool_text(b: bool) -> Seq<char> {
    if b {
        "true"@
    } else {
        "false"@
    }
}

/// The leaves written under the `model:` block: provider, default model and
/// base URL, then each steering field that is given (and not empty).
pub open spec fn model_kvs(
    provider: Seq<char>,
    model: Seq<char>,
    base_url: Seq<char>,
    effort: Option<Seq<char>>,
    verbosity: Option<Seq<char>>,
    autonomy: Option<Seq<char>>,
    cache: Option<bool>,
    context: Option<Seq<char>>,
) -> Seq<(Seq<char>, Seq<char>)> {
    let base = seq![("provider"@, provider), ("default"@, model), ("base_url"@, base_url)];
    let a = push_nonempty(base, "reasoning_effort"@, effort);
    let b = push_nonempty(a, "verbosity"@, verbosity);
    let c = push_nonempty(b, "autonomy"@, autonomy);
    let d = match cache {
        Some(x) => c.push(("prompt_cache"@, bool_text(x))),
        None => c,
    };
    push_nonempty(d, "reasoning_context"@, context)
}

/// The leaves written under the `proxy:` block.
pub open spec fn proxy_kvs(use_proxy: bool, url: Seq<char>) -> Seq<(Seq<char>, Seq<char>)> {
    seq![("use_proxy"@, bool_text(use_proxy)), ("proxy_url"@, url)]
}

fn push_pair(kvs: &mut Vec<(String, String)>, k: &str, v: &str)
    ensures
        pairs_view(final(kvs)@) == pairs_view(old(kvs)@).push((k@, v@)),
{
    kvs.push((k.to_owned(), v.to_owned()));
    proof {
        assert(pairs_view(kvs@) =~= pairs_view(old(kvs)@).push((k@, v@)));
    }
}

fn push_if_nonempty(kvs: &mut Vec<(String, String)>, k: &str, v: Option<&str>)
    ensures
        pairs_view(final(kvs)@) == push_nonempty(pairs_view(old(kvs)@), k@, ostr_view(v)),
{
    match v {
        Some(x) => {
            if x.unicode_len() > 0 {
                push_pair(kvs, k, x);
            }
        },
        None => {},
    }
}

fn bool_str(b: bool) -> (r: &'static str)
    ensures
        r@ == bool_text(b),
{
    if b {
        "true"
    } else {
        "false"
    }
}

/// The new texts of `config.yaml` and `.env` after the model settings are
/// saved: the proxy block (when given) and the model block of the YAML,
/// and the `PROVIDER`, `MODEL` and `BASE_URL` variables.
pub fn set_model_config(
    config_yaml: &str,
    env_text: &str,
    provider: &str,
    model: &str,
    base_url: &str,
    proxy: Option<&ProxySettings>,
    reasoning_effort: Option<&str>,
    verbosity: Option<&str>,
    autonomy_policy: Option<&str>,
    prompt_cache: Option<bool>,
    reasoning_context: Option<&str>,
) -> (r: (String, String))
    ensures
        r.0@ == set_block_scalars(
            match proxy {
                Some(p) => set_block_scalars(
                    config_yaml@,
                    "proxy"@,
                    proxy_kvs(p.use_proxy, p.proxy_url@),
                ),
                None => config_yaml@,
            },
            "model"@,
            model_kvs(
                provider@,
                model@,
                base_url@,
                ostr_view(reasoning_effort),
                ostr_view(verbosity),
                ostr_view(autonomy_policy),
                prompt_cache,
                ostr_view(reasoning_context),
            ),
        ),
        r.1@ == with_env_value(
            with_env_value(with_env_value(env_text@, "PROVIDER"@, provider@), "MODEL"@, model@),
            "BASE_URL"@,
            base_url@,
        ),
{
    let mut kvs: Vec<(String, String)> = Vec::new();
    push_pair(&mut kvs, "provider", provider);
    push_pair(&mut kvs, "default", model);
    push_pair(&mut kvs, "base_url", base_url);
    proof {
        assert(pairs_view(kvs@) =~= seq![("provider"@, provider@), ("default"@, model@), ("base_url"@, base_url@)]);
    }
    push_if_nonempty(&mut kvs, "reasoning_effort", reasoning_effort);
    push_if_nonempty(&mut kvs, "verbosity", verbosity);
    push_if_nonempty(&mut kvs, "autonomy", autonomy_policy);
    match prompt_cache {
        Some(x) => push_pair(&mut kvs, "prompt_cache", bool_str(x)),
        None => {},
    }
    push_if_nonempty(&mut kvs, "reasoning_context", reasoning_context);
    let yaml1 = match proxy {
        Some(p) => {
            let mut pk: Vec<(String, String)> = Vec::new();
            push_pair(&mut pk, "use_proxy", bool_str(p.use_proxy));
            push_pair(&mut pk, "proxy_url", p.proxy_url.as_str());
            proof {
                assert(pairs_view(pk@) =~= proxy_kvs(p.use_proxy, p.proxy_url@));
            }
            set_yaml_block_scalars(config_yaml, "proxy", &pk)
        },
        None => config_yaml.to_owned(),
    };
    let yaml2 = set_yaml_block_scalars(yaml1.as_str(), "model", &kvs);
    let e1 = write_env_value(env_text, "PROVIDER", provider);
    let e2 = write_env_value(e1.as_str(), "MODEL", model);
    let e3 = write_env_value(e2.as_str(), "BASE_URL", base_url);
    (yaml2, e3)
}


/// What the operating system reported about its proxy settings: the raw
/// output of the platform's query commands (`None` where a command could
/// not be run).
pub enum ProxyProbe {
    /// `reg query` of `ProxyEnable`, then of `ProxyServer`.
    Windows { enable_query: Option<String>, server_query: Option<String> },
    /// `scutil --proxy`.
    MacOs { scutil: Option<String> },
    /// `gsettings get` of the proxy mode, HTTP host and HTTP port.
    Linux { mode: Option<String>, host: String, port: String },
    /// A platform without system proxy detection.
    Other,
}

/// True when some line of the `ProxyEnable` query shows the value `0x1`.
pub open spec fn windows_proxy_enabled(out: Seq<char>) -> bool {
    exists|i: int|
        0 <= i < lines_of(out).len() && contains(#[trigger] lines_of(out)[i], "ProxyEnable"@)
            && contains(lines_of(out)[i], "0x1"@)
}

/// The proxy URL of the first `;`-separated entry with a protocol prefix.
pub open spec fn windows_parts(ps: Seq<Seq<char>>) -> Option<Seq<char>>
    decreases ps.len(),
{
    if ps.len() == 0 {
        None
    } else {
        let p = trim(ps[0]);
        if starts_with(p, "http="@) {
            Some("http://"@ + p.skip(5))
        } else if starts_with(p, "https="@) {
            Some("http://"@ + p.skip(6))
        } else if starts_with(p, "socks="@) {
            Some("socks5://"@ + p.skip(6))
        } else {
            windows_parts(ps.drop_first())
        }
    }
}

/// The proxy that one line of the `ProxyServer` query gives, if any.
pub open spec fn windows_server_line(line: Seq<char>) -> Option<Seq<char>> {
    if !contains(line, "ProxyServer"@) {
        None
    } else {
        match crate::text::find(line, "REG_SZ"@) {
            None => None,
            Some(idx) => {
                let raw = trim(line.skip(idx + 6));
                if raw.len() == 0 {
                    None
                } else {
                    match windows_parts(crate::text::split_on(raw, ';')) {
                        Some(u) => Some(u),
                        None => if contains(raw, ":"@) && !contains(raw, "="@) {
                            Some("http://"@ + raw)
                        } else {
                            None
                        },
                    }
                }
            },
        }
    }
}

/// The proxy of the first line of the `ProxyServer` query that gives one.
pub open spec fn windows_server(ls: Seq<Seq<char>>) -> Option<Seq<char>>
    decreases ls.len(),
{
    if ls.len() == 0 {
        None
    } else {
        match windows_server_line(ls[0]) {
            Some(u) => Some(u),
            None => windows_server(ls.drop_first()),
        }
    }
}

/// The `scutil --proxy` fields: whether HTTP proxying is enabled, and the
/// last host and port given.
pub open spec fn scutil_fields(ls: Seq<Seq<char>>) -> (bool, Seq<char>, Seq<char>)
    decreases ls.len(),
{
    if ls.len() == 0 {
        (false, Seq::empty(), Seq::empty())
    } else {
        let prev = scutil_fields(ls.drop_last());
        let l = trim(ls.last());
        let en = prev.0 || starts_with(l, "HTTPEnable : 1"@);
        let host = if starts_with(l, "HTTPProxy : "@) {
            trim(l.skip(12))
        } else {
            prev.1
        };
        let port = if starts_with(l, "HTTPPort : "@) {
            trim(l.skip(11))
        } else {
            prev.2
        };
        (en, host, port)
    }
}

/// The system proxy that a probe shows, if any.
pub open spec fn system_proxy_of(
    kind: int,
    a: Option<Seq<char>>,
    b: Option<Seq<char>>,
    host: Seq<char>,
    port: Seq<char>,
) -> Option<Seq<char>> {
    if kind == 0 {
        match a {
            None => None,
            Some(en) => if !windows_proxy_enabled(en) {
                None
            } else {
                match b {
                    None => None,
                    Some(sv) => windows_server(lines_of(sv)),
                }
            },
        }
    } else if kind == 1 {
        match a {
            None => None,
            Some(out) => {
                let f = scutil_fields(lines_of(out));
                if f.0 && f.1.len() > 0 && f.2.len() > 0 {
                    Some("http://"@ + f.1 + ":"@ + f.2)
                } else {
                    None
                }
            },
        }
    } else if kind == 2 {
        match a {
            None => None,
            Some(mode) => if trim_matches(trim(mode), '\'') != "manual"@ {
                None
            } else {
                let h = trim_matches(trim(host), '\'');
                let p = trim(port);
                if h.len() > 0 && p.len() > 0 {
                    Some("http://"@ + h + ":"@ + p)
                } else {
                    None
                }
            },
        }
    } else {
        None
    }
}

/// The arguments of `system_proxy_of` for a probe.
pub open spec fn probe_args(p: ProxyProbe) -> (int, Option<Seq<char>>, Option<Seq<char>>, Seq<char>, Seq<char>) {
    match p {
        ProxyProbe::Windows { enable_query, server_query } => (0, ostring(enable_query), ostring(server_query), Seq::empty(), Seq::empty()),
        ProxyProbe::MacOs { scutil } => (1, ostring(scutil), None, Seq::empty(), Seq::empty()),
        ProxyProbe::Linux { mode, host, port } => (2, ostring(mode), None, host@, port@),
        ProxyProbe::Other => (3, None, None, Seq::empty(), Seq::empty()),
    }
}

fn windows_enabled_exec(out: &str) -> (r: bool)
    ensures
        r == windows_proxy_enabled(out@),
{
    let ls = lines(&chars_of(out));
    let a = chars_of("ProxyEnable");
    let b = chars_of("0x1");
    let mut i: usize = 0;
    while i < ls.len()
        invariant
            ls@.len() == lines_of(out@).len(),
            forall|j: int| 0 <= j < ls@.len() ==> (#[trigger] ls@[j])@ == lines_of(out@)[j],
            a@ == "ProxyEnable"@,
            b@ == "0x1"@,
            i <= ls@.len(),
            forall|j: int|
                0 <= j < i ==> !(contains(#[trigger] lines_of(out@)[j], "ProxyEnable"@) && contains(
                    lines_of(out@)[j],
                    "0x1"@,
                )),
        decreases ls@.len() - i,
    {
        if contains_chars(ls[i].as_slice(), a.as_slice()) && contains_chars(
            ls[i].as_slice(),
            b.as_slice(),
        ) {
            assert(contains(lines_of(out@)[i as int], "ProxyEnable"@));
            return true;
        }
        i = i + 1;
    }
    false
}

fn windows_parts_exec(ps: &Vec<Vec<char>>) -> (r: Option<Vec<char>>)
    ensures
        match r {
            Some(u) => windows_parts(lines_view(ps@)) == Some(u@),
            None => windows_parts(lines_view(ps@)) is None,
        },
{
    let ghost pv = lines_view(ps@);
    let http = chars_of("http=");
    let https = chars_of("https=");
    let socks = chars_of("socks=");
    let mut i: usize = 0;
    assert(pv.skip(0) =~= pv);
    while i < ps.len()
        invariant
            pv == lines_view(ps@),
            http@ == "http="@,
            https@ == "https="@,
            socks@ == "socks="@,
            i <= ps@.len(),
            windows_parts(pv) == windows_parts(pv.skip(i as int)),
        decreases ps@.len() - i,
    {
        let p = trim_chars(&ps[i]);
        proof {
            assert(pv.skip(i as int)[0] == ps@[i as int]@);
            assert(pv.skip(i as int).drop_first() =~= pv.skip(i + 1));
            reveal_strlit("http=");
            reveal_strlit("https=");
            reveal_strlit("socks=");
        }
        if starts_with_chars(p.as_slice(), http.as_slice()) {
            let rest = sub_chars(p.as_slice(), 5, p.len());
            assert(rest@ =~= p@.skip(5));
            return Some(concat_chars(chars_of("http://").as_slice(), rest.as_slice()));
        } else if starts_with_chars(p.as_slice(), https.as_slice()) {
            let rest = sub_chars(p.as_slice(), 6, p.len());
            assert(rest@ =~= p@.skip(6));
            return Some(concat_chars(chars_of("http://").as_slice(), rest.as_slice()));
        } else if starts_with_chars(p.as_slice(), socks.as_slice()) {
            let rest = sub_chars(p.as_slice(), 6, p.len());
            assert(rest@ =~= p@.skip(6));
            return Some(concat_chars(chars_of("socks5://").as_slice(), rest.as_slice()));
        }
        i = i + 1;
    }
    proof {
        assert(pv.skip(i as int).len() == 0);
    }
    None
}

fn windows_server_line_exec(line: &Vec<char>) -> (r: Option<Vec<char>>)
    ensures
        match r {
            Some(u) => windows_server_line(line@) == Some(u@),
            None => windows_server_line(line@) is None,
        },
{
    if !contains_chars(line.as_slice(), chars_of("ProxyServer").as_slice()) {
        return None;
    }
    let pat = chars_of("REG_SZ");
    proof {
        reveal_strlit("REG_SZ");
        assert(pat@.len() == 6);
    }
    match crate::text::find_chars(line.as_slice(), pat.as_slice()) {
        None => None,
        Some(idx) => {
            assert(crate::text::occurs_at(line@, pat@, idx as int));
            let n = line.len();
            assert(idx + 6 <= n);
            let tail = sub_chars(line.as_slice(), idx + 6, n);
            assert(tail@ =~= line@.skip(idx + 6));
            let raw = trim_chars(&tail);
            if raw.len() == 0 {
                return None;
            }
            let parts = split_chars(raw.as_slice(), ';');
            proof {
                assert(lines_view(parts@) =~= crate::text::split_on(raw@, ';'));
            }
            match windows_parts_exec(&parts) {
                Some(u) => Some(u),
                None => {
                    if contains_chars(raw.as_slice(), chars_of(":").as_slice()) && !contains_chars(
                        raw.as_slice(),
                        chars_of("=").as_slice(),
                    ) {
                        Some(concat_chars(chars_of("http://").as_slice(), raw.as_slice()))
                    } else {
                        None
                    }
                },
            }
        },
    }
}

fn windows_server_exec(out: &str) -> (r: Option<Vec<char>>)
    ensures
        match r {
            Some(u) => windows_server(lines_of(out@)) == Some(u@),
            None => windows_server(lines_of(out@)) is None,
        },
{
    let ls = lines(&chars_of(out));
    let ghost lv = lines_of(out@);
    proof {
        assert(lines_view(ls@) =~= lv);
    }
    let mut i: usize = 0;
    assert(lv.skip(0) =~= lv);
    while i < ls.len()
        invariant
            lv == lines_of(out@),
            lines_view(ls@) == lv,
            i <= ls@.len(),
            windows_server(lv) == windows_server(lv.skip(i as int)),
        decreases ls@.len() - i,
    {
        proof {
            assert(lv.skip(i as int)[0] == lv[i as int]);
            assert(lv.skip(i as int).drop_first() =~= lv.skip(i + 1));
        }
        match windows_server_line_exec(&ls[i]) {
            Some(u) => {
                return Some(u);
            },
            None => {},
        }
        i = i + 1;
    }
    proof {
        assert(lv.skip(i as int).len() == 0);
    }
    None
}

fn scutil_proxy_exec(out: &str) -> (r: Option<Vec<char>>)
    ensures
        ({
            let f = scutil_fields(lines_of(out@));
            match r {
                Some(u) => f.0 && f.1.len() > 0 && f.2.len() > 0 && u@ == "http://"@ + f.1 + ":"@ + f.2,
                None => !(f.0 && f.1.len() > 0 && f.2.len() > 0),
            }
        }),
{
    let ls = lines(&chars_of(out));
    let ghost lv = lines_of(out@);
    proof {
        assert(lines_view(ls@) =~= lv);
        reveal_strlit("HTTPProxy : ");
        reveal_strlit("HTTPPort : ");
    }
    let en_p = chars_of("HTTPEnable : 1");
    let host_p = chars_of("HTTPProxy : ");
    let port_p = chars_of("HTTPPort : ");
    let mut enabled = false;
    let mut host: Vec<char> = Vec::new();
    let mut port: Vec<char> = Vec::new();
    let mut i: usize = 0;
    proof {
        assert(lv.take(0) =~= Seq::<Seq<char>>::empty());
        assert(host@ =~= Seq::<char>::empty());
        assert(port@ =~= Seq::<char>::empty());
    }
    while i < ls.len()
        invariant
            lv == lines_of(out@),
            lines_view(ls@) == lv,
            en_p@ == "HTTPEnable : 1"@,
            host_p@ == "HTTPProxy : "@,
            port_p@ == "HTTPPort : "@,
            host_p@.len() == 12,
            port_p@.len() == 11,
            i <= ls@.len(),
            scutil_fields(lv.take(i as int)) == (enabled, host@, port@),
        decreases ls@.len() - i,
    {
        proof {
            assert(lv.take(i + 1).drop_last() =~= lv.take(i as int));
            assert(lv.take(i + 1).last() == lv[i as int]);
        }
        let l = trim_chars(&ls[i]);
        if starts_with_chars(l.as_slice(), en_p.as_slice()) {
            enabled = true;
        }
        if starts_with_chars(l.as_slice(), host_p.as_slice()) {
            let v = sub_chars(l.as_slice(), 12, l.len());
            assert(v@ =~= l@.skip(12));
            host = trim_chars(&v);
        }
        if starts_with_chars(l.as_slice(), port_p.as_slice()) {
            let v = sub_chars(l.as_slice(), 11, l.len());
            assert(v@ =~= l@.skip(11));
            port = trim_chars(&v);
        }
        i = i + 1;
    }
    proof {
        assert(lv.take(ls@.len() as int) =~= lv);
    }
    if enabled && host.len() > 0 && port.len() > 0 {
        let mut u = concat_chars(chars_of("http://").as_slice(), host.as_slice());
        append_chars(&mut u, chars_of(":").as_slice());
        append_chars(&mut u, port.as_slice());
        Some(u)
    } else {
        None
    }
}

/// The system proxy URL that the probe shows: Windows' `ProxyServer` when
/// `ProxyEnable` is on, macOS' HTTP proxy when enabled, GNOME's manual HTTP
/// proxy; `None` otherwise.
pub fn detect_system_proxy(probe: &ProxyProbe) -> (r: Option<String>)
    ensures
        ({
            let a = probe_args(*probe);
            ostring(r) == system_proxy_of(a.0, a.1, a.2, a.3, a.4)
        }),
{
    match probe {
        ProxyProbe::Windows { enable_query, server_query } => match enable_query {
            None => None,
            Some(en) => {
                if !windows_enabled_exec(en.as_str()) {
                    return None;
                }
                match server_query {
                    None => None,
                    Some(sv) => match windows_server_exec(sv.as_str()) {
                        Some(u) => Some(string_from_chars(u.as_slice())),
                        None => None,
                    },
                }
            },
        },
        ProxyProbe::MacOs { scutil } => match scutil {
            None => None,
            Some(out) => match scutil_proxy_exec(out.as_str()) {
                Some(u) => Some(string_from_chars(u.as_slice())),
                None => None,
            },
        },
        ProxyProbe::Linux { mode, host, port } => match mode {
            None => None,
            Some(m) => {
                let mode_str = trim_matches_chars(trim_chars(&chars_of(m.as_str())).as_slice(), '\'');
                if !chars_eq(mode_str.as_slice(), chars_of("manual").as_slice()) {
                    return None;
                }
                let h = trim_matches_chars(trim_chars(&chars_of(host.as_str())).as_slice(), '\'');
                let p = trim_chars(&chars_of(port.as_str()));
                if h.len() > 0 && p.len() > 0 {
                    let mut u = concat_chars(chars_of("http://").as_slice(), h.as_slice());
                    append_chars(&mut u, chars_of(":").as_slice());
                    append_chars(&mut u, p.as_slice());
                    Some(string_from_chars(u.as_slice()))
                } else {
                    None
                }
            },
        },
        ProxyProbe::Other => None,
    }
}


/// Settings of an SSH tunnel to a remote backend.
pub struct SshConfig {
    pub host: String,
    pub port: u16,
    pub username: String,
    pub key_path: String,
    pub remote_port: u16,
    pub local_port: u16,
}

/// How the desktop connects to its backend (`desktop.json`).
pub struct ConnectionConfig {
    pub mode: String,
    pub remote_url: String,
    pub api_key: String,
    pub ssh: SshConfig,
}

/// The connection settings shown to the interface: the key itself stays
/// hidden, only whether there is one and its length in bytes.
pub struct PublicConnectionConfig {
    pub mode: String,
    pub remote_url: String,
    pub has_api_key: bool,
    pub api_key_length: usize,
    pub ssh: SshConfig,
}

/// The number of bytes of a string's UTF-8 encoding, as `str::len`
/// returns it.
pub open spec fn byte_count(s: Seq<char>) -> usize {
    vstd::utf8::encode_utf8(s).len() as usize
}

/// The number of bytes of a string's UTF-8 encoding (`str::len`).
pub fn byte_len(s: &str) -> (r: usize)
    ensures
        r == byte_count(s@),
{
    assert(s.spec_bytes() =~= vstd::utf8::encode_utf8(s@));
    s.len()
}

fn copy_ssh(s: &SshConfig) -> (r: SshConfig)
    ensures
        r.host@ == s.host@,
        r.port == s.port,
        r.username@ == s.username@,
        r.key_path@ == s.key_path@,
        r.remote_port == s.remote_port,
        r.local_port == s.local_port,
{
    SshConfig {
        host: s.host.as_str().to_owned(),
        port: s.port,
        username: s.username.as_str().to_owned(),
        key_path: s.key_path.as_str().to_owned(),
        remote_port: s.remote_port,
        local_port: s.local_port,
    }
}

impl PublicConnectionConfig {
    /// The public view of a connection config, given the key stored in the
    /// keyring (empty when none): the keyring key when there is one, else
    /// the legacy plain-text key of the config.
    pub fn from_config(cfg: &ConnectionConfig, keyring_key: &str) -> (r: Self)
        ensures
            r.mode@ == cfg.mode@,
            r.remote_url@ == cfg.remote_url@,
            r.has_api_key == (keyring_key@.len() > 0 || cfg.api_key@.len() > 0),
            r.api_key_length == (if keyring_key@.len() > 0 {
                byte_count(keyring_key@)
            } else {
                byte_count(cfg.api_key@)
            }),
            r.ssh.host@ == cfg.ssh.host@,
            r.ssh.port == cfg.ssh.port,
            r.ssh.username@ == cfg.ssh.username@,
            r.ssh.key_path@ == cfg.ssh.key_path@,
            r.ssh.remote_port == cfg.ssh.remote_port,
            r.ssh.local_port == cfg.ssh.local_port,
    {
        let (has, len) = if keyring_key.unicode_len() == 0 {
            (cfg.api_key.as_str().unicode_len() > 0, byte_len(cfg.api_key.as_str()))
        } else {
            (true, byte_len(keyring_key))
        };
        PublicConnectionConfig {
            mode: cfg.mode.as_str().to_owned(),
            remote_url: cfg.remote_url.as_str().to_owned(),
            has_api_key: has,
            api_key_length: len,
            ssh: copy_ssh(&cfg.ssh),
        }
    }
}

/// The remote API key from the outcome of the keyring lookup: the stored
/// key, or empty when there is none or the keyring failed.
pub fn get_remote_api_key(lookup: Result<Option<String>, String>) -> (r: String)
    ensures
        r@ == (match lookup {
            Ok(Some(k)) => k@,
            _ => Seq::<char>::empty(),
        }),
{
    match lookup {
        Ok(Some(k)) => k,
        _ => String::new(),
    }
}

/// What to do with the keyring when the remote API key is saved.
pub enum KeyringWrite {
    Delete,
    Store(String),
}

/// Saves the remote API key: an empty key deletes the keyring entry, any
/// other is stored there; the plain-text copy in the connection config is
/// cleared. Returns the keyring action and whether the config file must be
/// rewritten (it held a plain-text key).
pub fn set_remote_api_key(cfg: &mut ConnectionConfig, api_key: &str) -> (r: (KeyringWrite, bool))
    ensures
        match r.0 {
            KeyringWrite::Delete => api_key@.len() == 0,
            KeyringWrite::Store(k) => api_key@.len() > 0 && k@ == api_key@,
        },
        r.1 == (old(cfg).api_key@.len() > 0),
        final(cfg).api_key@.len() == 0,
        final(cfg).mode == old(cfg).mode,
        final(cfg).remote_url == old(cfg).remote_url,
        final(cfg).ssh == old(cfg).ssh,
{
    let action = if api_key.unicode_len() == 0 {
        KeyringWrite::Delete
    } else {
        KeyringWrite::Store(api_key.to_owned())
    };
    let had = cfg.api_key.as_str().unicode_len() > 0;
    if had {
        cfg.api_key = String::new();
    }
    (action, had)
}

/// A path with a leading `~/` expanded to the home directory (when known);
/// other paths unchanged.
pub fn expand_tilde(path: &str, home: Option<&str>) -> (r: String)
    ensures
        r@ == (match home {
            Some(h) => if starts_with(path@, "~/"@) {
                h@ + path@.skip(1)
            } else {
                path@
            },
            None => path@,
        }),
{
    let p = chars_of(path);
    match home {
        Some(h) => {
            if starts_with_chars(p.as_slice(), chars_of("~/").as_slice()) {
                proof {
                    reveal_strlit("~/");
                }
                let rest = sub_chars(p.as_slice(), 1, p.len());
                assert(rest@ =~= path@.skip(1));
                let out = concat_chars(chars_of(h).as_slice(), rest.as_slice());
                return string_from_chars(out.as_slice());
            }
            path.to_owned()
        },
        None => path.to_owned(),
    }
}


/// A problem that the configuration health check found.
pub struct ConfigHealthIssue {
    pub code: String,
    pub severity: String,
    pub message: String,
    pub detail: Option<String>,
    pub locations: Vec<String>,
    pub auto_fixable: bool,
    pub fix_description: Option<String>,
    pub fix_location: Option<String>,
}

/// Counts of issues by severity.
pub struct ConfigHealthSummary {
    pub errors: usize,
    pub warnings: usize,
    pub infos: usize,
}

impl Default for ConfigHealthSummary {
    fn default() -> (r: Self)
        ensures
            r.errors == 0 && r.warnings == 0 && r.infos == 0,
    {
        ConfigHealthSummary { errors: 0, warnings: 0, infos: 0 }
    }
}

/// The result of a configuration health check.
pub struct ConfigHealthReport {
    pub ran_at: i64,
    pub profile: String,
    pub issues: Vec<ConfigHealthIssue>,
    pub summary: ConfigHealthSummary,
}

/// When the active model calls for a provider key that is missing: the
/// lowercase provider and the expected variable. There is none when no
/// provider or model is set, the provider is `auto`, the URL is local or
/// calls for no known variable, or the expected key (or one of the
/// fallbacks) is set.
pub open spec fn missing_model_key(
    provider: Seq<char>,
    model: Seq<char>,
    base_url: Seq<char>,
    env: Map<Seq<char>, Seq<char>>,
) -> Option<(Seq<char>, Seq<char>)> {
    let p = lowercase(trim(provider));
    let b = trim(base_url);
    let k = env_key_for_url(b);
    if p.len() == 0 || p == "auto"@ || trim(model).len() == 0 || local_url(b) {
        None
    } else if k == "CUSTOM_API_KEY"@ || key_set(env, k) || key_set(env, "OPENAI_API_KEY"@) || key_set(
        env,
        "CUSTOM_API_KEY"@,
    ) {
        None
    } else {
        Some((p, k))
    }
}

/// True for the names of credential variables: upper-case letters, digits
/// and `_`, ending in `_API_KEY` or `_TOKEN`, or `API_SERVER_KEY` itself.
pub open spec fn credential_name(k: Seq<char>) -> bool {
    &&& forall|i: int|
        0 <= i < k.len() ==> ('A' <= #[trigger] k[i] <= 'Z' || k[i] == '_' || '0' <= k[i] <= '9')
    &&& (crate::text::ends_with(k, "_API_KEY"@) || crate::text::ends_with(k, "_TOKEN"@) || k
        == "API_SERVER_KEY"@)
}

/// True when a character is outside printable ASCII.
pub open spec fn unprintable(c: char) -> bool {
    (c as u32) < 0x20 || (c as u32) > 0x7e
}

/// True when a credential variable holds a character outside printable
/// ASCII.
pub open spec fn flagged_credential(k: Seq<char>, v: Seq<char>) -> bool {
    credential_name(k) && v.len() > 0 && exists|i: int| 0 <= i < v.len() && unprintable(#[trigger] v[i])
}

/// True when entry `i` is the last one for its key (the one that counts).
pub open spec fn last_of_key(es: Seq<(Seq<char>, Seq<char>)>, i: int) -> bool {
    forall|j: int| i < j < es.len() ==> (#[trigger] es[j]).0 != es[i].0
}

/// The credential variables among the first `n` entries whose values hold
/// characters outside printable ASCII, in order.
pub open spec fn offenders_upto(es: Seq<(Seq<char>, Seq<char>)>, n: int) -> Seq<Seq<char>>
    decreases n,
{
    if n <= 0 {
        Seq::empty()
    } else {
        let r = offenders_upto(es, n - 1);
        if last_of_key(es, n - 1) && flagged_credential(es[n - 1].0, es[n - 1].1) {
            r.push(es[n - 1].0)
        } else {
            r
        }
    }
}

/// Items joined with `", "`.
pub open spec fn join_comma(ls: Seq<Seq<char>>) -> Seq<char>
    decreases ls.len(),
{
    if ls.len() == 0 {
        Seq::empty()
    } else if ls.len() == 1 {
        ls[0]
    } else {
        join_comma(ls.drop_last()) + ", "@ + ls.last()
    }
}

fn credential_name_exec(k: &Vec<char>) -> (r: bool)
    ensures
        r == credential_name(k@),
{
    let mut i: usize = 0;
    while i < k.len()
        invariant
            i <= k@.len(),
            forall|j: int| 0 <= j < i ==> ('A' <= #[trigger] k@[j] <= 'Z' || k@[j] == '_' || '0' <= k@[j] <= '9'),
        decreases k@.len() - i,
    {
        let c = k[i];
        if !(('A' <= c && c <= 'Z') || c == '_' || ('0' <= c && c <= '9')) {
            return false;
        }
        i = i + 1;
    }
    crate::text::ends_with_chars(k.as_slice(), chars_of("_API_KEY").as_slice())
        || crate::text::ends_with_chars(k.as_slice(), chars_of("_TOKEN").as_slice()) || chars_eq(
        k.as_slice(),
        chars_of("API_SERVER_KEY").as_slice(),
    )
}

fn has_unprintable(v: &Vec<char>) -> (r: bool)
    ensures
        r == exists|i: int| 0 <= i < v@.len() && unprintable(#[trigger] v@[i]),
{
    let mut i: usize = 0;
    while i < v.len()
        invariant
            i <= v@.len(),
            forall|j: int| 0 <= j < i ==> !unprintable(#[trigger] v@[j]),
        decreases v@.len() - i,
    {
        let u = v[i] as u32;
        if u < 0x20 || u > 0x7e {
            assert(unprintable(v@[i as int]));
            return true;
        }
        i = i + 1;
    }
    false
}

fn is_last_of_key(es: &Vec<(String, String)>, i: usize) -> (r: bool)
    requires
        i < es@.len(),
    ensures
        r == last_of_key(pairs_view(es@), i as int),
{
    let ghost pv = pairs_view(es@);
    let n = es.len();
    let mut j = i + 1;
    while j < es.len()
        invariant
            pv == pairs_view(es@),
            i < j <= es@.len(),
            forall|q: int| i < q < j ==> (#[trigger] pv[q]).0 != pv[i as int].0,
        decreases es@.len() - j,
    {
        if str_eq(es[j].0.as_str(), es[i].0.as_str()) {
            assert(pv[j as int].0 == pv[i as int].0);
            return false;
        }
        j = j + 1;
    }
    true
}

fn credential_offenders(env: &EnvMap) -> (r: Vec<String>)
    ensures
        strs_view(r@) == offenders_upto(pairs_view(env.entries@), env.entries@.len() as int),
{
    let ghost pv = pairs_view(env.entries@);
    let mut out: Vec<String> = Vec::new();
    let mut i: usize = 0;
    proof {
        assert(strs_view(out@) =~= offenders_upto(pv, 0));
    }
    while i < env.entries.len()
        invariant
            pv == pairs_view(env.entries@),
            i <= env.entries@.len(),
            strs_view(out@) == offenders_upto(pv, i as int),
        decreases env.entries@.len() - i,
    {
        let ghost before = out@;
        let k = chars_of(env.entries[i].0.as_str());
        let v = chars_of(env.entries[i].1.as_str());
        if is_last_of_key(&env.entries, i) && credential_name_exec(&k) && v.len() > 0
            && has_unprintable(&v) {
            out.push(env.entries[i].0.as_str().to_owned());
            proof {
                assert(strs_view(out@) =~= strs_view(before).push(pv[i as int].0));
            }
        }
        i = i + 1;
    }
    out
}

fn join_comma_exec(ls: &Vec<String>) -> (r: Vec<char>)
    ensures
        r@ == join_comma(strs_view(ls@)),
{
    let ghost vs = strs_view(ls@);
    let mut out: Vec<char> = Vec::new();
    let mut i: usize = 0;
    while i < ls.len()
        invariant
            vs == strs_view(ls@),
            i <= ls@.len(),
            out@ == join_comma(vs.take(i as int)),
        decreases ls@.len() - i,
    {
        proof {
            assert(vs.take(i + 1).drop_last() =~= vs.take(i as int));
            reveal_strlit(", ");
        }
        if i > 0 {
            append_chars(&mut out, chars_of(", ").as_slice());
        }
        append_chars(&mut out, chars_of(ls[i].as_str()).as_slice());
        i = i + 1;
        assert(out@ =~= join_comma(vs.take(i as int)));
    }
    assert(vs.take(ls@.len() as int) =~= vs);
    out
}

/// The message of the missing-model-key issue.
pub open spec fn model_key_message(p: Seq<char>, k: Seq<char>) -> Seq<char> {
    "Active model uses "@ + p + " but "@ + k + " is not set in .env."@
}

/// The message of the credential issue.
pub open spec fn credential_message(names: Seq<Seq<char>>) -> Seq<char> {
    "Non-ASCII characters detected in: "@ + join_comma(names) + "."@
}

/// True when `i` is the issue with the given code, severity, message,
/// detail, fix and the `.env` path as its one location.
pub open spec fn issue_is(
    i: ConfigHealthIssue,
    code: Seq<char>,
    severity: Seq<char>,
    message: Seq<char>,
    detail: Seq<char>,
    auto_fixable: bool,
    fix_description: Option<Seq<char>>,
    fix_location: Seq<char>,
    env_path: Seq<char>,
) -> bool {
    &&& i.code@ == code
    &&& i.severity@ == severity
    &&& i.message@ == message
    &&& ostring(i.detail) == Some(detail)
    &&& strs_view(i.locations@) == seq![env_path]
    &&& i.auto_fixable == auto_fixable
    &&& ostring(i.fix_description) == fix_description
    &&& ostring(i.fix_location) == Some(fix_location)
}

/// True when `i` is the missing-model-key issue.
pub open spec fn is_model_key_issue(i: ConfigHealthIssue, p: Seq<char>, k: Seq<char>, env_path: Seq<char>) -> bool {
    issue_is(
        i,
        "MODEL_KEY_MISSING"@,
        "warning"@,
        model_key_message(p, k),
        "Chat will fail with an upstream auth error until the key is configured."@,
        false,
        None,
        "providers"@,
        env_path,
    )
}

/// True when `i` is the credential issue for the given names.
pub open spec fn is_credential_issue(i: ConfigHealthIssue, names: Seq<Seq<char>>, env_path: Seq<char>) -> bool {
    issue_is(
        i,
        "NON_ASCII_CREDENTIAL"@,
        "info"@,
        credential_message(names),
        "Common cause: a smart-quote or trailing newline from a paste."@,
        true,
        Some("Strip non-ASCII characters from the values."@),
        ".env"@,
        env_path,
    )
}

/// True when `i` is the missing-API-server-key issue.
pub open spec fn is_server_key_issue(i: ConfigHealthIssue, env_path: Seq<char>) -> bool {
    issue_is(
        i,
        "EMPTY_API_SERVER_KEY"@,
        "warning"@,
        "No API_SERVER_KEY is set — chat will fail because the Hermes gateway requires auth."@,
        "API_SERVER_KEY is mandatory for Hermes API access. Set it in .env."@,
        false,
        None,
        "setup"@,
        env_path,
    )
}

fn one_path(env_path: &str) -> (r: Vec<String>)
    ensures
        strs_view(r@) == seq![env_path@],
{
    let mut v: Vec<String> = Vec::new();
    v.push(env_path.to_owned());
    assert(strs_view(v@) =~= seq![env_path@]);
    v
}

fn model_key_check(mc: &ModelConfig, env: &EnvMap, env_path: &str) -> (r: Option<ConfigHealthIssue>)
    ensures
        match missing_model_key(mc.provider@, mc.model@, mc.base_url@, env@) {
            Some((p, k)) => r is Some && is_model_key_issue(r->Some_0, p, k, env_path@),
            None => r is None,
        },
{
    let ptrim = string_from_chars(trim_chars(&chars_of(mc.provider.as_str())).as_slice());
    let p = to_lowercase(ptrim.as_str());
    let m = trim_chars(&chars_of(mc.model.as_str()));
    let b = string_from_chars(trim_chars(&chars_of(mc.base_url.as_str())).as_slice());
    if p.as_str().unicode_len() == 0 || str_eq(p.as_str(), "auto") || m.len() == 0
        || is_local_base_url(b.as_str()) {
        return None;
    }
    let k = expected_env_key_for_url(b.as_str());
    if str_eq(k, "CUSTOM_API_KEY") || is_key_set(env, k) || is_key_set(env, "OPENAI_API_KEY")
        || is_key_set(env, "CUSTOM_API_KEY") {
        return None;
    }
    let msg = "Active model uses ".to_owned().concat(p.as_str()).concat(" but ").concat(k).concat(
        " is not set in .env.",
    );
    Some(
        ConfigHealthIssue {
            code: "MODEL_KEY_MISSING".to_owned(),
            severity: "warning".to_owned(),
            message: msg,
            detail: Some(
                "Chat will fail with an upstream auth error until the key is configured.".to_owned(),
            ),
            locations: one_path(env_path),
            auto_fixable: false,
            fix_description: None,
            fix_location: Some("providers".to_owned()),
        },
    )
}

fn credential_check(env: &EnvMap, env_path: &str) -> (r: Option<ConfigHealthIssue>)
    ensures
        ({
            let names = offenders_upto(pairs_view(env.entries@), env.entries@.len() as int);
            if names.len() == 0 {
                r is None
            } else {
                r is Some && is_credential_issue(r->Some_0, names, env_path@)
            }
        }),
{
    let names = credential_offenders(env);
    if names.len() == 0 {
        return None;
    }
    let joined = string_from_chars(join_comma_exec(&names).as_slice());
    let msg = "Non-ASCII characters detected in: ".to_owned().concat(joined.as_str()).concat(".");
    Some(
        ConfigHealthIssue {
            code: "NON_ASCII_CREDENTIAL".to_owned(),
            severity: "info".to_owned(),
            message: msg,
            detail: Some("Common cause: a smart-quote or trailing newline from a paste.".to_owned()),
            locations: one_path(env_path),
            auto_fixable: true,
            fix_description: Some("Strip non-ASCII characters from the values.".to_owned()),
            fix_location: Some(".env".to_owned()),
        },
    )
}

fn server_key_check(env: &EnvMap, env_path: &str, config_exists: bool) -> (r: Option<ConfigHealthIssue>)
    ensures
        if !key_set(env@, "API_SERVER_KEY"@) && config_exists {
            r is Some && is_server_key_issue(r->Some_0, env_path@)
        } else {
            r is None
        },
{
    if is_key_set(env, "API_SERVER_KEY") || !config_exists {
        return None;
    }
    Some(
        ConfigHealthIssue {
            code: "EMPTY_API_SERVER_KEY".to_owned(),
            severity: "warning".to_owned(),
            message: "No API_SERVER_KEY is set — chat will fail because the Hermes gateway requires auth.".to_owned(),
            detail: Some("API_SERVER_KEY is mandatory for Hermes API access. Set it in .env.".to_owned()),
            locations: one_path(env_path),
            auto_fixable: false,
            fix_description: None,
            fix_location: Some("setup".to_owned()),
        },
    )
}

/// The issues of a configuration health check, in order: the missing model
/// key, credentials with characters outside printable ASCII, a missing API
/// server key (when `config.yaml` exists); each only where it applies.
pub open spec fn health_issues_ok(
    issues: Seq<ConfigHealthIssue>,
    mc: ModelConfig,
    env: EnvMap,
    env_path: Seq<char>,
    config_exists: bool,
) -> bool {
    let m = missing_model_key(mc.provider@, mc.model@, mc.base_url@, env@);
    let names = offenders_upto(pairs_view(env.entries@), env.entries@.len() as int);
    let s = !key_set(env@, "API_SERVER_KEY"@) && config_exists;
    let n1: int = if m is Some { 1 } else { 0 };
    let n2: int = if names.len() > 0 { 1 } else { 0 };
    let n3: int = if s { 1 } else { 0 };
    &&& issues.len() == n1 + n2 + n3
    &&& m is Some ==> is_model_key_issue(issues[0], m->Some_0.0, m->Some_0.1, env_path)
    &&& names.len() > 0 ==> is_credential_issue(issues[n1], names, env_path)
    &&& s ==> is_server_key_issue(issues[n1 + n2], env_path)
}

/// Runs the configuration health check on the active model configuration
/// and `.env` variables of a profile; `env_path` names the `.env` file and
/// `config_exists` says whether `config.yaml` exists. The summary counts
/// the issues by severity.
pub fn run_config_health_check(
    profile: Option<&str>,
    mc: &ModelConfig,
    env: &EnvMap,
    env_path: &str,
    config_exists: bool,
    ran_at: i64,
) -> (r: ConfigHealthReport)
    ensures
        r.ran_at == ran_at,
        r.profile@ == (match profile {
            Some(p) => p@,
            None => "default"@,
        }),
        health_issues_ok(r.issues@, *mc, *env, env_path@, config_exists),
        r.summary.errors == 0,
        r.summary.warnings == (if missing_model_key(mc.provider@, mc.model@, mc.base_url@, env@) is Some { 1int } else { 0int })
            + (if !key_set(env@, "API_SERVER_KEY"@) && config_exists { 1int } else { 0int }),
        r.summary.infos == (if offenders_upto(pairs_view(env.entries@), env.entries@.len() as int).len() > 0 { 1int } else { 0int }),
{
    let mut issues: Vec<ConfigHealthIssue> = Vec::new();
    let mut warnings: usize = 0;
    let mut infos: usize = 0;
    let c1 = model_key_check(mc, env, env_path);
    let c2 = credential_check(env, env_path);
    let c3 = server_key_check(env, env_path, config_exists);
    match c1 {
        Some(i) => {
            issues.push(i);
            warnings = warnings + 1;
        },
        None => {},
    }
    match c2 {
        Some(i) => {
            issues.push(i);
            infos = infos + 1;
        },
        None => {},
    }
    match c3 {
        Some(i) => {
            issues.push(i);
            warnings = warnings + 1;
        },
        None => {},
    }
    let profile_name = match profile {
        Some(p) => p.to_owned(),
        None => "default".to_owned(),
    };
    ConfigHealthReport {
        ran_at,
        profile: profile_name,
        issues,
        summary: ConfigHealthSummary { errors: 0, warnings, infos },
    }
}

/// Where the Hermes home was found.
pub open spec fn hermes_home_of(
    env_home: Option<Seq<char>>,
    env_exists: bool,
    override_home: Option<Seq<char>>,
    windows: bool,
    local_data_dir: Option<Seq<char>>,
    local_is_home: bool,
    data_dir: Option<Seq<char>>,
    data_is_home: bool,
    home_dir: Option<Seq<char>>,
) -> Seq<Seq<char>> {
    match env_home {
        Some(e) if env_exists => seq![e],
        _ => match override_home {
            Some(o) => seq![o],
            None => {
                let windows_choice = if !windows {
                    None
                } else {
                    match local_data_dir {
                        Some(l) if local_is_home => Some(seq![l, "hermes"@]),
                        _ => match data_dir {
                            Some(d) if data_is_home => Some(seq![d, "hermes"@]),
                            _ => None,
                        },
                    }
                };
                match windows_choice {
                    Some(c) => c,
                    None => match home_dir {
                        Some(h) => seq![h, ".hermes"@],
                        None => seq!["/tmp/.hermes"@],
                    },
                }
            },
        },
    }
}

/// The Hermes home, as path pieces: `HERMES_HOME` when it names an existing
/// path; else the home named by the desktop's override file (which must
/// exist); on Windows, `hermes` under the local, then the roaming,
/// application-data directory when it is a directory that looks like a
/// home; else `.hermes` in the home directory (whether or not it exists),
/// or `/tmp/.hermes` without a home directory.
pub fn resolve_hermes_home(
    env_home: Option<&str>,
    env_exists: bool,
    override_home: Option<&str>,
    windows: bool,
    local_data_dir: Option<&str>,
    local_is_home: bool,
    data_dir: Option<&str>,
    data_is_home: bool,
    home_dir: Option<&str>,
) -> (r: Vec<String>)
    ensures
        strs_view(r@) == hermes_home_of(
            ostr_view(env_home),
            env_exists,
            ostr_view(override_home),
            windows,
            ostr_view(local_data_dir),
            local_is_home,
            ostr_view(data_dir),
            data_is_home,
            ostr_view(home_dir),
        ),
{
    let mut r: Vec<String> = Vec::new();
    if env_exists && env_home.is_some() {
        r.push(env_home.unwrap().to_owned());
    } else if override_home.is_some() {
        r.push(override_home.unwrap().to_owned());
    } else if windows && local_is_home && local_data_dir.is_some() {
        r.push(local_data_dir.unwrap().to_owned());
        r.push("hermes".to_owned());
    } else if windows && data_is_home && data_dir.is_some() {
        r.push(data_dir.unwrap().to_owned());
        r.push("hermes".to_owned());
    } else if home_dir.is_some() {
        r.push(home_dir.unwrap().to_owned());
        r.push(".hermes".to_owned());
    } else {
        r.push("/tmp/.hermes".to_owned());
    }
    proof {
        let want = hermes_home_of(
            ostr_view(env_home),
            env_exists,
            ostr_view(override_home),
            windows,
            ostr_view(local_data_dir),
            local_is_home,
            ostr_view(data_dir),
            data_is_home,
            ostr_view(home_dir),
        );
        assert(strs_view(r@) =~= want);
    }
    r
}

/// The Hermes home named by the desktop's override file (its parsed JSON):
/// the trimmed `hermesHome` string with a leading `~/` expanded, when it is
/// not empty.
pub fn override_home(parsed: &Json, home: Option<&str>) -> (r: Option<String>)
    ensures
        match ostr(jget(parsed@, "hermesHome"@)) {
            Some(p) => if trim(p).len() > 0 {
                r matches Some(h) && h@ == (match home {
                    Some(d) => if starts_with(trim(p), "~/"@) {
                        d@ + trim(p).skip(1)
                    } else {
                        trim(p)
                    },
                    None => trim(p),
                })
            } else {
                r is None
            },
            None => r is None,
        },
{
    match crate::json::opt_str(parsed.get("hermesHome")) {
        Some(p) => {
            let t = trim_chars(&chars_of(p));
            if t.len() == 0 {
                None
            } else {
                let ts = string_from_chars(t.as_slice());
                Some(expand_tilde(ts.as_str(), home))
            }
        },
        None => None,
    }
}

/// The Hermes home named by the text of the desktop's override file: none
/// when the text is not JSON (see `json_text_parse`), else as for
/// `override_home`.
pub fn override_home_from_text(text: &str, home: Option<&str>) -> (r: Option<String>)
    ensures
        match crate::json_text::json_text_parse(text@) {
            Err(_) => r is None,
            Ok(parsed) => match ostr(jget(parsed, "hermesHome"@)) {
                Some(p) => if trim(p).len() > 0 {
                    r matches Some(h) && h@ == (match home {
                        Some(d) => if starts_with(trim(p), "~/"@) {
                            d@ + trim(p).skip(1)
                        } else {
                            trim(p)
                        },
                        None => trim(p),
                    })
                } else {
                    r is None
                },
                None => r is None,
            },
        },
{
    match crate::json_text::parse_json(text) {
        Ok(parsed) => override_home(&parsed, home),
        Err(_) => None,
    }
}

/// The JSON of a profile's config.yaml given its text, if the file exists
/// (see `read_config_yaml`).
pub open spec fn config_yaml_json(content: Option<Seq<char>>) -> Result<JsonV, Seq<char>> {
    match content {
        None => Ok(JsonV::Object(Seq::empty())),
        Some(t) => crate::yaml::yaml_text_json(t),
    }
}

/// The JSON of a profile's config.yaml given its text: an empty object
/// when the file is absent, else what the text reads as (see
/// `yaml_text_json`).
pub fn read_config_yaml(content: Option<&str>) -> (r: Result<Json, String>)
    ensures
        crate::json_text::json_result(r) == config_yaml_json(match content {
            Some(t) => Some(t@),
            None => None,
        }),
{
    match content {
        None => {
            let es: Vec<(String, Json)> = Vec::new();
            assert(crate::json::view_entries(es@) =~= Seq::<(Seq<char>, JsonV)>::empty());
            Ok(Json::Object(es))
        },
        Some(t) => crate::yaml::serde_yaml_to_json(t),
    }
}

/// The connection settings when `desktop.json` is missing or unreadable:
/// every text empty and every port 0.
pub fn default_connection_config() -> (r: ConnectionConfig)
    ensures
        r.mode@.len() == 0 && r.remote_url@.len() == 0 && r.api_key@.len() == 0,
        r.ssh.host@.len() == 0 && r.ssh.port == 0 && r.ssh.username@.len() == 0,
        r.ssh.key_path@.len() == 0 && r.ssh.remote_port == 0 && r.ssh.local_port == 0,
{
    ConnectionConfig {
        mode: String::new(),
        remote_url: String::new(),
        api_key: String::new(),
        ssh: SshConfig {
            host: String::new(),
            port: 0,
            username: String::new(),
            key_path: String::new(),
            remote_port: 0,
            local_port: 0,
        },
    }
}

/// Whether a connection config read from disk still carries a plain-text
/// API key, which is then moved to the keyring.
pub fn needs_key_migration(cfg: &ConnectionConfig) -> (r: bool)
    ensures
        r == (cfg.api_key@.len() > 0),
{
    cfg.api_key.as_str().unicode_len() > 0
}

/// A connection config after its key was moved to the keyring: the key is
/// cleared and the rest kept; the file is rewritten only when the move
/// succeeded.
pub fn after_key_migration(cfg: ConnectionConfig, migrated: bool) -> (r: (ConnectionConfig, bool))
    ensures
        r.1 == migrated,
        r.0.mode == cfg.mode && r.0.remote_url == cfg.remote_url,
        r.0.ssh == cfg.ssh,
        migrated ==> r.0.api_key@.len() == 0,
        !migrated ==> r.0.api_key == cfg.api_key,
{
    if migrated {
        (ConnectionConfig { api_key: String::new(), ..cfg }, true)
    } else {
        (cfg, false)
    }
}

} // verus!
