//! Verified text scanning primitives.
//!
//! The diagnostic commands this library consumes print semi-structured text:
//! lines of pipe-delimited fields, whitespace-separated directive values,
//! `->` separated port bindings.  Every scanning operation the extractors
//! need is implemented here over `&str` with a specification over the
//! string's view, a `Seq<char>`.

use vstd::prelude::*;
use vstd::string::*;

verus! {

/// The whitespace characters recognised when trimming and tokenising: the
/// set `char::is_whitespace` accepts (the Unicode white-space characters).
pub open spec fn is_ws(c: char) -> bool {
    c == ' ' || c == '\t' || c == '\n' || c == '\u{0b}' || c == '\u{0c}' || c == '\r' || c
        == '\u{85}' || c == '\u{a0}' || c == '\u{1680}' || c == '\u{2000}' || c == '\u{2001}' || c
        == '\u{2002}' || c == '\u{2003}' || c == '\u{2004}' || c == '\u{2005}' || c == '\u{2006}'
        || c == '\u{2007}' || c == '\u{2008}' || c == '\u{2009}' || c == '\u{200a}' || c
        == '\u{2028}' || c == '\u{2029}' || c == '\u{202f}' || c == '\u{205f}' || c == '\u{3000}'
}

/// Executable twin of [`is_ws`].
pub fn is_ws_char(c: char) -> (r: bool)
    ensures
        r == is_ws(c),
{
    c == ' ' || c == '\t' || c == '\n' || c == '\u{0b}' || c == '\u{0c}' || c == '\r' || c
        == '\u{85}' || c == '\u{a0}' || c == '\u{1680}' || c == '\u{2000}' || c == '\u{2001}' || c
        == '\u{2002}' || c == '\u{2003}' || c == '\u{2004}' || c == '\u{2005}' || c == '\u{2006}'
        || c == '\u{2007}' || c == '\u{2008}' || c == '\u{2009}' || c == '\u{200a}' || c
        == '\u{2028}' || c == '\u{2029}' || c == '\u{202f}' || c == '\u{205f}' || c == '\u{3000}'
}

/// Index of the first occurrence of `c` in `s`, or `s.len()` when absent.
pub open spec fn idx_of(s: Seq<char>, c: char) -> nat
    decreases s.len(),
{
    if s.len() == 0 {
        0
    } else if s[0] == c {
        0
    } else {
        (idx_of(s.drop_first(), c) + 1) as nat
    }
}

pub proof fn lemma_idx_of(s: Seq<char>, c: char)
    ensures
        idx_of(s, c) <= s.len(),
        idx_of(s, c) < s.len() ==> s[idx_of(s, c) as int] == c,
        forall|j: int| 0 <= j < idx_of(s, c) ==> s[j] != c,
    decreases s.len(),
{
    if s.len() > 0 && s[0] != c {
        lemma_idx_of(s.drop_first(), c);
        assert forall|j: int| 0 <= j < idx_of(s, c) implies s[j] != c by {
            if j > 0 {
                assert(s.drop_first()[j - 1] == s[j]);
            }
        }
    }
}

/// First occurrence of `c` in `s`, as `str::find` reports it for a
/// single-character pattern (in character positions).
pub fn find_char(s: &str, c: char) -> (r: Option<usize>)
    ensures
        match r {
            Some(i) => i == idx_of(s@, c) && i < s@.len() && s@[i as int] == c,
            None => idx_of(s@, c) == s@.len(),
        },
{
    proof {
        lemma_idx_of(s@, c);
    }
    let n = s.unicode_len();
    let mut i: usize = 0;
    while i < n
        invariant
            i <= n,
            n == s@.len(),
            forall|j: int| 0 <= j < i ==> s@[j] != c,
            idx_of(s@, c) <= s@.len(),
            idx_of(s@, c) < s@.len() ==> s@[idx_of(s@, c) as int] == c,
            forall|j: int| 0 <= j < idx_of(s@, c) ==> s@[j] != c,
        decreases n - i,
    {
        if s.get_char(i) == c {
            return Some(i);
        }
        i = i + 1;
    }
    None
}

/// `p` is a prefix of `s`.
pub open spec fn is_prefix(p: Seq<char>, s: Seq<char>) -> bool {
    p.len() <= s.len() && p == s.take(p.len() as int)
}

/// Character-level `str::starts_with`.
pub fn starts_with_str(s: &str, p: &str) -> (r: bool)
    ensures
        r == is_prefix(p@, s@),
{
    let n = s.unicode_len();
    let m = p.unicode_len();
    if m > n {
        return false;
    }
    let mut j: usize = 0;
    while j < m
        invariant
            j <= m,
            m <= n,
            n == s@.len(),
            m == p@.len(),
            forall|k: int| 0 <= k < j ==> p@[k] == s@[k],
        decreases m - j,
    {
        if p.get_char(j) != s.get_char(j) {
            assert(!is_prefix(p@, s@)) by {
                if p@ == s@.take(p@.len() as int) {
                    assert(p@[j as int] == s@.take(p@.len() as int)[j as int]);
                }
            }
            return false;
        }
        j = j + 1;
    }
    assert(p@ =~= s@.take(p@.len() as int));
    true
}

/// Character-level string equality.
pub fn str_eq(a: &str, b: &str) -> (r: bool)
    ensures
        r == (a@ == b@),
{
    let n = a.unicode_len();
    let m = b.unicode_len();
    if n != m {
        return false;
    }
    let mut j: usize = 0;
    while j < n
        invariant
            j <= n,
            n == a@.len(),
            n == b@.len(),
            forall|k: int| 0 <= k < j ==> a@[k] == b@[k],
        decreases n - j,
    {
        if a.get_char(j) != b.get_char(j) {
            assert(a@ != b@) by {
                if a@ == b@ {
                    assert(a@[j as int] == b@[j as int]);
                }
            }
            return false;
        }
        j = j + 1;
    }
    assert(a@ =~= b@);
    true
}

/// `sub` occurs contiguously somewhere in `s`.
pub open spec fn contains_seq(s: Seq<char>, sub: Seq<char>) -> bool {
    exists|i: int| 0 <= i && i + sub.len() <= s.len() && #[trigger] s.subrange(i, i + sub.len() as int) == sub
}

/// `sub` matches `s` at character offset `i`.
fn matches_at(s: &str, sub: &str, i: usize) -> (r: bool)
    requires
        i + sub@.len() <= s@.len(),
    ensures
        r == (s@.subrange(i as int, i + sub@.len() as int) == sub@),
{
    let n = s.unicode_len();
    let m = sub.unicode_len();
    let mut j: usize = 0;
    while j < m
        invariant
            j <= m,
            m == sub@.len(),
            n == s@.len(),
            i + m <= n,
            forall|k: int| 0 <= k < j ==> s@[i + k] == sub@[k],
        decreases m - j,
    {
        if s.get_char(i + j) != sub.get_char(j) {
            assert(s@.subrange(i as int, i + sub@.len() as int) != sub@) by {
                if s@.subrange(i as int, i + sub@.len() as int) == sub@ {
                    assert(s@.subrange(i as int, i + sub@.len() as int)[j as int] == sub@[j as int]);
                }
            }
            return false;
        }
        j = j + 1;
    }
    assert(s@.subrange(i as int, i + sub@.len() as int) =~= sub@);
    true
}

/// Character-level `str::contains` for a substring pattern.
pub fn contains_str(s: &str, sub: &str) -> (r: bool)
    ensures
        r == contains_seq(s@, sub@),
{
    let n = s.unicode_len();
    let m = sub.unicode_len();
    if m > n {
        assert(!contains_seq(s@, sub@));
        return false;
    }
    if m == 0 {
        assert(contains_seq(s@, sub@)) by {
            assert(s@.subrange(0, 0 + sub@.len() as int) =~= sub@);
        }
        return true;
    }
    let mut i: usize = 0;
    while i <= n - m
        invariant
            0 < m <= n,
            n == s@.len(),
            m == sub@.len(),
            i <= n - m + 1,
            forall|q: int| 0 <= q < i ==> #[trigger] s@.subrange(q, q + sub@.len() as int) != sub@,
        decreases n - i,
    {
        if matches_at(s, sub, i) {
            assert(contains_seq(s@, sub@));
            return true;
        }
        i = i + 1;
    }
    assert(!contains_seq(s@, sub@));
    false
}

/// Number of leading whitespace characters of `s`.
pub open spec fn ws_prefix_len(s: Seq<char>) -> nat
    decreases s.len(),
{
    if s.len() > 0 && is_ws(s[0]) {
        (ws_prefix_len(s.drop_first()) + 1) as nat
    } else {
        0
    }
}

pub proof fn lemma_ws_prefix(s: Seq<char>)
    ensures
        ws_prefix_len(s) <= s.len(),
        forall|j: int| 0 <= j < ws_prefix_len(s) ==> is_ws(s[j]),
        ws_prefix_len(s) < s.len() ==> !is_ws(s[ws_prefix_len(s) as int]),
    decreases s.len(),
{
    if s.len() > 0 && is_ws(s[0]) {
        lemma_ws_prefix(s.drop_first());
        assert forall|j: int| 0 <= j < ws_prefix_len(s) implies is_ws(s[j]) by {
            if j > 0 {
                assert(s.drop_first()[j - 1] == s[j]);
            }
        }
        if ws_prefix_len(s) < s.len() {
            assert(s.drop_first()[ws_prefix_len(s.drop_first()) as int]
                == s[ws_prefix_len(s) as int]);
        }
    }
}

/// Number of trailing whitespace characters of `s`.
pub open spec fn ws_suffix_len(s: Seq<char>) -> nat
    decreases s.len(),
{
    if s.len() > 0 && is_ws(s.last()) {
        (ws_suffix_len(s.drop_last()) + 1) as nat
    } else {
        0
    }
}

pub proof fn lemma_ws_suffix(s: Seq<char>)
    ensures
        ws_suffix_len(s) <= s.len(),
        forall|j: int| s.len() - ws_suffix_len(s) <= j < s.len() ==> is_ws(s[j]),
        ws_suffix_len(s) < s.len() ==> !is_ws(s[s.len() - ws_suffix_len(s) - 1]),
    decreases s.len(),
{
    if s.len() > 0 && is_ws(s.last()) {
        lemma_ws_suffix(s.drop_last());
        assert forall|j: int| s.len() - ws_suffix_len(s) <= j < s.len() implies is_ws(s[j]) by {
            if j < s.len() - 1 {
                assert(s.drop_last()[j] == s[j]);
            }
        }
        if ws_suffix_len(s) < s.len() {
            assert(s.drop_last()[s.drop_last().len() - ws_suffix_len(s.drop_last()) - 1]
                == s[s.len() - ws_suffix_len(s) - 1]);
        }
    }
}

/// `s` with leading whitespace removed.
pub open spec fn spec_trim_start(s: Seq<char>) -> Seq<char> {
    s.skip(ws_prefix_len(s) as int)
}

/// `s` with leading and trailing whitespace removed, as `str::trim` yields it
/// for text made of the characters in [`is_ws`].
pub open spec fn spec_trim(s: Seq<char>) -> Seq<char> {
    let t = spec_trim_start(s);
    t.take((t.len() - ws_suffix_len(t)) as int)
}

pub proof fn lemma_trim_all_ws(s: Seq<char>)
    requires
        forall|j: int| 0 <= j < s.len() ==> is_ws(s[j]),
    ensures
        spec_trim(s) == Seq::<char>::empty(),
{
    lemma_ws_prefix(s);
    assert(ws_prefix_len(s) == s.len());
    assert(spec_trim_start(s) =~= Seq::<char>::empty());
    lemma_ws_suffix(spec_trim_start(s));
    assert(spec_trim(s) =~= Seq::<char>::empty());
}

pub proof fn lemma_trim_bounds(s: Seq<char>, a: int, b: int)
    requires
        0 <= a <= b < s.len(),
        !is_ws(s[a]),
        !is_ws(s[b]),
        forall|j: int| 0 <= j < a ==> is_ws(s[j]),
        forall|j: int| b < j < s.len() ==> is_ws(s[j]),
    ensures
        spec_trim(s) == s.subrange(a, b + 1),
{
    lemma_ws_prefix(s);
    assert(ws_prefix_len(s) == a);
    let t = spec_trim_start(s);
    assert(t.len() == s.len() - a);
    lemma_ws_suffix(t);
    assert forall|k: int| b + 1 - a <= k < t.len() implies is_ws(t[k]) by {
        assert(t[k] == s[a + k]);
    }
    assert(t[b - a] == s[b]);
    let suf = ws_suffix_len(t) as int;
    assert(suf == t.len() - (b - a) - 1) by {
        if suf < t.len() - (b - a) - 1 {
            assert(is_ws(t[t.len() - suf - 1]));
            assert(!is_ws(t[t.len() - suf - 1]));
        }
        if suf > t.len() - (b - a) - 1 {
            assert(is_ws(t[b - a]));
        }
    }
    assert(spec_trim(s) =~= s.subrange(a, b + 1)) by {
        assert forall|k: int| 0 <= k < b + 1 - a implies #[trigger] t.take(
            (t.len() - suf) as int,
        )[k] == s[a + k] by {
            assert(t[k] == s[a + k]);
        }
    }
}

/// `str::trim`, restricted to the whitespace characters in [`is_ws`].
pub fn trim_str(s: &str) -> (r: String)
    ensures
        r@ == spec_trim(s@),
{
    let n = s.unicode_len();
    let mut a: usize = 0;
    while a < n && is_ws_char(s.get_char(a))
        invariant
            a <= n,
            n == s@.len(),
            forall|j: int| 0 <= j < a ==> is_ws(s@[j]),
        decreases n - a,
    {
        a = a + 1;
    }
    if a == n {
        proof {
            lemma_trim_all_ws(s@);
        }
        return String::new();
    }
    let mut b: usize = n - 1;
    while b > a && is_ws_char(s.get_char(b))
        invariant
            a <= b < n,
            n == s@.len(),
            !is_ws(s@[a as int]),
            forall|j: int| b < j < n ==> is_ws(s@[j]),
        decreases b,
    {
        b = b - 1;
    }
    proof {
        lemma_trim_bounds(s@, a as int, b as int);
    }
    let sub = s.substring_char(a, b + 1);
    sub.to_owned()
}

/// `s` with every trailing occurrence of `c` removed, as
/// `str::trim_end_matches` yields it for a single-character pattern.
pub open spec fn strip_trail(s: Seq<char>, c: char) -> Seq<char>
    decreases s.len(),
{
    if s.len() > 0 && s.last() == c {
        strip_trail(s.drop_last(), c)
    } else {
        s
    }
}

pub proof fn lemma_strip_trail(s: Seq<char>, c: char)
    ensures
        strip_trail(s, c).len() <= s.len(),
        strip_trail(s, c) == s.take(strip_trail(s, c).len() as int),
        forall|j: int| strip_trail(s, c).len() <= j < s.len() ==> s[j] == c,
        strip_trail(s, c).len() > 0 ==> s[strip_trail(s, c).len() - 1] != c,
    decreases s.len(),
{
    if s.len() > 0 && s.last() == c {
        lemma_strip_trail(s.drop_last(), c);
        let d = s.drop_last();
        assert(strip_trail(s, c) == d.take(strip_trail(s, c).len() as int));
        assert(d.take(strip_trail(s, c).len() as int) =~= s.take(strip_trail(s, c).len() as int));
        assert forall|j: int| strip_trail(s, c).len() <= j < s.len() implies s[j] == c by {
            if j < s.len() - 1 {
                assert(d[j] == s[j]);
            }
        }
        if strip_trail(s, c).len() > 0 {
            assert(d[strip_trail(s, c).len() - 1] == s[strip_trail(s, c).len() - 1]);
        }
    } else {
        assert(strip_trail(s, c) =~= s.take(strip_trail(s, c).len() as int));
    }
}

/// `str::trim_end_matches` for a single-character pattern.
pub fn strip_trail_str(s: &str, c: char) -> (r: String)
    ensures
        r@ == strip_trail(s@, c),
{
    let n = s.unicode_len();
    let mut e = n;
    while e > 0 && s.get_char(e - 1) == c
        invariant
            e <= n,
            n == s@.len(),
            forall|j: int| e <= j < n ==> s@[j] == c,
        decreases e,
    {
        e = e - 1;
    }
    proof {
        lemma_strip_trail(s@, c);
        let k = strip_trail(s@, c).len() as int;
        if k < e {
            assert(s@[e - 1] == c);
        }
        if k > e {
            assert(s@[k - 1] == c);
        }
    }
    let sub = s.substring_char(0, e);
    let r = sub.to_owned();
    proof {
        assert(r@ =~= strip_trail(s@, c));
    }
    r
}

/// Length of the leading run of non-whitespace characters of `s`.
pub open spec fn tok_len(s: Seq<char>) -> nat
    decreases s.len(),
{
    if s.len() > 0 && !is_ws(s[0]) {
        (tok_len(s.drop_first()) + 1) as nat
    } else {
        0
    }
}

pub proof fn lemma_tok_len(s: Seq<char>)
    ensures
        tok_len(s) <= s.len(),
        forall|j: int| 0 <= j < tok_len(s) ==> !is_ws(s[j]),
        tok_len(s) < s.len() ==> is_ws(s[tok_len(s) as int]),
    decreases s.len(),
{
    if s.len() > 0 && !is_ws(s[0]) {
        lemma_tok_len(s.drop_first());
        assert forall|j: int| 0 <= j < tok_len(s) implies !is_ws(s[j]) by {
            if j > 0 {
                assert(s.drop_first()[j - 1] == s[j]);
            }
        }
        if tok_len(s) < s.len() {
            assert(s.drop_first()[tok_len(s.drop_first()) as int] == s[tok_len(s) as int]);
        }
    }
}

/// The first whitespace-delimited token of `s`, as
/// `str::split_whitespace().next()` reports it: `None` when `s` is blank.
pub open spec fn spec_first_token(s: Seq<char>) -> Option<Seq<char>> {
    let t = spec_trim_start(s);
    if t.len() == 0 {
        None
    } else {
        Some(t.take(tok_len(t) as int))
    }
}

/// First whitespace-delimited token of `s`.
pub fn first_token(s: &str) -> (r: Option<String>)
    ensures
        match r {
            Some(t) => spec_first_token(s@) is Some && t@ == spec_first_token(s@)->Some_0,
            None => spec_first_token(s@) is None,
        },
{
    proof {
        lemma_ws_prefix(s@);
    }
    let n = s.unicode_len();
    let mut a: usize = 0;
    while a < n && is_ws_char(s.get_char(a))
        invariant
            a <= n,
            n == s@.len(),
            forall|j: int| 0 <= j < a ==> is_ws(s@[j]),
        decreases n - a,
    {
        a = a + 1;
    }
    proof {
        if a < n {
            assert(ws_prefix_len(s@) == a);
        } else {
            assert(ws_prefix_len(s@) == n);
        }
    }
    if a == n {
        assert(spec_trim_start(s@) =~= Seq::<char>::empty());
        return None;
    }
    let ghost t = spec_trim_start(s@);
    proof {
        lemma_tok_len(t);
    }
    let mut e: usize = a;
    while e < n && !is_ws_char(s.get_char(e))
        invariant
            a <= e <= n,
            n == s@.len(),
            t == spec_trim_start(s@),
            t.len() == n - a,
            forall|k: int| 0 <= k < t.len() ==> t[k] == s@[a + k],
            forall|j: int| a <= j < e ==> !is_ws(s@[j]),
        decreases n - e,
    {
        e = e + 1;
    }
    proof {
        let tk = tok_len(t) as int;
        assert forall|k: int| 0 <= k < e - a implies !is_ws(t[k]) by {
            assert(t[k] == s@[a + k]);
        }
        if tk < e - a {
            assert(is_ws(t[tk]));
            assert(!is_ws(t[tk]));
        }
        if tk > e - a {
            assert(!is_ws(t[e - a]));
            assert(t[e - a] == s@[e as int]);
        }
        assert(tk == e - a);
    }
    let sub = s.substring_char(a, e);
    let r = sub.to_owned();
    proof {
        assert(r@ =~= t.take(tok_len(t) as int));
    }
    Some(r)
}

/// Appends to a vector, exposing the effect on the element-wise view.
pub fn push_tracked<T: DeepView>(v: &mut Vec<T>, x: T)
    ensures
        final(v).deep_view() == old(v).deep_view().push(x.deep_view()),
{
    let ghost dv0 = v.deep_view();
    let ghost xv = x.deep_view();
    v.push(x);
    proof {
        assert forall|k: int| 0 <= k < v.deep_view().len() implies v.deep_view()[k] == dv0.push(
            xv,
        )[k] by {
            if k < dv0.len() {
                assert(v@[k] == old(v)@[k]);
            }
        }
        assert(v.deep_view() =~= dv0.push(xv));
    }
}

/// `s` with one trailing carriage return removed.
pub open spec fn strip_cr(s: Seq<char>) -> Seq<char> {
    if s.len() > 0 && s.last() == '\r' {
        s.drop_last()
    } else {
        s
    }
}

/// The lines of `s` after the characters of `cur` (an unfinished line),
/// split as `str::lines` splits: at `\n`, swallowing one `\r` before it,
/// with no final empty line after a trailing line break.
pub open spec fn lines_rec(s: Seq<char>, cur: Seq<char>) -> Seq<Seq<char>>
    decreases s.len(),
{
    if s.len() == 0 {
        if cur.len() == 0 {
            Seq::empty()
        } else {
            seq![cur]
        }
    } else if s[0] == '\n' {
        seq![strip_cr(cur)] + lines_rec(s.drop_first(), Seq::empty())
    } else {
        lines_rec(s.drop_first(), cur.push(s[0]))
    }
}

/// The lines of `s`, as `str::lines` yields them.
pub open spec fn spec_lines(s: Seq<char>) -> Seq<Seq<char>> {
    lines_rec(s, Seq::empty())
}

/// `str::lines`, collected.
pub fn str_lines(s: &str) -> (r: Vec<String>)
    ensures
        r.deep_view() == spec_lines(s@),
{
    let n = s.unicode_len();
    let mut out: Vec<String> = Vec::new();
    let mut start: usize = 0;
    let mut i: usize = 0;
    proof {
        assert(s@.skip(0) =~= s@);
        assert(s@.subrange(0, 0) =~= Seq::<char>::empty());
        assert(out.deep_view() =~= Seq::<Seq<char>>::empty());
        assert(out.deep_view() + lines_rec(s@, Seq::empty()) =~= lines_rec(s@, Seq::empty()));
    }
    while i < n
        invariant
            start <= i <= n,
            n == s@.len(),
            spec_lines(s@) == out.deep_view() + lines_rec(
                s@.skip(i as int),
                s@.subrange(start as int, i as int),
            ),
        decreases n - i,
    {
        let ghost i0 = i as int;
        let ghost cur = s@.subrange(start as int, i0);
        proof {
            assert(s@.skip(i0)[0] == s@[i0]);
            assert(s@.skip(i0).drop_first() =~= s@.skip(i0 + 1));
        }
        let c = s.get_char(i);
        if c == '\n' {
            let line_end = if i > start && s.get_char(i - 1) == '\r' {
                i - 1
            } else {
                i
            };
            proof {
                if cur.len() > 0 {
                    assert(cur.last() == s@[i0 - 1]);
                }
                assert(strip_cr(cur) =~= s@.subrange(start as int, line_end as int));
                assert(lines_rec(s@.skip(i0), cur) == seq![strip_cr(cur)] + lines_rec(
                    s@.skip(i0 + 1),
                    Seq::empty(),
                ));
            }
            let piece = s.substring_char(start, line_end).to_owned();
            let ghost dv0 = out.deep_view();
            push_tracked(&mut out, piece);
            i = i + 1;
            start = i;
            proof {
                assert(s@.subrange(i as int, i as int) =~= Seq::<char>::empty());
                assert(out.deep_view() + lines_rec(s@.skip(i as int), Seq::empty()) =~= dv0 + (
                seq![strip_cr(cur)] + lines_rec(s@.skip(i0 + 1), Seq::empty())));
            }
        } else {
            proof {
                assert(cur.push(s@[i0]) =~= s@.subrange(start as int, i0 + 1));
            }
            i = i + 1;
        }
    }
    proof {
        assert(s@.skip(n as int) =~= Seq::<char>::empty());
    }
    if start < n {
        let piece = s.substring_char(start, n).to_owned();
        push_tracked(&mut out, piece);
        proof {
            assert(out.deep_view() =~= spec_lines(s@));
        }
    } else {
        proof {
            assert(s@.subrange(start as int, n as int).len() == 0);
            assert(out.deep_view() =~= spec_lines(s@));
        }
    }
    out
}

/// The pieces of `s` after the characters of `cur`, split at `c`; as
/// `str::split`, empty pieces included.
pub open spec fn split_rec(s: Seq<char>, c: char, cur: Seq<char>) -> Seq<Seq<char>>
    decreases s.len(),
{
    if s.len() == 0 {
        seq![cur]
    } else if s[0] == c {
        seq![cur] + split_rec(s.drop_first(), c, Seq::empty())
    } else {
        split_rec(s.drop_first(), c, cur.push(s[0]))
    }
}

/// The pieces of `s` split at `c`, as `str::split` yields them for a
/// single-character pattern (an empty `s` gives one empty piece).
pub open spec fn spec_split(s: Seq<char>, c: char) -> Seq<Seq<char>> {
    split_rec(s, c, Seq::empty())
}

/// `str::split` for a single-character pattern, collected.
pub fn split_str(s: &str, c: char) -> (r: Vec<String>)
    ensures
        r.deep_view() == spec_split(s@, c),
        r.len() >= 1,
{
    let n = s.unicode_len();
    let mut out: Vec<String> = Vec::new();
    let mut start: usize = 0;
    let mut i: usize = 0;
    proof {
        assert(s@.skip(0) =~= s@);
        assert(s@.subrange(0, 0) =~= Seq::<char>::empty());
        assert(out.deep_view() =~= Seq::<Seq<char>>::empty());
        assert(out.deep_view() + split_rec(s@, c, Seq::empty()) =~= split_rec(s@, c, Seq::empty()));
    }
    while i < n
        invariant
            start <= i <= n,
            n == s@.len(),
            spec_split(s@, c) == out.deep_view() + split_rec(
                s@.skip(i as int),
                c,
                s@.subrange(start as int, i as int),
            ),
        decreases n - i,
    {
        let ghost i0 = i as int;
        let ghost cur = s@.subrange(start as int, i0);
        proof {
            assert(s@.skip(i0)[0] == s@[i0]);
            assert(s@.skip(i0).drop_first() =~= s@.skip(i0 + 1));
        }
        if s.get_char(i) == c {
            proof {
                assert(split_rec(s@.skip(i0), c, cur) == seq![cur] + split_rec(
                    s@.skip(i0 + 1),
                    c,
                    Seq::empty(),
                ));
            }
            let piece = s.substring_char(start, i).to_owned();
            let ghost dv0 = out.deep_view();
            push_tracked(&mut out, piece);
            i = i + 1;
            start = i;
            proof {
                assert(s@.subrange(i as int, i as int) =~= Seq::<char>::empty());
                assert(out.deep_view() + split_rec(s@.skip(i as int), c, Seq::empty()) =~= dv0 + (
                seq![cur] + split_rec(s@.skip(i0 + 1), c, Seq::empty())));
            }
        } else {
            proof {
                assert(cur.push(s@[i0]) =~= s@.subrange(start as int, i0 + 1));
            }
            i = i + 1;
        }
    }
    let piece = s.substring_char(start, n).to_owned();
    push_tracked(&mut out, piece);
    proof {
        assert(s@.skip(n as int) =~= Seq::<char>::empty());
        assert(out.deep_view() =~= spec_split(s@, c));
        assert(out.deep_view().len() == out.len());
    }
    out
}

/// The pieces of `s` after the characters of `cur`, split at the two-character
/// separator `a` then `b`, scanning left to right without overlap.
pub open spec fn split2_rec(s: Seq<char>, a: char, b: char, cur: Seq<char>) -> Seq<Seq<char>>
    decreases s.len(),
{
    if s.len() == 0 {
        seq![cur]
    } else if s.len() >= 2 && s[0] == a && s[1] == b {
        seq![cur] + split2_rec(s.skip(2), a, b, Seq::empty())
    } else {
        split2_rec(s.drop_first(), a, b, cur.push(s[0]))
    }
}

/// The pieces of `s` split at the two-character separator `a` then `b`, as
/// `str::split` yields them for that pattern.
pub open spec fn spec_split2(s: Seq<char>, a: char, b: char) -> Seq<Seq<char>> {
    split2_rec(s, a, b, Seq::empty())
}

/// `str::split` for a two-character pattern, collected.
pub fn split_str2(s: &str, a: char, b: char) -> (r: Vec<String>)
    ensures
        r.deep_view() == spec_split2(s@, a, b),
        r.len() >= 1,
{
    let n = s.unicode_len();
    let mut out: Vec<String> = Vec::new();
    let mut start: usize = 0;
    let mut i: usize = 0;
    proof {
        assert(s@.skip(0) =~= s@);
        assert(s@.subrange(0, 0) =~= Seq::<char>::empty());
        assert(out.deep_view() =~= Seq::<Seq<char>>::empty());
        assert(out.deep_view() + split2_rec(s@, a, b, Seq::empty()) =~= split2_rec(
            s@,
            a,
            b,
            Seq::empty(),
        ));
    }
    while i < n
        invariant
            start <= i <= n,
            n == s@.len(),
            spec_split2(s@, a, b) == out.deep_view() + split2_rec(
                s@.skip(i as int),
                a,
                b,
                s@.subrange(start as int, i as int),
            ),
        decreases n - i,
    {
        let ghost i0 = i as int;
        let ghost cur = s@.subrange(start as int, i0);
        proof {
            assert(s@.skip(i0)[0] == s@[i0]);
            if i0 + 1 < n {
                assert(s@.skip(i0)[1] == s@[i0 + 1]);
            }
            assert(s@.skip(i0).drop_first() =~= s@.skip(i0 + 1));
        }
        if i + 1 < n && s.get_char(i) == a && s.get_char(i + 1) == b {
            proof {
                assert(s@.skip(i0).skip(2) =~= s@.skip(i0 + 2));
                assert(split2_rec(s@.skip(i0), a, b, cur) == seq![cur] + split2_rec(
                    s@.skip(i0 + 2),
                    a,
                    b,
                    Seq::empty(),
                ));
            }
            let piece = s.substring_char(start, i).to_owned();
            let ghost dv0 = out.deep_view();
            push_tracked(&mut out, piece);
            i = i + 2;
            start = i;
            proof {
                assert(s@.subrange(i as int, i as int) =~= Seq::<char>::empty());
                assert(out.deep_view() + split2_rec(s@.skip(i as int), a, b, Seq::empty()) =~= dv0
                    + (seq![cur] + split2_rec(s@.skip(i0 + 2), a, b, Seq::empty())));
            }
        } else {
            proof {
                assert(cur.push(s@[i0]) =~= s@.subrange(start as int, i0 + 1));
            }
            i = i + 1;
        }
    }
    let piece = s.substring_char(start, n).to_owned();
    push_tracked(&mut out, piece);
    proof {
        assert(s@.skip(n as int) =~= Seq::<char>::empty());
        assert(out.deep_view() =~= spec_split2(s@, a, b));
        assert(out.deep_view().len() == out.len());
    }
    out
}

} // verus!
