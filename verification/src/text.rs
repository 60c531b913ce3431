//! Character-level text operations, each with its mathematical meaning over
//! `Seq<char>`.
use vstd::prelude::*;

verus! {

/// The characters of a string slice, in order.
pub(crate) fn chars_of(s: &str) -> (res: Vec<char>)
    ensures
        res@ == s@,
{
    broadcast use vstd::string::axiom_spec_iter;
    let mut out: Vec<char> = Vec::new();
    for c in it: s.chars()
        invariant
            out@ == it.seq().take(it.index() as int),
    {
        out.push(c);
    }
    out
}

/// A string holding exactly the given characters.
#[verifier::external_body]
pub(crate) fn string_of(cs: &[char]) -> (res: String)
    ensures
        res@ == cs@,
{
    cs.iter().collect()
}

/// A string built from a string slice.
pub fn to_string(s: &str) -> (res: String)
    ensures
        res@ == s@,
{
    let cs = chars_of(s);
    string_of(cs.as_slice())
}

/// `a` followed by `b`.
pub fn concat(a: &str, b: &str) -> (res: String)
    ensures
        res@ == a@ + b@,
{
    let mut cs = chars_of(a);
    let mut bs = chars_of(b);
    cs.append(&mut bs);
    string_of(cs.as_slice())
}

/// `a`, `b` and `c` one after another.
pub fn concat3(a: &str, b: &str, c: &str) -> (res: String)
    ensures
        res@ == a@ + b@ + c@,
{
    let ab = concat(a, b);
    concat(ab.as_str(), c)
}

/// Whether two strings hold the same characters.
pub fn str_eq(a: &str, b: &str) -> (res: bool)
    ensures
        res == (a@ == b@),
{
    let x = chars_of(a);
    let y = chars_of(b);
    seq_eq(x.as_slice(), y.as_slice())
}

/// Whether two character slices are equal.
pub fn seq_eq(a: &[char], b: &[char]) -> (res: bool)
    ensures
        res == (a@ == b@),
{
    if a.len() != b.len() {
        return false;
    }
    let mut i: usize = 0;
    while i < a.len()
        invariant
            a.len() == b.len(),
            i <= a.len(),
            forall|j: int| 0 <= j < i ==> a@[j] == b@[j],
        decreases a.len() - i,
    {
        if a[i] != b[i] {
            return false;
        }
        i = i + 1;
    }
    assert(a@ =~= b@);
    true
}

// ---------------------------------------------------------------------------
// Prefixes, suffixes, occurrences
// ---------------------------------------------------------------------------

pub open spec fn spec_starts_with(s: Seq<char>, p: Seq<char>) -> bool {
    p.len() <= s.len() && s.subrange(0, p.len() as int) == p
}

pub open spec fn spec_ends_with(s: Seq<char>, p: Seq<char>) -> bool {
    p.len() <= s.len() && s.subrange(s.len() - p.len(), s.len() as int) == p
}

/// `p` occurs in `s` starting at index `i`.
pub open spec fn matches_at(s: Seq<char>, p: Seq<char>, i: int) -> bool {
    0 <= i && i + p.len() <= s.len() && s.subrange(i, i + p.len()) == p
}

/// The first index at or after `i` where `p` occurs in `s`.
pub open spec fn spec_find_from(s: Seq<char>, p: Seq<char>, i: int) -> Option<int>
    decreases s.len() + 1 - i,
{
    if i < 0 || i + p.len() > s.len() {
        None
    } else if matches_at(s, p, i) {
        Some(i)
    } else {
        spec_find_from(s, p, i + 1)
    }
}

/// The first index where `p` occurs in `s` (`str::find`).
pub open spec fn spec_find(s: Seq<char>, p: Seq<char>) -> Option<int> {
    spec_find_from(s, p, 0)
}

pub open spec fn spec_contains(s: Seq<char>, p: Seq<char>) -> bool {
    spec_find(s, p) is Some
}

/// The last index below `k` where `p` occurs in `s`.
pub open spec fn spec_rfind_below(s: Seq<char>, p: Seq<char>, k: int) -> Option<int>
    decreases k,
{
    if k <= 0 {
        None
    } else if matches_at(s, p, k - 1) {
        Some(k - 1)
    } else {
        spec_rfind_below(s, p, k - 1)
    }
}

/// The last index where `p` occurs in `s` (`str::rfind`).
pub open spec fn spec_rfind(s: Seq<char>, p: Seq<char>) -> Option<int> {
    spec_rfind_below(s, p, s.len() + 1int)
}

pub(crate) proof fn lemma_find_from_props(s: Seq<char>, p: Seq<char>, i: int)
    requires
        0 <= i,
    ensures
        spec_find_from(s, p, i) matches Some(j) ==> i <= j && matches_at(s, p, j) && forall|k: int|
            i <= k < j ==> !matches_at(s, p, k),
        spec_find_from(s, p, i) is None ==> forall|k: int| i <= k ==> !matches_at(s, p, k),
    decreases s.len() + 1 - i,
{
    if i + p.len() > s.len() {
    } else if matches_at(s, p, i) {
    } else {
        lemma_find_from_props(s, p, i + 1);
    }
}

pub(crate) proof fn lemma_rfind_below_props(s: Seq<char>, p: Seq<char>, k: int)
    ensures
        spec_rfind_below(s, p, k) matches Some(j) ==> j < k && matches_at(s, p, j) && forall|m: int|
            j < m < k ==> !matches_at(s, p, m),
        spec_rfind_below(s, p, k) is None ==> forall|m: int| m < k ==> !matches_at(s, p, m),
    decreases k,
{
    if k <= 0 {
    } else if matches_at(s, p, k - 1) {
    } else {
        lemma_rfind_below_props(s, p, k - 1);
    }
}

/// Whether `s` starts with `p`.
pub fn starts_with(s: &[char], p: &[char]) -> (res: bool)
    ensures
        res == spec_starts_with(s@, p@),
{
    matches_at_exec(s, p, 0)
}

/// Whether `s` ends with `p`.
pub fn ends_with(s: &[char], p: &[char]) -> (res: bool)
    ensures
        res == spec_ends_with(s@, p@),
{
    if p.len() > s.len() {
        return false;
    }
    matches_at_exec(s, p, s.len() - p.len())
}

/// Whether `p` occurs in `s` at position `i`.
pub fn matches_at_exec(s: &[char], p: &[char], i: usize) -> (res: bool)
    ensures
        res == matches_at(s@, p@, i as int),
{
    if i > s.len() || p.len() > s.len() - i {
        return false;
    }
    let mut k: usize = 0;
    while k < p.len()
        invariant
            i + p.len() <= s.len(),
            k <= p.len(),
            forall|j: int| 0 <= j < k ==> s@[i + j] == p@[j],
        decreases p.len() - k,
    {
        if s[i + k] != p[k] {
            assert(s@.subrange(i as int, i + p.len())[k as int] != p@[k as int]);
            return false;
        }
        k = k + 1;
    }
    assert(s@.subrange(i as int, i + p.len()) =~= p@);
    true
}

/// The first position at or after `start` where `p` occurs in `s`.
pub fn find_from(s: &[char], p: &[char], start: usize) -> (res: Option<usize>)
    ensures
        res matches Some(j) ==> spec_find_from(s@, p@, start as int) == Some(j as int),
        res is None ==> spec_find_from(s@, p@, start as int) is None,
{
    let mut i = start;
    while i <= s.len() && p.len() <= s.len() - i
        invariant
            start <= i,
            spec_find_from(s@, p@, start as int) == spec_find_from(s@, p@, i as int),
        decreases s.len() + 1 - i,
    {
        if matches_at_exec(s, p, i) {
            return Some(i);
        }
        if i == s.len() {
            assert(s@.subrange(i as int, i as int) =~= p@);
            return None;
        }
        i = i + 1;
    }
    None
}

/// The first position where `p` occurs in `s`.
pub fn find(s: &[char], p: &[char]) -> (res: Option<usize>)
    ensures
        res matches Some(j) ==> spec_find(s@, p@) == Some(j as int),
        res is None ==> spec_find(s@, p@) is None,
{
    find_from(s, p, 0)
}

/// Whether `p` occurs in `s`.
pub fn contains(s: &[char], p: &[char]) -> (res: bool)
    ensures
        res == spec_contains(s@, p@),
{
    find(s, p).is_some()
}

/// The last position where `p` occurs in `s`.
pub fn rfind(s: &[char], p: &[char]) -> (res: Option<usize>)
    ensures
        res matches Some(j) ==> spec_rfind(s@, p@) == Some(j as int),
        res is None ==> spec_rfind(s@, p@) is None,
{
    if p.len() == 0 {
        assert(s@.subrange(s.len() as int, s.len() as int) =~= p@);
        return Some(s.len());
    }
    let mut k: usize = s.len();
    while k > 0
        invariant
            k <= s.len(),
            p.len() > 0,
            spec_rfind(s@, p@) == spec_rfind_below(s@, p@, k as int),
        decreases k,
    {
        if matches_at_exec(s, p, k - 1) {
            return Some(k - 1);
        }
        k = k - 1;
    }
    None
}

/// Whether the string `s` contains the string `p`.
pub fn str_contains(s: &str, p: &str) -> (res: bool)
    ensures
        res == spec_contains(s@, p@),
{
    let a = chars_of(s);
    let b = chars_of(p);
    contains(a.as_slice(), b.as_slice())
}

/// Whether the string `s` starts with the string `p`.
pub fn str_starts_with(s: &str, p: &str) -> (res: bool)
    ensures
        res == spec_starts_with(s@, p@),
{
    let a = chars_of(s);
    let b = chars_of(p);
    starts_with(a.as_slice(), b.as_slice())
}

/// Whether the string `s` ends with the string `p`.
pub fn str_ends_with(s: &str, p: &str) -> (res: bool)
    ensures
        res == spec_ends_with(s@, p@),
{
    let a = chars_of(s);
    let b = chars_of(p);
    ends_with(a.as_slice(), b.as_slice())
}

/// The characters of `s` from `i` to `j`.
pub fn slice_chars(s: &[char], i: usize, j: usize) -> (res: Vec<char>)
    requires
        i <= j <= s.len(),
    ensures
        res@ == s@.subrange(i as int, j as int),
{
    let mut out: Vec<char> = Vec::new();
    let mut k = i;
    while k < j
        invariant
            i <= k <= j <= s.len(),
            out@ == s@.subrange(i as int, k as int),
        decreases j - k,
    {
        out.push(s[k]);
        k = k + 1;
        assert(out@ =~= s@.subrange(i as int, k as int));
    }
    out
}

/// The string made of the characters of `s` from `i` to `j`.
pub fn slice_string(s: &[char], i: usize, j: usize) -> (res: String)
    requires
        i <= j <= s.len(),
    ensures
        res@ == s@.subrange(i as int, j as int),
{
    let v = slice_chars(s, i, j);
    string_of(v.as_slice())
}

// ---------------------------------------------------------------------------
// Whitespace and trimming
// ---------------------------------------------------------------------------

/// The characters with the Unicode `White_Space` property (`char::is_whitespace`).
pub open spec fn spec_is_ws(c: char) -> bool {
    ||| c == ' '
    ||| ('\u{9}' <= c && c <= '\u{d}')
    ||| c == '\u{85}'
    ||| c == '\u{a0}'
    ||| c == '\u{1680}'
    ||| ('\u{2000}' <= c && c <= '\u{200a}')
    ||| c == '\u{2028}'
    ||| c == '\u{2029}'
    ||| c == '\u{202f}'
    ||| c == '\u{205f}'
    ||| c == '\u{3000}'
}

/// Whether a character is white space (`char::is_whitespace`).
pub fn is_ws(c: char) -> (res: bool)
    ensures
        res == spec_is_ws(c),
{
    c == ' ' || ('\u{9}' <= c && c <= '\u{d}') || c == '\u{85}' || c == '\u{a0}' || c
        == '\u{1680}' || ('\u{2000}' <= c && c <= '\u{200a}') || c == '\u{2028}' || c
        == '\u{2029}' || c == '\u{202f}' || c == '\u{205f}' || c == '\u{3000}'
}

pub open spec fn spec_trim_start(s: Seq<char>) -> Seq<char>
    decreases s.len(),
{
    if s.len() > 0 && spec_is_ws(s[0]) {
        spec_trim_start(s.drop_first())
    } else {
        s
    }
}

pub open spec fn spec_trim_end(s: Seq<char>) -> Seq<char>
    decreases s.len(),
{
    if s.len() > 0 && spec_is_ws(s.last()) {
        spec_trim_end(s.drop_last())
    } else {
        s
    }
}

/// `str::trim`: leading and trailing whitespace removed.
pub open spec fn spec_trim(s: Seq<char>) -> Seq<char> {
    spec_trim_end(spec_trim_start(s))
}

/// `s` without leading and trailing white space.
pub fn trim(s: &[char]) -> (res: Vec<char>)
    ensures
        res@ == spec_trim(s@),
{
    let mut i: usize = 0;
    assert(s@.subrange(0, s.len() as int) =~= s@);
    while i < s.len() && is_ws(s[i])
        invariant
            i <= s.len(),
            spec_trim_start(s@) == spec_trim_start(s@.subrange(i as int, s.len() as int)),
        decreases s.len() - i,
    {
        assert(s@.subrange(i as int, s.len() as int).drop_first() =~= s@.subrange(
            i + 1,
            s.len() as int,
        ));
        i = i + 1;
    }
    let mut j: usize = s.len();
    while j > i && is_ws(s[j - 1])
        invariant
            i <= j <= s.len(),
            spec_trim_start(s@) == s@.subrange(i as int, s.len() as int),
            spec_trim(s@) == spec_trim_end(s@.subrange(i as int, j as int)),
        decreases j,
    {
        assert(s@.subrange(i as int, j as int).drop_last() =~= s@.subrange(
            i as int,
            j - 1,
        ));
        j = j - 1;
    }
    slice_chars(s, i, j)
}

/// The string `s` with leading and trailing whitespace removed.
pub fn str_trim(s: &str) -> (res: String)
    ensures
        res@ == spec_trim(s@),
{
    let cs = chars_of(s);
    let t = trim(cs.as_slice());
    string_of(t.as_slice())
}

// ---------------------------------------------------------------------------
// Lines
// ---------------------------------------------------------------------------

/// The number of characters before the first line feed (or the length).
pub open spec fn nl_pos(s: Seq<char>) -> nat
    decreases s.len(),
{
    if s.len() == 0 {
        0
    } else if s[0] == '\n' {
        0
    } else {
        1 + nl_pos(s.drop_first())
    }
}

pub open spec fn strip_cr(l: Seq<char>) -> Seq<char> {
    if l.len() > 0 && l.last() == '\r' {
        l.drop_last()
    } else {
        l
    }
}

/// `str::lines`: the lines of `s`, split at `\n` or `\r\n`, with no empty
/// line after a final line ending.
pub open spec fn spec_lines(s: Seq<char>) -> Seq<Seq<char>>
    decreases s.len(),
{
    if s.len() == 0 {
        Seq::empty()
    } else {
        let k = nl_pos(s);
        if k < s.len() {
            seq![strip_cr(s.subrange(0, k as int))] + spec_lines(s.subrange(k + 1int, s.len() as int))
        } else {
            seq![s]
        }
    }
}

pub(crate) proof fn lemma_nl_pos(s: Seq<char>)
    ensures
        nl_pos(s) <= s.len(),
        nl_pos(s) < s.len() ==> s[nl_pos(s) as int] == '\n',
        forall|i: int| 0 <= i < nl_pos(s) ==> s[i] != '\n',
    decreases s.len(),
{
    if s.len() > 0 && s[0] != '\n' {
        lemma_nl_pos(s.drop_first());
        assert forall|i: int| 0 <= i < nl_pos(s) implies s[i] != '\n' by {
            if i > 0 {
                assert(s[i] == s.drop_first()[i - 1]);
            }
        }
    }
}

pub(crate) proof fn lemma_nl_pos_shift(s: Seq<char>, a: int, b: int)
    requires
        0 <= a <= b <= s.len(),
        forall|i: int| a <= i < b ==> s[i] != '\n',
    ensures
        nl_pos(s.subrange(a, s.len() as int)) == (b - a) + nl_pos(s.subrange(b, s.len() as int)),
    decreases b - a,
{
    if a < b {
        lemma_nl_pos_shift(s, a + 1, b);
        assert(s.subrange(a, s.len() as int).drop_first() =~= s.subrange(a + 1, s.len() as int));
    }
}

pub open spec fn views(v: Seq<Vec<char>>) -> Seq<Seq<char>> {
    v.map_values(|x: Vec<char>| x@)
}

pub(crate) proof fn lemma_views_push(v: Seq<Vec<char>>, x: Vec<char>)
    ensures
        views(v.push(x)) == views(v).push(x@),
{
    assert(views(v.push(x)) =~= views(v).push(x@));
}

pub(crate) proof fn lemma_string_views_push(v: Seq<String>, x: String)
    ensures
        string_views(v.push(x)) == string_views(v).push(x@),
{
    assert(string_views(v.push(x)) =~= string_views(v).push(x@));
}

/// The characters of an optional string.
pub open spec fn opt_view(o: Option<String>) -> Option<Seq<char>> {
    match o {
        Some(s) => Some(s@),
        None => None,
    }
}

/// The lines of a string (`str::lines`).
pub fn str_lines(s: &str) -> (res: Vec<Vec<char>>)
    ensures
        views(res@) == spec_lines(s@),
{
    let cs = chars_of(s);
    lines(cs.as_slice())
}

/// A copy of a list of strings.
pub fn copy_strings(v: &Vec<String>) -> (res: Vec<String>)
    ensures
        res@ == v@,
{
    let mut out: Vec<String> = Vec::new();
    let mut i: usize = 0;
    while i < v.len()
        invariant
            i <= v.len(),
            out@ == v@.take(i as int),
        decreases v.len() - i,
    {
        out.push(v[i].clone());
        assert(out@ =~= v@.take(i + 1));
        i = i + 1;
    }
    assert(v@.take(v.len() as int) =~= v@);
    out
}

/// A copy of an optional string.
pub fn copy_opt(o: &Option<String>) -> (res: Option<String>)
    ensures
        res == *o,
{
    match o {
        Some(s) => Some(s.clone()),
        None => None,
    }
}

/// The lines of `s`, as `str::lines` gives them.
pub fn lines(s: &[char]) -> (res: Vec<Vec<char>>)
    ensures
        views(res@) == spec_lines(s@),
{
    let mut res: Vec<Vec<char>> = Vec::new();
    let mut start: usize = 0;
    let n = s.len();
    assert(s@.subrange(0, n as int) =~= s@);
    assert(views(res@) + spec_lines(s@) =~= spec_lines(s@));
    while start < n
        invariant
            n == s.len(),
            start <= n,
            spec_lines(s@) == views(res@) + spec_lines(s@.subrange(start as int, n as int)),
        decreases n - start,
    {
        let mut j = start;
        while j < n && s[j] != '\n'
            invariant
                start <= j <= n,
                n == s.len(),
                forall|i: int| start <= i < j ==> s@[i] != '\n',
            decreases n - j,
        {
            j = j + 1;
        }
        let ghost rest = s@.subrange(start as int, n as int);
        proof {
            lemma_nl_pos_shift(s@, start as int, j as int);
            if j < n {
                assert(s@.subrange(j as int, n as int)[0] == '\n');
            }
            assert(nl_pos(s@.subrange(j as int, n as int)) == 0);
            assert(nl_pos(rest) == j - start);
        }
        let ghost old_res = views(res@);
        if j < n {
            let mut line = slice_chars(s, start, j);
            if line.len() > 0 && line[line.len() - 1] == '\r' {
                line.pop();
            }
            assert(line@ == strip_cr(rest.subrange(0, (j - start) as int))) by {
                assert(rest.subrange(0, (j - start) as int) =~= s@.subrange(start as int, j as int));
            }
            assert(rest.subrange(j - start + 1, rest.len() as int) =~= s@.subrange(j + 1, n as int));
            res.push(line);
            start = j + 1;
        } else {
            let line = slice_chars(s, start, n);
            res.push(line);
            start = n;
            assert(spec_lines(s@.subrange(start as int, n as int)) =~= Seq::<Seq<char>>::empty());
        }
        assert(views(res@) =~= old_res + seq![res@.last()@]);
    }
    assert(spec_lines(s@.subrange(n as int, n as int)) =~= Seq::<Seq<char>>::empty());
    assert(views(res@) + Seq::<Seq<char>>::empty() =~= views(res@));
    res
}

// ---------------------------------------------------------------------------
// Splitting and joining
// ---------------------------------------------------------------------------

/// `str::split` with a non-empty separator.
pub open spec fn spec_split(s: Seq<char>, sep: Seq<char>) -> Seq<Seq<char>>
    decreases s.len(),
{
    if sep.len() == 0 {
        seq![s]
    } else {
        match spec_find(s, sep) {
            Some(i) => if 0 <= i && i + sep.len() <= s.len() {
                seq![s.subrange(0, i)] + spec_split(s.subrange(i + sep.len(), s.len() as int), sep)
            } else {
                seq![s]
            },
            None => seq![s],
        }
    }
}

/// The parts joined with `sep` between each two.
pub open spec fn spec_join(parts: Seq<Seq<char>>, sep: Seq<char>) -> Seq<char>
    decreases parts.len(),
{
    if parts.len() == 0 {
        Seq::empty()
    } else if parts.len() == 1 {
        parts[0]
    } else {
        spec_join(parts.drop_last(), sep) + sep + parts.last()
    }
}

pub open spec fn string_views(v: Seq<String>) -> Seq<Seq<char>> {
    v.map_values(|x: String| x@)
}

/// Joins strings with `sep` between each two (`[String]::join`).
pub fn join(parts: &Vec<String>, sep: &str) -> (res: String)
    ensures
        res@ == spec_join(string_views(parts@), sep@),
{
    let sepc = chars_of(sep);
    let mut out: Vec<char> = Vec::new();
    let mut i: usize = 0;
    while i < parts.len()
        invariant
            i <= parts.len(),
            sepc@ == sep@,
            out@ == spec_join(string_views(parts@).take(i as int), sep@),
        decreases parts.len() - i,
    {
        let ghost before = out@;
        let mut pc = chars_of(parts[i].as_str());
        if i > 0 {
            let mut sc = sepc.clone();
            out.append(&mut sc);
        }
        out.append(&mut pc);
        proof {
            let t = string_views(parts@).take(i + 1);
            assert(t.drop_last() =~= string_views(parts@).take(i as int));
            if i == 0 {
                assert(out@ =~= t[0]);
            } else {
                assert(out@ =~= before + sep@ + t.last());
            }
        }
        i = i + 1;
    }
    assert(string_views(parts@).take(parts.len() as int) =~= string_views(parts@));
    string_of(out.as_slice())
}

pub(crate) proof fn lemma_find_shift(s: Seq<char>, p: Seq<char>, start: int, i: int)
    requires
        0 <= start <= i <= s.len(),
    ensures
        spec_find_from(s.subrange(start, s.len() as int), p, i - start) == (match spec_find_from(
            s,
            p,
            i,
        ) {
            Some(j) => Some(j - start),
            None => None,
        }),
    decreases s.len() + 1 - i,
{
    let t = s.subrange(start, s.len() as int);
    if i + p.len() > s.len() {
    } else {
        assert(t.subrange(i - start, i - start + p.len()) =~= s.subrange(i, i + p.len()));
        if p.len() == 0 {
            assert(s.subrange(i, i) =~= p);
        }
        if !matches_at(s, p, i) {
            lemma_find_shift(s, p, start, i + 1);
        }
    }
}

/// Splits on a non-empty separator (`str::split`).
pub fn split(s: &[char], sep: &[char]) -> (res: Vec<Vec<char>>)
    requires
        sep.len() > 0,
    ensures
        views(res@) == spec_split(s@, sep@),
{
    let mut res: Vec<Vec<char>> = Vec::new();
    let mut start: usize = 0;
    let n = s.len();
    assert(s@.subrange(0, n as int) =~= s@);
    assert(views(res@) + spec_split(s@, sep@) =~= spec_split(s@, sep@));
    loop
        invariant
            n == s.len(),
            sep.len() > 0,
            start <= n,
            spec_split(s@, sep@) == views(res@) + spec_split(s@.subrange(start as int, n as int), sep@),
        decreases n - start,
    {
        let ghost rest = s@.subrange(start as int, n as int);
        let ghost old_res = views(res@);
        proof {
            lemma_find_shift(s@, sep@, start as int, start as int);
        }
        match find_from(s, sep, start) {
            Some(j) => {
                proof {
                    lemma_find_from_props(s@, sep@, start as int);
                    assert(rest.subrange(0, j - start) =~= s@.subrange(start as int, j as int));
                    assert(rest.subrange(j - start + sep.len(), rest.len() as int) =~= s@.subrange(
                        j + sep.len(),
                        n as int,
                    ));
                }
                let part = slice_chars(s, start, j);
                res.push(part);
                assert(views(res@) =~= old_res + seq![s@.subrange(start as int, j as int)]);
                start = j + sep.len();
            },
            None => {
                let part = slice_chars(s, start, n);
                res.push(part);
                assert(views(res@) =~= old_res + seq![rest]);
                return res;
            },
        }
    }
}

/// Splits a string on a non-empty separator, giving owned parts.
pub fn split_str(s: &str, sep: &str) -> (res: Vec<String>)
    requires
        sep@.len() > 0,
    ensures
        string_views(res@) == spec_split(s@, sep@),
{
    let a = chars_of(s);
    let b = chars_of(sep);
    let parts = split(a.as_slice(), b.as_slice());
    let mut out: Vec<String> = Vec::new();
    let mut i: usize = 0;
    while i < parts.len()
        invariant
            i <= parts.len(),
            string_views(out@) == views(parts@).take(i as int),
        decreases parts.len() - i,
    {
        let st = string_of(parts[i].as_slice());
        let ghost before = out@;
        out.push(st);
        assert(out@ == before.push(st));
        assert(string_views(before).len() == before.len());
        assert(before.len() == i);
        assert(out@.len() == i + 1);
        assert(string_views(out@) =~= views(parts@).take(i + 1)) by {
            assert forall|k: int| 0 <= k < i + 1 implies string_views(out@)[k] == views(parts@).take(i + 1)[k] by {
                assert(string_views(out@)[k] == out@[k]@);
                assert(views(parts@).take(i + 1)[k] == parts@[k]@);
                if k < i {
                    assert(out@[k] == before[k]);
                    assert(string_views(before)[k] == before[k]@);
                    assert(views(parts@).take(i as int)[k] == parts@[k]@);
                } else {
                    assert(out@[k] == st);
                }
            }
        }
        i = i + 1;
    }
    assert(views(parts@).take(parts.len() as int) =~= views(parts@));
    out
}

/// `str::replace` with a non-empty pattern: every non-overlapping
/// occurrence, from the left, replaced.
pub open spec fn spec_replace(s: Seq<char>, from: Seq<char>, to: Seq<char>) -> Seq<char> {
    spec_join(spec_split(s, from), to)
}

/// `s` with every occurrence of `from` replaced by `to`, left to right.
pub fn replace(s: &str, from: &str, to: &str) -> (res: String)
    requires
        from@.len() > 0,
    ensures
        res@ == spec_replace(s@, from@, to@),
{
    let parts = split_str(s, from);
    join(&parts, to)
}

// ---------------------------------------------------------------------------
// Numbers
// ---------------------------------------------------------------------------

pub open spec fn all_digits(s: Seq<char>) -> bool {
    forall|i: int| 0 <= i < s.len() ==> '0' <= #[trigger] s[i] <= '9'
}

/// The value of a string of decimal digits.
pub open spec fn digits_value(s: Seq<char>) -> int
    decreases s.len(),
{
    if s.len() == 0 {
        0
    } else {
        digits_value(s.drop_last()) * 10 + (s.last() as int - '0' as int)
    }
}

/// What `str::parse::<u32>` gives: an optional `+`, then one or more ASCII
/// digits whose value fits in a `u32`.
pub open spec fn spec_parse_u32(s: Seq<char>) -> Option<u32> {
    let d = if s.len() > 0 && s[0] == '+' {
        s.drop_first()
    } else {
        s
    };
    if d.len() > 0 && all_digits(d) && digits_value(d) <= u32::MAX {
        Some(digits_value(d) as u32)
    } else {
        None
    }
}

proof fn lemma_digits_value_nonneg(s: Seq<char>)
    requires
        all_digits(s),
    ensures
        digits_value(s) >= 0,
    decreases s.len(),
{
    if s.len() > 0 {
        assert(all_digits(s.drop_last()));
        lemma_digits_value_nonneg(s.drop_last());
    }
}

/// Parses a decimal `u32` as `str::parse` does.
pub fn parse_u32(s: &str) -> (res: Option<u32>)
    ensures
        res == spec_parse_u32(s@),
{
    let cs = chars_of(s);
    let start: usize = if cs.len() > 0 && cs[0] == '+' {
        1
    } else {
        0
    };
    let ghost d = if s@.len() > 0 && s@[0] == '+' {
        s@.drop_first()
    } else {
        s@
    };
    assert(d =~= s@.subrange(start as int, s@.len() as int));
    if start >= cs.len() {
        return None;
    }
    let mut value: u64 = 0;
    let mut i: usize = start;
    while i < cs.len()
        invariant
            start <= i <= cs.len(),
            cs@ == s@,
            d == s@.subrange(start as int, s@.len() as int),
            d == (if s@.len() > 0 && s@[0] == '+' {
                s@.drop_first()
            } else {
                s@
            }),
            all_digits(d.take(i - start)),
            value == digits_value(d.take(i - start)),
            value <= u32::MAX,
        decreases cs.len() - i,
    {
        let c = cs[i];
        assert(d.take(i - start + 1).drop_last() =~= d.take(i - start));
        assert(d.take(i - start + 1).last() == c);
        if c < '0' || c > '9' {
            assert(!all_digits(d)) by {
                assert(d[i - start] == c);
            }
            assert(spec_parse_u32(s@) is None);
            return None;
        }
        let digit = (c as u32 - '0' as u32) as u64;
        assert(digit == c as int - '0' as int);
        value = value * 10 + digit;
        if value > 4294967295 {
            proof {
                if all_digits(d) {
                    lemma_digits_grow(d, i - start + 1, d.len() as int);
                    assert(d.take(d.len() as int) =~= d);
                }
            }
            assert(spec_parse_u32(s@) is None);
            return None;
        }
        i = i + 1;
    }
    assert(d.take(cs.len() - start) =~= d);
    Some(value as u32)
}

proof fn lemma_digits_grow(d: Seq<char>, a: int, b: int)
    requires
        0 <= a <= b <= d.len(),
        all_digits(d),
    ensures
        digits_value(d.take(b)) >= digits_value(d.take(a)),
    decreases b - a,
{
    if a < b {
        lemma_digits_grow(d, a, b - 1);
        assert(d.take(b).drop_last() =~= d.take(b - 1));
        assert(all_digits(d.take(b - 1)));
        lemma_digits_value_nonneg(d.take(b - 1));
    }
}

// ---------------------------------------------------------------------------
// Letter case
// ---------------------------------------------------------------------------

/// Whether a character has the Unicode `Lowercase` property.
pub uninterp spec fn spec_is_lowercase(c: char) -> bool;

/// Whether a character has the Unicode `Uppercase` property.
pub uninterp spec fn spec_is_uppercase(c: char) -> bool;

/// `char::is_lowercase`. Among ASCII characters exactly `a` to `z` have the
/// property; of the others the contract only names the answer.
#[verifier::external_body]
pub(crate) fn char_is_lowercase(c: char) -> (res: bool)
    ensures
        res == spec_is_lowercase(c),
        (c as u32) < 128 ==> (res <==> ('a' <= c && c <= 'z')),
{
    c.is_lowercase()
}

/// `char::is_uppercase`. Among ASCII characters exactly `A` to `Z` have the
/// property; of the others the contract only names the answer.
#[verifier::external_body]
pub(crate) fn char_is_uppercase(c: char) -> (res: bool)
    ensures
        res == spec_is_uppercase(c),
        (c as u32) < 128 ==> (res <==> ('A' <= c && c <= 'Z')),
{
    c.is_uppercase()
}

// ---------------------------------------------------------------------------
// Decimal text
// ---------------------------------------------------------------------------

pub open spec fn digit_char(d: nat) -> char {
    if d == 0 { '0' } else if d == 1 { '1' } else if d == 2 { '2' } else if d == 3 { '3' }
    else if d == 4 { '4' } else if d == 5 { '5' } else if d == 6 { '6' } else if d == 7 { '7' }
    else if d == 8 { '8' } else { '9' }
}

/// A number in decimal, without leading zeros.
pub open spec fn spec_decimal(n: nat) -> Seq<char>
    decreases n,
{
    if n < 10 {
        seq![digit_char(n)]
    } else {
        spec_decimal(n / 10).push(digit_char(n % 10))
    }
}

fn digit_char_exec(d: u64) -> (res: char)
    requires
        d < 10,
    ensures
        res == digit_char(d as nat),
{
    if d == 0 { '0' } else if d == 1 { '1' } else if d == 2 { '2' } else if d == 3 { '3' }
    else if d == 4 { '4' } else if d == 5 { '5' } else if d == 6 { '6' } else if d == 7 { '7' }
    else if d == 8 { '8' } else { '9' }
}

/// A number in decimal (`ToString` of an unsigned integer).
pub fn decimal(n: u64) -> (res: String)
    ensures
        res@ == spec_decimal(n as nat),
    decreases n,
{
    if n < 10 {
        let c = digit_char_exec(n);
        let v: Vec<char> = vec![c];
        assert(v@ =~= seq![digit_char(n as nat)]);
        string_of(v.as_slice())
    } else {
        let head = decimal(n / 10);
        let mut cs = chars_of(head.as_str());
        cs.push(digit_char_exec(n % 10));
        string_of(cs.as_slice())
    }
}

} // verus!
