//! Character-level utilities shared by the normalizer, classifier and scanner.
//!
//! All string logic in this crate works on `Vec<char>` values whose views are
//! `Seq<char>`, so that contracts can be stated directly over character
//! sequences. This module provides the conversions between `String`/`&str`
//! and `Vec<char>`, and the basic comparisons and searches on them.

use vstd::prelude::*;

verus! {

use vstd::std_specs::iter::IteratorSpec;

broadcast use vstd::string::group_string_axioms;

/// The view of an optional character vector.
pub open spec fn opt_view(o: Option<Vec<char>>) -> Option<Seq<char>> {
    match o {
        Some(v) => Some(v@),
        None => None,
    }
}

/// The views of a sequence of strings.
pub open spec fn str_views(v: Seq<String>) -> Seq<Seq<char>> {
    Seq::new(v.len(), |i: int| v[i]@)
}

/// True for the ASCII whitespace characters of HTML markup: these separate
/// tag attributes and class-list entries.
pub open spec fn is_ws(c: char) -> bool {
    c == ' ' || c == '\t' || c == '\n' || c == '\r' || c == '\u{0C}'
}

/// Executable check matching `is_ws`.
pub fn is_ws_char(c: char) -> (b: bool)
    ensures
        b == is_ws(c),
{
    c == ' ' || c == '\t' || c == '\n' || c == '\r' || c == '\u{0C}'
}

/// True for the Unicode whitespace characters (the White_Space property),
/// the set trimming recognises.
pub open spec fn is_uws(c: char) -> bool {
    c == '\t' || c == '\n' || c == '\u{0B}' || c == '\u{0C}' || c == '\r' || c == ' ' || c
        == '\u{85}' || c == '\u{A0}' || c == '\u{1680}' || ('\u{2000}' <= c && c <= '\u{200A}')
        || c == '\u{2028}' || c == '\u{2029}' || c == '\u{202F}' || c == '\u{205F}' || c
        == '\u{3000}'
}

/// Executable check matching `is_uws`.
pub fn is_uws_char(c: char) -> (b: bool)
    ensures
        b == is_uws(c),
{
    c == '\t' || c == '\n' || c == '\u{0B}' || c == '\u{0C}' || c == '\r' || c == ' ' || c
        == '\u{85}' || c == '\u{A0}' || c == '\u{1680}' || ('\u{2000}' <= c && c <= '\u{200A}')
        || c == '\u{2028}' || c == '\u{2029}' || c == '\u{202F}' || c == '\u{205F}' || c
        == '\u{3000}'
}

/// ASCII lower-casing of a single character; other characters are unchanged.
pub open spec fn lower_char(c: char) -> char {
    if 'A' <= c && c <= 'Z' {
        ((c as u8) + 32) as char
    } else {
        c
    }
}

/// Executable ASCII lower-casing matching `lower_char`.
pub fn lower_char_exec(c: char) -> (r: char)
    ensures
        r == lower_char(c),
{
    if 'A' <= c && c <= 'Z' {
        ((c as u8) + 32) as char
    } else {
        c
    }
}

/// The sequence with every character ASCII-lower-cased.
pub open spec fn lower_seq(s: Seq<char>) -> Seq<char> {
    s.map(|i: int, c: char| lower_char(c))
}

/// Collects the characters of a string slice into a vector.
pub fn str_chars(s: &str) -> (r: Vec<char>)
    ensures
        r@ == s@,
{
    let mut it = s.chars();
    let mut v: Vec<char> = Vec::new();
    loop
        invariant
            v@ + it.remaining() == s@,
            it.decrease() is Some,
        ensures
            v@ == s@,
        decreases it.decrease()->0,
    {
        match it.next() {
            Some(c) => {
                v.push(c);
            },
            None => {
                break ;
            },
        }
    }
    v
}

/// Relies on `String::push`: appends the given character to the end of the string.
#[verifier::external_body]
fn push_char(s: &mut String, c: char)
    ensures
        final(s)@ == old(s)@.push(c),
{
    s.push(c)
}

/// Builds a `String` from a vector of characters.
pub fn chars_string(v: &Vec<char>) -> (r: String)
    ensures
        r@ == v@,
{
    let mut s = String::new();
    let mut i: usize = 0;
    while i < v.len()
        invariant
            i <= v.len(),
            s@ =~= v@.take(i as int),
        decreases v.len() - i,
    {
        push_char(&mut s, v[i]);
        proof {
            assert(s@ =~= v@.take(i + 1 as int));
        }
        i = i + 1;
    }
    proof {
        assert(v@.take(v.len() as int) =~= v@);
    }
    s
}

/// Appends every character of `src` to `dst`.
pub fn append_chars(dst: &mut Vec<char>, src: &Vec<char>)
    ensures
        final(dst)@ == old(dst)@ + src@,
{
    let mut i: usize = 0;
    while i < src.len()
        invariant
            i <= src@.len(),
            dst@ =~= old(dst)@ + src@.take(i as int),
        decreases src.len() - i,
    {
        dst.push(src[i]);
        proof {
            assert(dst@ =~= old(dst)@ + src@.take(i + 1 as int));
        }
        i = i + 1;
    }
    proof {
        assert(src@.take(src@.len() as int) =~= src@);
    }
}

/// Equality of two character vectors, decided element by element.
pub fn eq_chars(a: &Vec<char>, b: &Vec<char>) -> (r: bool)
    ensures
        r == (a@ == b@),
{
    if a.len() != b.len() {
        proof {
            assert(a@.len() != b@.len());
        }
        return false;
    }
    let mut i: usize = 0;
    while i < a.len()
        invariant
            i <= a.len(),
            a@.len() == b@.len(),
            forall|k: int| 0 <= k < i ==> a@[k] == b@[k],
        decreases a.len() - i,
    {
        if a[i] != b[i] {
            return false;
        }
        i = i + 1;
    }
    proof {
        assert(a@ =~= b@);
    }
    true
}

/// Copies a vector of strings, preserving every view.
#[verifier::loop_isolation(false)]
pub fn clone_strings(v: &Vec<String>) -> (r: Vec<String>)
    ensures
        str_views(r@) == str_views(v@),
{
    let mut r: Vec<String> = Vec::new();
    let mut i: usize = 0;
    while i < v.len()
        invariant
            i <= v@.len(),
            str_views(r@) == str_views(v@).take(i as int),
        decreases v.len() - i,
    {
        let s = v[i].as_str().to_owned();
        proof {
            assert(s@ == str_views(v@)[i as int]);
        }
        let ghost old_r = r@;
        proof {
            assert(str_views(old_r).len() == old_r.len());
            assert(old_r.len() == i);
        }
        r.push(s);
        proof {
            assert forall|j: int| 0 <= j < i + 1 implies str_views(r@)[j] == str_views(v@)[j] by {
                if j < i {
                    assert(str_views(old_r)[j] == str_views(v@).take(i as int)[j]);
                    assert(r@[j] == old_r[j]);
                } else {
                    assert(r@[j] == old_r.push(s)[j]);
                }
            }
            assert(str_views(r@) =~= str_views(v@).take(i + 1 as int));
        }
        i = i + 1;
    }
    proof {
        assert(str_views(v@).take(v@.len() as int) =~= str_views(v@));
    }
    r
}

/// Equality of two string slices, decided character by character.
pub fn str_eq(a: &str, b: &str) -> (r: bool)
    ensures
        r == (a@ == b@),
{
    let av = str_chars(a);
    let bv = str_chars(b);
    eq_chars(&av, &bv)
}

/// True when `s` begins with the prefix `p`.
pub open spec fn has_prefix(s: Seq<char>, p: Seq<char>) -> bool {
    p.len() <= s.len() && s.take(p.len() as int) == p
}

/// True when `s` ends with the suffix `p`.
pub open spec fn has_suffix(s: Seq<char>, p: Seq<char>) -> bool {
    p.len() <= s.len() && s.skip(s.len() - p.len()) == p
}

/// Executable prefix test matching `has_prefix`.
pub fn starts_with_chars(s: &Vec<char>, p: &Vec<char>) -> (r: bool)
    ensures
        r == has_prefix(s@, p@),
{
    if p.len() > s.len() {
        return false;
    }
    let mut i: usize = 0;
    while i < p.len()
        invariant
            i <= p.len(),
            p@.len() <= s@.len(),
            forall|k: int| 0 <= k < i ==> s@[k] == p@[k],
        decreases p.len() - i,
    {
        if s[i] != p[i] {
            proof {
                assert(s@.take(p@.len() as int)[i as int] != p@[i as int]);
            }
            return false;
        }
        i = i + 1;
    }
    proof {
        assert(s@.take(p@.len() as int) =~= p@);
    }
    true
}

/// Executable suffix test matching `has_suffix`.
pub fn ends_with_chars(s: &Vec<char>, p: &Vec<char>) -> (r: bool)
    ensures
        r == has_suffix(s@, p@),
{
    if p.len() > s.len() {
        return false;
    }
    let n: usize = s.len();
    let m: usize = p.len();
    let off: usize = n - m;
    let mut i: usize = 0;
    while i < m
        invariant
            i <= m,
            m == p@.len(),
            n == s@.len(),
            p@.len() <= s@.len(),
            off == s@.len() - p@.len(),
            forall|k: int| 0 <= k < i ==> s@[off + k] == p@[k],
        decreases m - i,
    {
        if s[off + i] != p[i] {
            proof {
                assert(s@.skip(off as int)[i as int] != p@[i as int]);
            }
            return false;
        }
        i = i + 1;
    }
    proof {
        assert(s@.skip(off as int) =~= p@);
    }
    true
}

/// Copies the range `[from, to)` of `s` into a fresh vector.
pub fn subrange_chars(s: &Vec<char>, from: usize, to: usize) -> (r: Vec<char>)
    requires
        from <= to <= s@.len(),
    ensures
        r@ == s@.subrange(from as int, to as int),
{
    let mut r: Vec<char> = Vec::new();
    let mut i: usize = from;
    while i < to
        invariant
            from <= i <= to <= s@.len(),
            r@ =~= s@.subrange(from as int, i as int),
        decreases to - i,
    {
        r.push(s[i]);
        proof {
            assert(r@ =~= s@.subrange(from as int, i + 1 as int));
        }
        i = i + 1;
    }
    r
}

/// The first index at or after `i` holding `c1` or `c2`, or the length of `s`.
pub open spec fn cfind2(s: Seq<char>, i: int, c1: char, c2: char) -> int
    decreases s.len() - i when 0 <= i <= s.len()
{
    if i >= s.len() {
        s.len() as int
    } else if s[i] == c1 || s[i] == c2 {
        i
    } else {
        cfind2(s, i + 1, c1, c2)
    }
}

/// The first index at or after `i` holding `c`, or the length of `s`.
pub open spec fn cfind(s: Seq<char>, i: int, c: char) -> int {
    cfind2(s, i, c, c)
}

/// `cfind2` stays within `[i, s.len()]` and the characters it skips differ
/// from both needles; the found position holds one of them.
pub proof fn lemma_cfind2_bounds(s: Seq<char>, i: int, c1: char, c2: char)
    requires
        0 <= i <= s.len(),
    ensures
        i <= cfind2(s, i, c1, c2) <= s.len(),
        forall|k: int| i <= k < cfind2(s, i, c1, c2) ==> s[k] != c1 && s[k] != c2,
        cfind2(s, i, c1, c2) < s.len() ==> (s[cfind2(s, i, c1, c2)] == c1 || s[cfind2(
            s,
            i,
            c1,
            c2,
        )] == c2),
    decreases s.len() - i,
{
    if i >= s.len() {
    } else if s[i] == c1 || s[i] == c2 {
    } else {
        lemma_cfind2_bounds(s, i + 1, c1, c2);
    }
}

/// Executable search matching `cfind2`.
pub fn find2_chars(s: &Vec<char>, from: usize, c1: char, c2: char) -> (r: usize)
    requires
        from <= s@.len(),
    ensures
        r == cfind2(s@, from as int, c1, c2),
{
    let mut i: usize = from;
    while i < s.len()
        invariant
            from <= i <= s@.len(),
            cfind2(s@, from as int, c1, c2) == cfind2(s@, i as int, c1, c2),
        decreases s.len() - i,
    {
        if s[i] == c1 || s[i] == c2 {
            return i;
        }
        i = i + 1;
    }
    i
}

/// Executable search matching `cfind`.
pub fn find_chars(s: &Vec<char>, from: usize, c: char) -> (r: usize)
    requires
        from <= s@.len(),
    ensures
        r == cfind(s@, from as int, c),
{
    find2_chars(s, from, c, c)
}

/// The last index at or before `i` holding `c`, or `-1`.
pub open spec fn crfind(s: Seq<char>, i: int, c: char) -> int
    decreases i + 1 when i < s.len()
{
    if i < 0 {
        -1
    } else if s[i] == c {
        i
    } else {
        crfind(s, i - 1, c)
    }
}

/// Executable backwards search matching `crfind` started at the last index.
pub fn rfind_chars(s: &Vec<char>, c: char) -> (r: Option<usize>)
    ensures
        match r {
            Some(j) => crfind(s@, s@.len() - 1, c) == j && j < s@.len() && s@[j as int] == c,
            None => crfind(s@, s@.len() - 1, c) == -1,
        },
{
    let mut i: usize = s.len();
    while i > 0
        invariant
            i <= s@.len(),
            crfind(s@, s@.len() - 1, c) == crfind(s@, i - 1, c),
        decreases i,
    {
        i = i - 1;
        if s[i] == c {
            return Some(i);
        }
    }
    None
}

/// The number of leading whitespace characters from position `i` on.
pub open spec fn ws_run(s: Seq<char>, i: int) -> int
    decreases s.len() - i when 0 <= i <= s.len()
{
    if i >= s.len() {
        i
    } else if is_uws(s[i]) {
        ws_run(s, i + 1)
    } else {
        i
    }
}

/// The index one past the last non-whitespace character at or before `i`.
pub open spec fn ws_back(s: Seq<char>, i: int) -> int
    decreases i + 1 when i < s.len()
{
    if i < 0 {
        0
    } else if is_uws(s[i]) {
        ws_back(s, i - 1)
    } else {
        i + 1
    }
}

/// `s` with leading and trailing Unicode whitespace removed.
pub open spec fn trim_seq(s: Seq<char>) -> Seq<char> {
    let a = ws_run(s, 0);
    if a == s.len() {
        Seq::empty()
    } else {
        s.subrange(a, ws_back(s, s.len() - 1))
    }
}

/// `ws_run` stays within bounds, skips only whitespace, and stops on a
/// non-whitespace character.
pub proof fn lemma_ws_run_bounds(s: Seq<char>, i: int)
    requires
        0 <= i <= s.len(),
    ensures
        i <= ws_run(s, i) <= s.len(),
        ws_run(s, i) < s.len() ==> !is_uws(s[ws_run(s, i)]),
        forall|k: int| i <= k < ws_run(s, i) ==> is_uws(s[k]),
    decreases s.len() - i,
{
    if i < s.len() && is_uws(s[i]) {
        lemma_ws_run_bounds(s, i + 1);
    }
}

/// `ws_back` stays within bounds.
pub proof fn lemma_ws_back_bounds(s: Seq<char>, i: int)
    requires
        -1 <= i < s.len(),
    ensures
        ws_back(s, i) <= i + 1,
        0 <= ws_back(s, i),
    decreases i + 1,
{
    if i >= 0 && is_uws(s[i]) {
        lemma_ws_back_bounds(s, i - 1);
    }
}

/// Scanning backwards never passes a non-whitespace character at `a`.
pub proof fn lemma_ws_back_ge(s: Seq<char>, a: int, j: int)
    requires
        0 <= a <= j < s.len(),
        !is_uws(s[a]),
    ensures
        ws_back(s, j) >= a + 1,
    decreases j + 1,
{
    if is_uws(s[j]) {
        lemma_ws_back_ge(s, a, j - 1);
    }
}

/// When some character of `s` is not whitespace the trim bounds nest.
pub proof fn lemma_trim_wf(s: Seq<char>)
    requires
        ws_run(s, 0) < s.len(),
    ensures
        ws_run(s, 0) < ws_back(s, s.len() - 1) <= s.len(),
{
    lemma_ws_run_bounds(s, 0);
    lemma_ws_back_bounds(s, s.len() - 1);
    lemma_ws_back_ge(s, ws_run(s, 0), s.len() - 1);
}

/// Trimming is a no-op on a string whose ends are not whitespace.
pub proof fn lemma_trim_noop(s: Seq<char>)
    requires
        s.len() > 0,
        !is_uws(s[0]),
        !is_uws(s.last()),
    ensures
        trim_seq(s) == s,
{
    assert(ws_run(s, 0) == 0);
    assert(ws_back(s, s.len() - 1) == s.len());
    assert(s.subrange(0, s.len() as int) =~= s);
}

/// A non-empty fixed point of trimming has no whitespace at either end.
pub proof fn lemma_trim_fixed(s: Seq<char>)
    requires
        trim_seq(s) == s,
        s.len() > 0,
    ensures
        !is_uws(s[0]),
        !is_uws(s.last()),
{
    lemma_ws_run_bounds(s, 0);
    lemma_ws_back_bounds(s, s.len() - 1);
    if is_uws(s[0]) {
        let a = ws_run(s, 0);
        assert(a >= 1) by {
            lemma_ws_run_bounds(s, 1);
        }
        if a == s.len() {
            assert(trim_seq(s).len() == 0);
        } else {
            lemma_trim_wf(s);
            assert(trim_seq(s).len() == ws_back(s, s.len() - 1) - a);
            assert(trim_seq(s).len() < s.len());
        }
        assert(false);
    }
    if is_uws(s.last()) {
        let a = ws_run(s, 0);
        if a == s.len() {
            assert(trim_seq(s).len() == 0);
        } else {
            assert(ws_back(s, s.len() - 1) == ws_back(s, s.len() - 2));
            assert(ws_back(s, s.len() - 2) <= s.len() - 1) by {
                lemma_ws_back_bounds(s, s.len() - 2);
            }
            assert(trim_seq(s).len() < s.len());
        }
        assert(false);
    }
}

/// Executable trim matching `trim_seq`.
pub fn trim_chars(s: &Vec<char>) -> (r: Vec<char>)
    ensures
        r@ == trim_seq(s@),
{
    let mut a: usize = 0;
    while a < s.len() && is_uws_char(s[a])
        invariant
            a <= s@.len(),
            ws_run(s@, 0) == ws_run(s@, a as int),
        decreases s.len() - a,
    {
        a = a + 1;
    }
    if a == s.len() {
        proof {
            lemma_ws_run_bounds(s@, a as int);
        }
        return Vec::new();
    }
    proof {
        assert(!is_uws(s@[a as int]));
        assert(ws_run(s@, a as int) == a);
    }
    let mut b: usize = s.len();
    while b > a && is_uws_char(s[b - 1])
        invariant
            a < b <= s@.len(),
            a < s@.len(),
            !is_uws(s@[a as int]),
            ws_back(s@, s@.len() - 1) == ws_back(s@, b - 1),
        decreases b,
    {
        b = b - 1;
    }
    proof {
        assert(!is_uws(s@[b - 1]));
        assert(ws_back(s@, b - 1) == b as int);
    }
    subrange_chars(s, a, b)
}

/// ASCII-lower-cases a whole vector, matching `lower_seq`.
pub fn lower_chars(s: &Vec<char>) -> (r: Vec<char>)
    ensures
        r@ == lower_seq(s@),
{
    let mut r: Vec<char> = Vec::new();
    let mut i: usize = 0;
    while i < s.len()
        invariant
            i <= s@.len(),
            r@ =~= lower_seq(s@.take(i as int)),
        decreases s.len() - i,
    {
        r.push(lower_char_exec(s[i]));
        proof {
            assert(r@ =~= lower_seq(s@.take(i + 1 as int)));
        }
        i = i + 1;
    }
    proof {
        assert(s@.take(s@.len() as int) =~= s@);
    }
    r
}

} // verus!
