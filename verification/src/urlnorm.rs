//! Canonical URL forms.
//!
//! One canonical form identifies every page: the page URL derived from a
//! file path and the normalized path of any href pointing at the same
//! resource are byte-identical. `/about/index.html`, `/about/` and a
//! relative link resolving to `/about/index.html` all normalize to
//! `/about/`.

use vstd::prelude::*;

use crate::text::{
    append_chars, cfind2, chars_string, crfind, ends_with_chars, find2_chars, has_suffix,
    lemma_cfind2_bounds, rfind_chars, str_chars, subrange_chars,
};

verus! {

/// The suffix `/index.html`.
pub open spec fn slash_index_html() -> Seq<char> {
    seq!['/', 'i', 'n', 'd', 'e', 'x', '.', 'h', 't', 'm', 'l']
}

/// The suffix `.html`.
pub open spec fn dot_html() -> Seq<char> {
    seq!['.', 'h', 't', 'm', 'l']
}

/// The pattern `index.html`.
pub open spec fn index_html() -> Seq<char> {
    seq!['i', 'n', 'd', 'e', 'x', '.', 'h', 't', 'm', 'l']
}

/// Builds the `/index.html` pattern as a vector.
fn pat_slash_index_html() -> (r: Vec<char>)
    ensures
        r@ == slash_index_html(),
{
    let mut v: Vec<char> = Vec::new();
    v.push('/');
    v.push('i');
    v.push('n');
    v.push('d');
    v.push('e');
    v.push('x');
    v.push('.');
    v.push('h');
    v.push('t');
    v.push('m');
    v.push('l');
    proof {
        assert(v@ =~= slash_index_html());
    }
    v
}

/// Builds the `.html` pattern as a vector.
fn pat_dot_html() -> (r: Vec<char>)
    ensures
        r@ == dot_html(),
{
    let mut v: Vec<char> = Vec::new();
    v.push('.');
    v.push('h');
    v.push('t');
    v.push('m');
    v.push('l');
    proof {
        assert(v@ =~= dot_html());
    }
    v
}

/// The path with everything from the first `?` or `#` on removed.
pub open spec fn strip_qf_spec(s: Seq<char>) -> Seq<char> {
    s.take(cfind2(s, 0, '?', '#'))
}

/// An internal path brought to the canonical page-URL form: a trailing
/// `/index.html` collapses to the trailing slash, a trailing `.html` is
/// dropped, and every other path is left untouched.
pub open spec fn norm_path(p: Seq<char>) -> Seq<char> {
    if has_suffix(p, slash_index_html()) {
        p.take(p.len() - index_html().len())
    } else if has_suffix(p, dot_html()) {
        p.take(p.len() - dot_html().len())
    } else {
        p
    }
}

/// The canonical page URL of a file path relative to the output root.
pub open spec fn file_url_spec(p: Seq<char>) -> Seq<char> {
    norm_path(seq!['/'] + p)
}

/// Normalizes an internal path, matching `norm_path` on the view.
pub fn normalize_path_chars(v: &Vec<char>) -> (r: Vec<char>)
    ensures
        r@ == norm_path(v@),
{
    let pat1 = pat_slash_index_html();
    if ends_with_chars(v, &pat1) {
        return subrange_chars(v, 0, v.len() - 10);
    }
    let pat2 = pat_dot_html();
    if ends_with_chars(v, &pat2) {
        return subrange_chars(v, 0, v.len() - 5);
    }
    subrange_chars(v, 0, v.len())
}

/// Normalizes the path portion of an internal href so that edge targets
/// match the node URLs produced from file paths.
pub fn normalize_internal_path(path: &str) -> (r: String)
    ensures
        r@ == norm_path(path@),
{
    let v = str_chars(path);
    let n = normalize_path_chars(&v);
    chars_string(&n)
}

/// Removes the query string and fragment, matching `strip_qf_spec` on the view.
pub fn strip_qf_chars(v: &Vec<char>) -> (r: Vec<char>)
    ensures
        r@ == strip_qf_spec(v@),
{
    let end = find2_chars(v, 0, '?', '#');
    proof {
        lemma_cfind2_bounds(v@, 0, '?', '#');
    }
    subrange_chars(v, 0, end)
}

/// Returns the href up to but excluding the first `?` or `#`.
pub fn strip_query_and_fragment(url: &str) -> (r: String)
    ensures
        r@ == strip_qf_spec(url@),
{
    let v = str_chars(url);
    let s = strip_qf_chars(&v);
    chars_string(&s)
}

/// Converts a file path relative to the output root to a page URL:
/// `about/index.html` becomes `/about/`, `posts/hello.html` becomes
/// `/posts/hello`, and the root `index.html` becomes `/`.
pub fn file_path_to_url(path: &str) -> (r: String)
    ensures
        r@ == file_url_spec(path@),
{
    let v = str_chars(path);
    let mut u: Vec<char> = Vec::new();
    u.push('/');
    append_chars(&mut u, &v);
    proof {
        assert(u@ =~= seq!['/'] + path@);
    }
    let n = normalize_path_chars(&u);
    chars_string(&n)
}

// ---------------------------------------------------------------------
// Relative resolution
// ---------------------------------------------------------------------
/// Appends `cur` as a segment unless it is empty.
pub open spec fn push_seg(acc: Seq<Seq<char>>, cur: Seq<char>) -> Seq<Seq<char>> {
    if cur.len() == 0 {
        acc
    } else {
        acc.push(cur)
    }
}

/// The non-empty `/`-separated segments of `s[i..]`, with `cur` the partial
/// segment read so far and `acc` the segments already complete.
pub open spec fn collect_segs(acc: Seq<Seq<char>>, cur: Seq<char>, s: Seq<char>, i: int) -> Seq<
    Seq<char>,
>
    decreases s.len() - i when 0 <= i <= s.len()
{
    if i >= s.len() {
        push_seg(acc, cur)
    } else if s[i] == '/' {
        collect_segs(push_seg(acc, cur), Seq::empty(), s, i + 1)
    } else {
        collect_segs(acc, cur.push(s[i]), s, i + 1)
    }
}

/// One href path segment applied to the accumulated segments: empty and `.`
/// are no-ops, `..` pops (never past the root), anything else is appended.
pub open spec fn apply_part(acc: Seq<Seq<char>>, part: Seq<char>) -> Seq<Seq<char>> {
    if part.len() == 0 || part == seq!['.'] {
        acc
    } else if part == seq!['.', '.'] {
        if acc.len() > 0 {
            acc.drop_last()
        } else {
            acc
        }
    } else {
        acc.push(part)
    }
}

/// All href path segments of `s[i..]` applied in order.
pub open spec fn apply_parts(acc: Seq<Seq<char>>, cur: Seq<char>, s: Seq<char>, i: int) -> Seq<
    Seq<char>,
>
    decreases s.len() - i when 0 <= i <= s.len()
{
    if i >= s.len() {
        apply_part(acc, cur)
    } else if s[i] == '/' {
        apply_parts(apply_part(acc, cur), Seq::empty(), s, i + 1)
    } else {
        apply_parts(acc, cur.push(s[i]), s, i + 1)
    }
}

/// Joins segments with `/`, each segment preceded by one slash.
pub open spec fn join_slash(segs: Seq<Seq<char>>) -> Seq<char>
    decreases segs.len(),
{
    if segs.len() == 0 {
        Seq::empty()
    } else {
        join_slash(segs.drop_last()) + seq!['/'] + segs.last()
    }
}

/// The directory of a page URL: everything up to and including the last
/// slash, or `/` when the URL holds no slash.
pub open spec fn page_dir(page: Seq<char>) -> Seq<char> {
    let p = crfind(page, page.len() - 1, '/');
    if p >= 0 {
        page.take(p + 1)
    } else {
        seq!['/']
    }
}

/// A relative href path resolved against the directory of the current page.
pub open spec fn resolve_rel(page: Seq<char>, href: Seq<char>) -> Seq<char> {
    let segs = collect_segs(Seq::empty(), Seq::empty(), page_dir(page), 0);
    let fin = apply_parts(segs, Seq::empty(), href, 0);
    if fin.len() == 0 {
        seq!['/']
    } else {
        join_slash(fin)
    }
}

/// The views of a sequence of segment vectors.
pub open spec fn seg_views(v: Seq<Vec<char>>) -> Seq<Seq<char>> {
    Seq::new(v.len(), |i: int| v[i]@)
}

/// Collects the non-empty segments of a path, matching `collect_segs`.
fn collect_segs_exec(s: &Vec<char>) -> (r: Vec<Vec<char>>)
    ensures
        seg_views(r@) == collect_segs(Seq::empty(), Seq::empty(), s@, 0),
{
    let mut acc: Vec<Vec<char>> = Vec::new();
    let mut cur: Vec<char> = Vec::new();
    let mut i: usize = 0;
    proof {
        assert(seg_views(acc@) =~= Seq::<Seq<char>>::empty());
    }
    while i < s.len()
        invariant
            i <= s@.len(),
            collect_segs(seg_views(acc@), cur@, s@, i as int) == collect_segs(
                Seq::empty(),
                Seq::empty(),
                s@,
                0,
            ),
        decreases s.len() - i,
    {
        let ghost accd = seg_views(acc@);
        let ghost curd = cur@;
        let c = s[i];
        if c == '/' {
            proof {
                assert(collect_segs(accd, curd, s@, i as int) == collect_segs(
                    push_seg(accd, curd),
                    Seq::<char>::empty(),
                    s@,
                    i + 1 as int,
                ));
            }
            if cur.len() > 0 {
                acc.push(cur);
                cur = Vec::new();
                proof {
                    assert(seg_views(acc@) =~= push_seg(accd, curd));
                }
            } else {
                proof {
                    assert(curd =~= Seq::<char>::empty());
                    assert(seg_views(acc@) =~= push_seg(accd, curd));
                }
            }
        } else {
            cur.push(c);
            proof {
                assert(collect_segs(accd, curd, s@, i as int) == collect_segs(
                    accd,
                    curd.push(s@[i as int]),
                    s@,
                    i + 1 as int,
                ));
            }
        }
        i = i + 1;
    }
    if cur.len() > 0 {
        let ghost accd = seg_views(acc@);
        let ghost curd = cur@;
        acc.push(cur);
        proof {
            assert(seg_views(acc@) =~= push_seg(accd, curd));
        }
    }
    acc
}

/// Applies the href segments of `s` to the accumulated segments, matching
/// `apply_parts`.
fn apply_parts_exec(acc0: Vec<Vec<char>>, s: &Vec<char>) -> (r: Vec<Vec<char>>)
    ensures
        seg_views(r@) == apply_parts(seg_views(acc0@), Seq::empty(), s@, 0),
{
    let mut acc = acc0;
    let ghost init = seg_views(acc@);
    let mut cur: Vec<char> = Vec::new();
    let mut i: usize = 0;
    while i < s.len()
        invariant
            i <= s@.len(),
            apply_parts(seg_views(acc@), cur@, s@, i as int) == apply_parts(
                init,
                Seq::empty(),
                s@,
                0,
            ),
        decreases s.len() - i,
    {
        let ghost accd = seg_views(acc@);
        let ghost curd = cur@;
        let c = s[i];
        if c == '/' {
            proof {
                assert(apply_parts(accd, curd, s@, i as int) == apply_parts(
                    apply_part(accd, curd),
                    Seq::<char>::empty(),
                    s@,
                    i + 1 as int,
                ));
            }
            let n = apply_part_exec(acc, cur);
            acc = n;
            cur = Vec::new();
            proof {
                assert(seg_views(acc@) == apply_part(accd, curd));
            }
        } else {
            cur.push(c);
            proof {
                assert(apply_parts(accd, curd, s@, i as int) == apply_parts(
                    accd,
                    curd.push(s@[i as int]),
                    s@,
                    i + 1 as int,
                ));
            }
        }
        i = i + 1;
    }
    let ghost accd = seg_views(acc@);
    let ghost curd = cur@;
    let r = apply_part_exec(acc, cur);
    proof {
        assert(seg_views(r@) == apply_part(accd, curd));
    }
    r
}

/// Applies one segment, matching `apply_part`.
fn apply_part_exec(acc0: Vec<Vec<char>>, part: Vec<char>) -> (r: Vec<Vec<char>>)
    ensures
        seg_views(r@) == apply_part(seg_views(acc0@), part@),
{
    let ghost accd = seg_views(acc0@);
    let ghost partd = part@;
    let mut acc = acc0;
    if part.len() == 0 {
        acc
    } else if part.len() == 1 && part[0] == '.' {
        proof {
            assert(partd =~= seq!['.']);
        }
        acc
    } else if part.len() == 2 && part[0] == '.' && part[1] == '.' {
        proof {
            assert(partd =~= seq!['.', '.']);
        }
        if acc.len() > 0 {
            acc.pop();
            proof {
                assert(seg_views(acc@) =~= accd.drop_last());
            }
        }
        acc
    } else {
        proof {
            assert(partd.len() > 0);
            assert(partd != seq!['.']) by {
                if partd == seq!['.'] {
                    assert(partd.len() == 1 && partd[0] == '.');
                }
            }
            assert(partd != seq!['.', '.']) by {
                if partd == seq!['.', '.'] {
                    assert(partd.len() == 2 && partd[0] == '.' && partd[1] == '.');
                }
            }
        }
        acc.push(part);
        proof {
            assert(seg_views(acc@) =~= accd.push(partd));
        }
        acc
    }
}

/// Joins segments into an absolute path, matching `join_slash`.
fn join_segs(segs: &Vec<Vec<char>>) -> (r: Vec<char>)
    ensures
        r@ == join_slash(seg_views(segs@)),
{
    let mut r: Vec<char> = Vec::new();
    let mut i: usize = 0;
    proof {
        assert(seg_views(segs@).take(0) =~= Seq::<Seq<char>>::empty());
    }
    while i < segs.len()
        invariant
            i <= segs@.len(),
            r@ == join_slash(seg_views(segs@).take(i as int)),
        decreases segs.len() - i,
    {
        r.push('/');
        append_chars(&mut r, &segs[i]);
        proof {
            let d = seg_views(segs@);
            assert(d.take(i + 1 as int).drop_last() =~= d.take(i as int));
            assert(d.take(i + 1 as int).last() == d[i as int]);
            assert(r@ =~= join_slash(d.take(i + 1 as int)));
        }
        i = i + 1;
    }
    proof {
        assert(seg_views(segs@).take(seg_views(segs@).len() as int) =~= seg_views(segs@));
    }
    r
}

/// Resolves a relative href against the page URL's directory, matching
/// `resolve_rel` on the views.
pub fn resolve_rel_chars(page: &Vec<char>, href: &Vec<char>) -> (r: Vec<char>)
    ensures
        r@ == resolve_rel(page@, href@),
{
    let dir: Vec<char> = match rfind_chars(page, '/') {
        Some(p) => {
            let n = page.len();
            proof {
                assert(p < n);
            }
            subrange_chars(page, 0, p + 1)
        },
        None => {
            let mut d: Vec<char> = Vec::new();
            d.push('/');
            proof {
                assert(d@ =~= seq!['/']);
            }
            d
        },
    };
    proof {
        assert(dir@ == page_dir(page@));
    }
    let segs = collect_segs_exec(&dir);
    let fin = apply_parts_exec(segs, href);
    if fin.len() == 0 {
        let mut d: Vec<char> = Vec::new();
        d.push('/');
        proof {
            assert(d@ =~= seq!['/']);
        }
        d
    } else {
        join_segs(&fin)
    }
}

/// Resolves a relative URL path against the directory of the current page
/// URL: empty and `.` segments are no-ops, `..` pops one segment without
/// ever escaping the root, and the result is an absolute path.
pub fn resolve_relative_url(page_url: &str, href: &str) -> (r: String)
    ensures
        r@ == resolve_rel(page_url@, href@),
{
    let p = str_chars(page_url);
    let h = str_chars(href);
    let r = resolve_rel_chars(&p, &h);
    chars_string(&r)
}

// ---------------------------------------------------------------------
// Laws
// ---------------------------------------------------------------------
/// Stripping the query and fragment is a no-op on a string without `?` or `#`.
pub proof fn lemma_strip_qf_id(s: Seq<char>)
    requires
        forall|k: int| 0 <= k < s.len() ==> s[k] != '?' && s[k] != '#',
    ensures
        strip_qf_spec(s) == s,
{
    lemma_cfind2_bounds(s, 0, '?', '#');
    assert(cfind2(s, 0, '?', '#') == s.len());
    assert(s.take(s.len() as int) =~= s);
}

/// Normalizing keeps a leading slash.
pub proof fn lemma_norm_keeps_slash(p: Seq<char>)
    requires
        p.len() > 0,
        p[0] == '/',
    ensures
        norm_path(p).len() > 0,
        norm_path(p)[0] == '/',
{
    if has_suffix(p, slash_index_html()) {
    } else if has_suffix(p, dot_html()) {
        if p.len() == 5 {
            assert(p.skip(0) =~= p);
            assert(p[0] == '.');
        }
    }
}

/// A non-empty segment list joins to a path that starts with a slash.
pub proof fn lemma_join_slash_head(segs: Seq<Seq<char>>)
    requires
        segs.len() > 0,
    ensures
        join_slash(segs).len() > 0,
        join_slash(segs)[0] == '/',
    decreases segs.len(),
{
    if segs.len() > 1 {
        lemma_join_slash_head(segs.drop_last());
        assert(join_slash(segs)[0] == join_slash(segs.drop_last())[0]);
    } else {
        assert(join_slash(segs.drop_last()).len() == 0);
        assert(join_slash(segs)[0] == seq!['/'][0]);
    }
}

/// A resolved relative href is always an absolute path.
pub proof fn lemma_resolve_rel_slash(page: Seq<char>, href: Seq<char>)
    ensures
        resolve_rel(page, href).len() > 0,
        resolve_rel(page, href)[0] == '/',
{
    let segs = collect_segs(Seq::empty(), Seq::empty(), page_dir(page), 0);
    let fin = apply_parts(segs, Seq::empty(), href, 0);
    if fin.len() > 0 {
        lemma_join_slash_head(fin);
    }
}
/// `pat` occurs in `s` at position `i`.
pub open spec fn occurs_at(s: Seq<char>, pat: Seq<char>, i: int) -> bool {
    0 <= i && i + pat.len() <= s.len() && s.subrange(i, i + pat.len()) == pat
}

/// A suffix of a suffix is a suffix.
pub proof fn lemma_suffix_trans(s: Seq<char>, a: Seq<char>, b: Seq<char>)
    requires
        has_suffix(s, a),
        has_suffix(a, b),
    ensures
        has_suffix(s, b),
{
    assert(s.skip(s.len() - b.len()) =~= a.skip(a.len() - b.len()));
}

/// Normalizing is a no-op on any path that does not end in `.html`; every
/// canonical page URL of that shape is a fixed point of `norm_path`.
pub proof fn lemma_normalize_no_op(p: Seq<char>)
    requires
        !has_suffix(p, dot_html()),
    ensures
        norm_path(p) == p,
{
    if has_suffix(p, slash_index_html()) {
        assert(has_suffix(slash_index_html(), dot_html())) by {
            assert(slash_index_html().skip(6) =~= dot_html());
        }
        lemma_suffix_trans(p, slash_index_html(), dot_html());
    }
}

/// Idempotence: normalizing an already-normalized URL path is a no-op,
/// stated for every path whose normal form does not end in `.html`.
pub proof fn lemma_normalize_idempotent(p: Seq<char>)
    requires
        !has_suffix(norm_path(p), dot_html()),
    ensures
        norm_path(norm_path(p)) == norm_path(p),
{
    lemma_normalize_no_op(norm_path(p));
}

/// For every file path ending in `/index.html` whose only occurrence of
/// `index.html` is that final one, the page URL ends in `/` and contains no
/// `index.html` occurrence at all.
pub proof fn lemma_index_html_collapses(p: Seq<char>)
    requires
        has_suffix(seq!['/'] + p, slash_index_html()),
        forall|i: int|
            occurs_at(seq!['/'] + p, index_html(), i) ==> i == (seq!['/'] + p).len()
                - index_html().len(),
    ensures
        file_url_spec(p).len() > 0,
        file_url_spec(p).last() == '/',
        forall|i: int| !occurs_at(file_url_spec(p), index_html(), i),
{
    let q = seq!['/'] + p;
    let r = file_url_spec(p);
    assert(r == q.take(q.len() - 10));
    assert(q.len() >= 11);
    assert(r.last() == q[q.len() - 11]);
    assert(q.skip(q.len() - 11) == slash_index_html());
    assert(q[q.len() - 11] == q.skip(q.len() - 11)[0]);
    assert(r.last() == '/');
    assert forall|i: int| !occurs_at(r, index_html(), i) by {
        if occurs_at(r, index_html(), i) {
            assert(q.subrange(i, i + 10) =~= r.subrange(i, i + 10));
            assert(occurs_at(q, index_html(), i));
            assert(i == q.len() - 10);
            assert(i + 10 <= r.len());
            assert(false);
        }
    }
}

} // verus!
