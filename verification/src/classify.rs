//! Href classification.
//!
//! For one href found on one page the classifier decides, in a fixed order:
//! drop special schemes and fragment or query-only hrefs; treat
//! scheme-relative hrefs as `https:`; match absolute hrefs against the
//! site's own base URL and then against each friend base URL; treat a
//! leading slash as a site-absolute path; and resolve everything else
//! against the current page's directory.

use vstd::prelude::*;

use crate::model::EdgeType;
use crate::text::{
    cfind2, chars_string, eq_chars, has_prefix, has_suffix, str_chars, str_views,
    starts_with_chars, subrange_chars, trim_chars, trim_seq,
};
use crate::urlnorm::{
    file_url_spec, norm_path, normalize_path_chars, resolve_rel, resolve_rel_chars, strip_qf_chars,
    strip_qf_spec,
};

verus! {

/// The scheme prefix `mailto:`.
pub open spec fn mailto_scheme() -> Seq<char> {
    seq!['m', 'a', 'i', 'l', 't', 'o', ':']
}

/// The scheme prefix `tel:`.
pub open spec fn tel_scheme() -> Seq<char> {
    seq!['t', 'e', 'l', ':']
}

/// The scheme prefix `javascript:`.
pub open spec fn javascript_scheme() -> Seq<char> {
    seq!['j', 'a', 'v', 'a', 's', 'c', 'r', 'i', 'p', 't', ':']
}

/// The scheme prefix `data:`.
pub open spec fn data_scheme() -> Seq<char> {
    seq!['d', 'a', 't', 'a', ':']
}

/// The scheme-relative prefix `//`.
pub open spec fn scheme_relative() -> Seq<char> {
    seq!['/', '/']
}

/// The absolute prefix `http://`.
pub open spec fn http_prefix() -> Seq<char> {
    seq!['h', 't', 't', 'p', ':', '/', '/']
}

/// The absolute prefix `https://`.
pub open spec fn https_prefix() -> Seq<char> {
    seq!['h', 't', 't', 'p', 's', ':', '/', '/']
}

/// The scheme `https:` prepended to scheme-relative hrefs.
pub open spec fn https_colon() -> Seq<char> {
    seq!['h', 't', 't', 'p', 's', ':']
}

/// Builds a pattern vector from a literal.
fn pat_chars(s: &str) -> (r: Vec<char>)
    ensures
        r@ == s@,
{
    str_chars(s)
}

/// `s` with every trailing `/` removed.
pub open spec fn strip_trailing_slashes(s: Seq<char>) -> Seq<char>
    decreases s.len(),
{
    if s.len() > 0 && s.last() == '/' {
        strip_trailing_slashes(s.drop_last())
    } else {
        s
    }
}

/// Executable trailing-slash strip matching `strip_trailing_slashes`.
pub fn strip_trailing_slashes_chars(s: &Vec<char>) -> (r: Vec<char>)
    ensures
        r@ == strip_trailing_slashes(s@),
{
    let mut n: usize = s.len();
    proof {
        assert(s@.take(s@.len() as int) =~= s@);
    }
    while n > 0 && s[n - 1] == '/'
        invariant
            n <= s@.len(),
            strip_trailing_slashes(s@) == strip_trailing_slashes(s@.take(n as int)),
        decreases n,
    {
        proof {
            assert(s@.take(n as int).last() == s@[n - 1]);
            assert(s@.take(n as int).drop_last() =~= s@.take(n - 1));
        }
        n = n - 1;
    }
    proof {
        if n > 0 {
            assert(s@.take(n as int).last() == s@[n - 1]);
        }
        assert(strip_trailing_slashes(s@.take(n as int)) == s@.take(n as int));
    }
    subrange_chars(s, 0, n)
}

/// One friend base URL matched against a cleaned absolute href: equal with
/// trailing slashes stripped, or extended by a path.
pub open spec fn friend_matches(clean: Seq<char>, friend: Seq<char>) -> bool {
    let f = strip_trailing_slashes(friend);
    clean == f || (has_prefix(clean, f) && clean.len() > f.len() && clean[f.len() as int] == '/')
}

/// Classification of an absolute HTTP(S) href: the site's own base URL wins
/// over friends, and anything else is dropped.
///
/// Note the deliberate asymmetry: an internal target is normalized to the
/// canonical path form, while a friend target keeps its original absolute
/// form (query and fragment stripped, but a `.html` suffix intact).
/// Downstream consumers may depend on either form, so the asymmetry is
/// preserved rather than smoothed over.
pub open spec fn classify_abs_spec(
    href: Seq<char>,
    base: Seq<char>,
    friends: Seq<Seq<char>>,
) -> Option<(Seq<char>, EdgeType)> {
    let clean = strip_qf_spec(href);
    let b = strip_trailing_slashes(base);
    if clean == b {
        Some((seq!['/'], EdgeType::Internal))
    } else if has_prefix(clean, b) && clean.len() > b.len() && clean[b.len() as int] == '/' {
        Some((norm_path(clean.skip(b.len() as int)), EdgeType::Internal))
    } else if exists|k: int| 0 <= k < friends.len() && friend_matches(clean, friends[k]) {
        Some((clean, EdgeType::Friend))
    } else {
        None
    }
}

/// Full classification of one raw href attribute value.
pub open spec fn classify_spec(
    href_raw: Seq<char>,
    page: Seq<char>,
    base: Seq<char>,
    friends: Seq<Seq<char>>,
) -> Option<(Seq<char>, EdgeType)> {
    let href = trim_seq(href_raw);
    if href.len() == 0 || href[0] == '#' || href[0] == '?' || has_prefix(href, mailto_scheme())
        || has_prefix(href, tel_scheme()) || has_prefix(href, javascript_scheme()) || has_prefix(
        href,
        data_scheme(),
    ) {
        None
    } else if has_prefix(href, scheme_relative()) {
        classify_abs_spec(https_colon() + href, base, friends)
    } else if has_prefix(href, http_prefix()) || has_prefix(href, https_prefix()) {
        classify_abs_spec(href, base, friends)
    } else if href[0] == '/' {
        Some((norm_path(strip_qf_spec(href)), EdgeType::Internal))
    } else {
        Some((norm_path(resolve_rel(page, strip_qf_spec(href))), EdgeType::Internal))
    }
}

/// Classifies an absolute HTTP(S) href against the site base URL and the
/// friend list, matching `classify_abs_spec` on the views.
pub fn classify_absolute_chars(href: &Vec<char>, base: &Vec<char>, friends: &Vec<String>) -> (r:
    Option<(Vec<char>, EdgeType)>)
    ensures
        ({
            let sp = classify_abs_spec(href@, base@, str_views(friends@));
            match r {
                Some((t, ty)) => sp == Some((t@, ty)),
                None => sp is None,
            }
        }),
{
    let clean = strip_qf_chars(href);
    let b = strip_trailing_slashes_chars(base);
    if eq_chars(&clean, &b) {
        let mut root: Vec<char> = Vec::new();
        root.push('/');
        proof {
            assert(root@ =~= seq!['/']);
        }
        return Some((root, EdgeType::Internal));
    }
    if starts_with_chars(&clean, &b) && clean.len() > b.len() && clean[b.len()] == '/' {
        let rest = subrange_chars(&clean, b.len(), clean.len());
        proof {
            assert(rest@ =~= clean@.skip(b@.len() as int));
        }
        let normalized = normalize_path_chars(&rest);
        return Some((normalized, EdgeType::Internal));
    }
    let mut k: usize = 0;
    while k < friends.len()
        invariant
            k <= friends@.len(),
            forall|j: int|
                0 <= j < k ==> !friend_matches(strip_qf_spec(href@), str_views(friends@)[j]),
            clean@ == strip_qf_spec(href@),
            b@ == strip_trailing_slashes(base@),
            clean@ != b@,
            !(has_prefix(clean@, b@) && clean@.len() > b@.len() && clean@[b@.len() as int] == '/'),
        decreases friends.len() - k,
    {
        let fv = str_chars(friends[k].as_str());
        let f = strip_trailing_slashes_chars(&fv);
        let matched = if eq_chars(&clean, &f) {
            true
        } else {
            starts_with_chars(&clean, &f) && clean.len() > f.len() && clean[f.len()] == '/'
        };
        if matched {
            proof {
                assert(friend_matches(clean@, str_views(friends@)[k as int]));
            }
            return Some((clean, EdgeType::Friend));
        }
        k = k + 1;
    }
    None
}

/// Classifies an absolute HTTP(S) href, returning the normalized target and
/// its kind, or `None` for an external non-friend link.
pub fn classify_absolute_url(href: &str, base_url: &str, friends: &Vec<String>) -> (r: Option<
    (String, EdgeType),
>)
    ensures
        ({
            let sp = classify_abs_spec(href@, base_url@, str_views(friends@));
            match r {
                Some((t, ty)) => sp == Some((t@, ty)),
                None => sp is None,
            }
        }),
{
    let h = str_chars(href);
    let b = str_chars(base_url);
    match classify_absolute_chars(&h, &b, friends) {
        Some((t, ty)) => Some((chars_string(&t), ty)),
        None => None,
    }
}

/// Classifies one href found on `page_url`, matching `classify_spec` on the
/// views: `None` means the link is dropped and no edge is emitted.
pub fn classify_href(href: &str, page_url: &str, base_url: &str, friends: &Vec<String>) -> (r:
    Option<(String, EdgeType)>)
    ensures
        ({
            let sp = classify_spec(href@, page_url@, base_url@, str_views(friends@));
            match r {
                Some((t, ty)) => sp == Some((t@, ty)),
                None => sp is None,
            }
        }),
{
    let raw = str_chars(href);
    let page = str_chars(page_url);
    let base = str_chars(base_url);
    match classify_chars(&raw, &page, &base, friends) {
        Some((t, ty)) => Some((chars_string(&t), ty)),
        None => None,
    }
}

/// Classifies one href given as characters, matching `classify_spec`.
pub fn classify_chars(href_raw: &Vec<char>, page: &Vec<char>, base: &Vec<char>, friends: &Vec<
    String,
>) -> (r: Option<(Vec<char>, EdgeType)>)
    ensures
        ({
            let sp = classify_spec(href_raw@, page@, base@, str_views(friends@));
            match r {
                Some((t, ty)) => sp == Some((t@, ty)),
                None => sp is None,
            }
        }),
{
    let href = trim_chars(href_raw);
    if href.len() == 0 || href[0] == '#' || href[0] == '?' {
        return None;
    }
    let p_mailto = pat_chars("mailto:");
    let p_tel = pat_chars("tel:");
    let p_js = pat_chars("javascript:");
    let p_data = pat_chars("data:");
    proof {
        reveal_strlit("mailto:");
        reveal_strlit("tel:");
        reveal_strlit("javascript:");
        reveal_strlit("data:");
        assert(p_mailto@ =~= mailto_scheme());
        assert(p_tel@ =~= tel_scheme());
        assert(p_js@ =~= javascript_scheme());
        assert(p_data@ =~= data_scheme());
    }
    if starts_with_chars(&href, &p_mailto) || starts_with_chars(&href, &p_tel) || starts_with_chars(
        &href,
        &p_js,
    ) || starts_with_chars(&href, &p_data) {
        return None;
    }
    let p_rel = pat_chars("//");
    proof {
        reveal_strlit("//");
        assert(p_rel@ =~= scheme_relative());
    }
    if starts_with_chars(&href, &p_rel) {
        let mut absolute = pat_chars("https:");
        proof {
            reveal_strlit("https:");
            assert(absolute@ =~= https_colon());
        }
        crate::text::append_chars(&mut absolute, &href);
        return classify_absolute_chars(&absolute, base, friends);
    }
    let p_http = pat_chars("http://");
    let p_https = pat_chars("https://");
    proof {
        reveal_strlit("http://");
        reveal_strlit("https://");
        assert(p_http@ =~= http_prefix());
        assert(p_https@ =~= https_prefix());
    }
    if starts_with_chars(&href, &p_http) || starts_with_chars(&href, &p_https) {
        return classify_absolute_chars(&href, base, friends);
    }
    if href[0] == '/' {
        let clean = strip_qf_chars(&href);
        let normalized = normalize_path_chars(&clean);
        return Some((normalized, EdgeType::Internal));
    }
    let clean = strip_qf_chars(&href);
    let resolved = resolve_rel_chars(page, &clean);
    let normalized = normalize_path_chars(&resolved);
    Some((normalized, EdgeType::Internal))
}

// ---------------------------------------------------------------------
// Laws
// ---------------------------------------------------------------------
/// A cleaned absolute href keeps its scheme prefix: the prefix holds no `?`
/// or `#`, so stripping the query and fragment cannot shorten it away.
proof fn lemma_strip_qf_keeps_prefix(href: Seq<char>, p: Seq<char>)
    requires
        has_prefix(href, p),
        forall|k: int| 0 <= k < p.len() ==> p[k] != '?' && p[k] != '#',
    ensures
        has_prefix(strip_qf_spec(href), p),
{
    let c = cfind2(href, 0, '?', '#');
    crate::text::lemma_cfind2_bounds(href, 0, '?', '#');
    if c < p.len() {
        assert(href[c] == href.take(p.len() as int)[c]);
        assert(href[c] == p[c]);
        assert(false);
    }
    assert(strip_qf_spec(href).take(p.len() as int) =~= href.take(p.len() as int));
}

/// Target form invariant: every kept internal target is an absolute path
/// starting with `/`, and every kept friend target keeps its absolute
/// `http://` or `https://` form.
pub proof fn lemma_classify_abs_forms(href: Seq<char>, base: Seq<char>, friends: Seq<Seq<char>>)
    requires
        has_prefix(href, http_prefix()) || has_prefix(href, https_prefix()),
    ensures
        ({
            let sp = classify_abs_spec(href, base, friends);
            sp matches Some(p) ==> {
                &&& (p.1 == EdgeType::Internal ==> p.0.len() > 0 && p.0[0] == '/')
                &&& (p.1 == EdgeType::Friend ==> has_prefix(p.0, http_prefix()) || has_prefix(
                    p.0,
                    https_prefix(),
                ))
            }
        }),
{
    let clean = strip_qf_spec(href);
    let b = crate::classify::strip_trailing_slashes(base);
    if clean == b {
    } else if has_prefix(clean, b) && clean.len() > b.len() && clean[b.len() as int] == '/' {
        let rest = clean.skip(b.len() as int);
        assert(rest[0] == clean[b.len() as int]);
        crate::urlnorm::lemma_norm_keeps_slash(rest);
    } else {
        if has_prefix(href, http_prefix()) {
            lemma_strip_qf_keeps_prefix(href, http_prefix());
        } else {
            lemma_strip_qf_keeps_prefix(href, https_prefix());
        }
    }
}

/// Target form invariant for the full classifier: internal targets start
/// with `/`, friend targets start with `http://` or `https://`.
pub proof fn lemma_classify_forms(
    href: Seq<char>,
    page: Seq<char>,
    base: Seq<char>,
    friends: Seq<Seq<char>>,
)
    ensures
        ({
            let sp = classify_spec(href, page, base, friends);
            sp matches Some(p) ==> {
                &&& (p.1 == EdgeType::Internal ==> p.0.len() > 0 && p.0[0] == '/')
                &&& (p.1 == EdgeType::Friend ==> has_prefix(p.0, http_prefix()) || has_prefix(
                    p.0,
                    https_prefix(),
                ))
            }
        }),
{
    let h = trim_seq(href);
    if h.len() == 0 || h[0] == '#' || h[0] == '?' || has_prefix(h, mailto_scheme()) || has_prefix(
        h,
        tel_scheme(),
    ) || has_prefix(h, javascript_scheme()) || has_prefix(h, data_scheme()) {
    } else if has_prefix(h, scheme_relative()) {
        let q = https_colon() + h;
        assert(q.take(8) =~= https_prefix()) by {
            assert(h[0] == h.take(2)[0] && h[1] == h.take(2)[1]);
        }
        lemma_classify_abs_forms(q, base, friends);
    } else if has_prefix(h, http_prefix()) || has_prefix(h, https_prefix()) {
        lemma_classify_abs_forms(h, base, friends);
    } else if h[0] == '/' {
        let clean = strip_qf_spec(h);
        crate::text::lemma_cfind2_bounds(h, 0, '?', '#');
        assert(cfind2(h, 0, '?', '#') >= 1);
        assert(clean[0] == h[0]);
        crate::urlnorm::lemma_norm_keeps_slash(clean);
    } else {
        crate::urlnorm::lemma_resolve_rel_slash(page, strip_qf_spec(h));
        crate::urlnorm::lemma_norm_keeps_slash(resolve_rel(page, strip_qf_spec(h)));
    }
}

/// Classification partition: every href is classified into exactly one of
/// Internal, Friend, or dropped, and a drop happens only for an empty or
/// special href (fragment, query, `mailto:`, `tel:`, `javascript:`,
/// `data:`) or for an absolute or scheme-relative link matching neither
/// the site nor a friend: site-absolute and relative hrefs are always
/// kept, as Internal.
pub proof fn lemma_classify_partition(
    href: Seq<char>,
    page: Seq<char>,
    base: Seq<char>,
    friends: Seq<Seq<char>>,
)
    ensures
        ({
            let h = trim_seq(href);
            let sp = classify_spec(href, page, base, friends);
            sp is None ==> {
                ||| h.len() == 0
                ||| (h.len() > 0 && (h[0] == '#' || h[0] == '?'))
                ||| has_prefix(h, mailto_scheme())
                ||| has_prefix(h, tel_scheme())
                ||| has_prefix(h, javascript_scheme())
                ||| has_prefix(h, data_scheme())
                ||| has_prefix(h, scheme_relative())
                ||| has_prefix(h, http_prefix())
                ||| has_prefix(h, https_prefix())
            }
        }),
        ({
            let sp = classify_spec(href, page, base, friends);
            sp matches Some(p) ==> p.1 == EdgeType::Internal || p.1 == EdgeType::Friend
        }),
{
}

/// A string does not begin with a pattern it differs from at position `k`.
proof fn lemma_not_prefix_at(s: Seq<char>, p: Seq<char>, k: int)
    requires
        0 <= k < p.len(),
        k < s.len(),
        s[k] != p[k],
    ensures
        !has_prefix(s, p),
{
    if has_prefix(s, p) {
        assert(s[k] == s.take(p.len() as int)[k]);
    }
}

/// Convergence: for a page built from file path `p`, the raw site-absolute
/// href `/p` (whether it still carries its `/index.html` or `.html` form),
/// the already-normalized href, and the absolute href `base + p` all
/// classify to the same Internal target, equal to the page URL derived
/// from `p`.
pub proof fn lemma_href_convergence(
    p: Seq<char>,
    page: Seq<char>,
    base: Seq<char>,
    friends: Seq<Seq<char>>,
)
    requires
        p.len() > 0,
        p[0] != '/',
        forall|k: int| 0 <= k < p.len() ==> p[k] != '?' && p[k] != '#',
        !crate::text::is_uws(p.last()),
        !crate::text::is_uws(file_url_spec(p).last()),
        !has_suffix(file_url_spec(p), crate::urlnorm::dot_html()),
        base.len() >= 2,
        has_prefix(base, http_prefix()) || has_prefix(base, https_prefix()),
        base.last() == '/',
        base[base.len() - 2] != '/',
        forall|k: int| 0 <= k < base.len() ==> base[k] != '?' && base[k] != '#',
    ensures
        classify_spec(seq!['/'] + p, page, base, friends) == Some(
            (file_url_spec(p), EdgeType::Internal),
        ),
        classify_spec(file_url_spec(p), page, base, friends) == Some(
            (file_url_spec(p), EdgeType::Internal),
        ),
        classify_spec(base + p, page, base, friends) == Some(
            (file_url_spec(p), EdgeType::Internal),
        ),
{
    let q = seq!['/'] + p;
    assert(q.len() >= 2 && q[0] == '/' && q.last() == p.last());
    assert(forall|k: int| 1 <= k < q.len() ==> q[k] == p[k - 1]);
    // Variant 1: the raw href `/p`.
    crate::text::lemma_trim_noop(q);
    lemma_not_prefix_at(q, mailto_scheme(), 0);
    lemma_not_prefix_at(q, tel_scheme(), 0);
    lemma_not_prefix_at(q, javascript_scheme(), 0);
    lemma_not_prefix_at(q, data_scheme(), 0);
    assert(q[1] == p[0]);
    lemma_not_prefix_at(q, scheme_relative(), 1);
    lemma_not_prefix_at(q, http_prefix(), 0);
    lemma_not_prefix_at(q, https_prefix(), 0);
    crate::urlnorm::lemma_strip_qf_id(q);
    assert(classify_spec(q, page, base, friends) == Some(
        (file_url_spec(p), EdgeType::Internal),
    ));
    // Variant 2: the already-normalized href.
    let u = file_url_spec(p);
    crate::urlnorm::lemma_norm_keeps_slash(q);
    assert(u.len() > 0 && u[0] == '/');
    assert(forall|k: int| 0 <= k < u.len() ==> u[k] == q[k]) by {
        if has_suffix(q, crate::urlnorm::slash_index_html()) {
            assert(u == q.take(q.len() - 10));
        } else if has_suffix(q, crate::urlnorm::dot_html()) {
            assert(u == q.take(q.len() - 5));
        } else {
            assert(u == q);
        }
    }
    assert(u.len() <= q.len()) by {
        if has_suffix(q, crate::urlnorm::slash_index_html()) {
        } else if has_suffix(q, crate::urlnorm::dot_html()) {
        } else {
        }
    }
    assert(forall|k: int|
        0 <= k < u.len() ==> u[k] != '?' && u[k] != '#') by {
        assert forall|k: int| 0 <= k < u.len() implies u[k] != '?' && u[k] != '#' by {
            assert(u[k] == q[k]);
            if k >= 1 {
                assert(q[k] == p[k - 1]);
            }
        }
    }
    crate::text::lemma_trim_noop(u);
    lemma_not_prefix_at(u, mailto_scheme(), 0);
    lemma_not_prefix_at(u, tel_scheme(), 0);
    lemma_not_prefix_at(u, javascript_scheme(), 0);
    lemma_not_prefix_at(u, data_scheme(), 0);
    if u.len() >= 2 {
        assert(u[1] == q[1]);
        lemma_not_prefix_at(u, scheme_relative(), 1);
    }
    lemma_not_prefix_at(u, http_prefix(), 0);
    lemma_not_prefix_at(u, https_prefix(), 0);
    crate::urlnorm::lemma_strip_qf_id(u);
    crate::urlnorm::lemma_normalize_no_op(u);
    assert(classify_spec(u, page, base, friends) == Some(
        (file_url_spec(p), EdgeType::Internal),
    ));
    // Variant 3: the absolute href `base + p`.
    let h = base + p;
    assert(base[0] == base.take(7)[0] || base[0] == base.take(8)[0]);
    assert(base[0] == 'h');
    assert(base[1] == 't') by {
        if has_prefix(base, http_prefix()) {
            assert(base[1] == base.take(7)[1]);
        } else {
            assert(base[1] == base.take(8)[1]);
        }
    }
    assert(h.len() >= 2 && h[0] == 'h' && h.last() == p.last());
    assert(forall|k: int| 0 <= k < base.len() ==> h[k] == base[k]);
    assert(forall|k: int| base.len() <= k < h.len() ==> h[k] == p[k - base.len()]);
    crate::text::lemma_trim_noop(h);
    lemma_not_prefix_at(h, mailto_scheme(), 0);
    lemma_not_prefix_at(h, tel_scheme(), 0);
    lemma_not_prefix_at(h, javascript_scheme(), 0);
    lemma_not_prefix_at(h, data_scheme(), 0);
    assert(h[1] == 't');
    lemma_not_prefix_at(h, scheme_relative(), 1);
    assert(has_prefix(h, http_prefix()) || has_prefix(h, https_prefix())) by {
        if has_prefix(base, http_prefix()) {
            assert(h.take(7) =~= base.take(7));
        } else {
            assert(h.take(8) =~= base.take(8));
        }
    }
    assert(forall|k: int|
        0 <= k < h.len() ==> h[k] != '?' && h[k] != '#') by {
        assert forall|k: int| 0 <= k < h.len() implies h[k] != '?' && h[k] != '#' by {
            if k < base.len() {
                assert(h[k] == base[k]);
            } else {
                assert(h[k] == p[k - base.len()]);
            }
        }
    }
    crate::urlnorm::lemma_strip_qf_id(h);
    let b = strip_trailing_slashes(base);
    assert(b == base.drop_last()) by {
        assert(strip_trailing_slashes(base) == strip_trailing_slashes(base.drop_last()));
        assert(base.drop_last().last() == base[base.len() - 2]);
        assert(strip_trailing_slashes(base.drop_last()) == base.drop_last());
    }
    assert(h != b);
    assert(has_prefix(h, b)) by {
        assert(h.take(base.len() - 1) =~= base.drop_last());
    }
    assert(h[b.len() as int] == base.last());
    let rest = h.skip(b.len() as int);
    assert(rest =~= q);
    assert(classify_spec(h, page, base, friends) == Some(
        (file_url_spec(p), EdgeType::Internal),
    ));
}

/// Scheme-relative hrefs classify exactly as their explicit `https:`
/// equivalent, whatever the page, base URL and friend list.
pub proof fn lemma_scheme_relative_equivalent(
    href: Seq<char>,
    page: Seq<char>,
    base: Seq<char>,
    friends: Seq<Seq<char>>,
)
    requires
        trim_seq(href) == href,
        has_prefix(href, scheme_relative()),
    ensures
        classify_spec(href, page, base, friends) == classify_spec(
            https_colon() + href,
            page,
            base,
            friends,
        ),
{
    assert(href[0] == href.take(2)[0]);
    assert(href[1] == href.take(2)[1]);
    assert(href[0] == '/' && href[1] == '/');
    // The left-hand side takes the scheme-relative branch.
    assert(!has_prefix(href, mailto_scheme())) by {
        if has_prefix(href, mailto_scheme()) {
            assert(href[0] == href.take(7)[0]);
        }
    }
    assert(!has_prefix(href, tel_scheme())) by {
        if has_prefix(href, tel_scheme()) {
            assert(href[0] == href.take(4)[0]);
        }
    }
    assert(!has_prefix(href, javascript_scheme())) by {
        if has_prefix(href, javascript_scheme()) {
            assert(href[0] == href.take(11)[0]);
        }
    }
    assert(!has_prefix(href, data_scheme())) by {
        if has_prefix(href, data_scheme()) {
            assert(href[0] == href.take(5)[0]);
        }
    }
    assert(classify_spec(href, page, base, friends) == classify_abs_spec(
        https_colon() + href,
        base,
        friends,
    ));
    // The right-hand side reaches the same absolute classification.
    let q = https_colon() + href;
    assert(q[0] == 'h' && q.len() >= 8);
    crate::text::lemma_trim_fixed(href);
    assert(q.last() == href.last());
    crate::text::lemma_trim_noop(q);
    assert(!has_prefix(q, mailto_scheme())) by {
        if has_prefix(q, mailto_scheme()) {
            assert(q[0] == q.take(7)[0]);
        }
    }
    assert(!has_prefix(q, tel_scheme())) by {
        if has_prefix(q, tel_scheme()) {
            assert(q[0] == q.take(4)[0]);
        }
    }
    assert(!has_prefix(q, javascript_scheme())) by {
        if has_prefix(q, javascript_scheme()) {
            assert(q[0] == q.take(11)[0]);
        }
    }
    assert(!has_prefix(q, data_scheme())) by {
        if has_prefix(q, data_scheme()) {
            assert(q[0] == q.take(5)[0]);
        }
    }
    assert(!has_prefix(q, scheme_relative())) by {
        if has_prefix(q, scheme_relative()) {
            assert(q[0] == q.take(2)[0]);
        }
    }
    assert(!has_prefix(q, http_prefix())) by {
        if has_prefix(q, http_prefix()) {
            assert(q[4] == q.take(7)[4]);
            assert(q[4] == 's');
        }
    }
    assert(has_prefix(q, https_prefix())) by {
        assert(q.take(8) =~= https_prefix());
    }
    assert(classify_spec(q, page, base, friends) == classify_abs_spec(q, base, friends));
}

} // verus!
