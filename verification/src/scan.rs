//! Streaming HTML scan.
//!
//! One forward pass over the markup drives the page extraction: the scanner
//! recognises start tags (with their `href` attribute and self-closing
//! flag), end tags, comments, doctype and processing instructions, and text
//! chunks, and threads an explicit state through the pass. The state
//! carries the first title's text, the excluded-region depth counter, and
//! the deduplicated edges found so far. The scan is tolerant: malformed
//! markup never fails, it is read as text or skipped.

use vstd::prelude::*;

use crate::classify::{classify_chars, classify_spec};
use crate::model::EdgeType;
use crate::selector::{any_sel_matches, any_sel_matches_exec, sel_views, Selector, SelectorS};
use crate::text::{
    cfind, cfind2, eq_chars, find_chars, is_ws, is_ws_char, lemma_cfind2_bounds, lower_chars,
    lower_seq, opt_view, str_views, subrange_chars,
};

verus! {

/// The scanner's read-only surroundings: the page being scanned, the
/// classifier inputs, and the parsed exclusion selectors.
pub struct ScanEnv {
    pub page: Seq<char>,
    pub base: Seq<char>,
    pub friends: Seq<Seq<char>>,
    pub sels: Seq<SelectorS>,
}

/// The mathematical scan state. `excl` is the stack of currently-open
/// excluded regions: each entry carries the region's tag name and a count
/// of open same-named descendants, so that the region ends at its own
/// close tag and nested excluded regions compose.
pub struct ScanS {
    pub title: Seq<char>,
    pub in_title: bool,
    pub title_done: bool,
    pub excl: Seq<(Seq<char>, int)>,
    pub edges: Seq<(Seq<char>, EdgeType)>,
}

/// The executable scan state.
pub struct ScanState {
    pub title: Vec<char>,
    pub in_title: bool,
    pub title_done: bool,
    pub excl: Vec<(Vec<char>, usize)>,
    pub edges: Vec<(Vec<char>, EdgeType)>,
}

/// The views of collected `(target, kind)` pairs.
pub open spec fn pair_views(v: Seq<(Vec<char>, EdgeType)>) -> Seq<(Seq<char>, EdgeType)> {
    Seq::new(v.len(), |i: int| (v[i].0@, v[i].1))
}

/// The views of the excluded-region stack.
pub open spec fn excl_views(v: Seq<(Vec<char>, usize)>) -> Seq<(Seq<char>, int)> {
    Seq::new(v.len(), |i: int| (v[i].0@, v[i].1 as int))
}

impl View for ScanState {
    type V = ScanS;

    open spec fn view(&self) -> ScanS {
        ScanS {
            title: self.title@,
            in_title: self.in_title,
            title_done: self.title_done,
            excl: excl_views(self.excl@),
            edges: pair_views(self.edges@),
        }
    }
}

/// The scan state before any input.
pub open spec fn init_scan_state() -> ScanS {
    ScanS {
        title: Seq::empty(),
        in_title: false,
        title_done: false,
        excl: Seq::empty(),
        edges: Seq::empty(),
    }
}

// ---------------------------------------------------------------------
// Character classes and small searches
// ---------------------------------------------------------------------
/// A character that may start a tag or selector name.
pub open spec fn is_name_start(c: char) -> bool {
    ('a' <= c && c <= 'z') || ('A' <= c && c <= 'Z')
}

/// A character that may continue a tag or selector name.
pub open spec fn is_name_char(c: char) -> bool {
    is_name_start(c) || ('0' <= c && c <= '9') || c == '-'
}

/// Executable check matching `is_name_start`.
pub fn is_name_start_char(c: char) -> (b: bool)
    ensures
        b == is_name_start(c),
{
    ('a' <= c && c <= 'z') || ('A' <= c && c <= 'Z')
}

/// Executable check matching `is_name_char`.
pub fn is_name_char_exec(c: char) -> (b: bool)
    ensures
        b == is_name_char(c),
{
    is_name_start_char(c) || ('0' <= c && c <= '9') || c == '-'
}

/// The first index at or after `i` that cannot continue a name.
pub open spec fn name_end(s: Seq<char>, i: int) -> int
    decreases s.len() - i when 0 <= i <= s.len()
{
    if i >= s.len() {
        i
    } else if is_name_char(s[i]) {
        name_end(s, i + 1)
    } else {
        i
    }
}

/// `name_end` stays within bounds and advances over name characters.
pub proof fn lemma_name_end_bounds(s: Seq<char>, i: int)
    requires
        0 <= i <= s.len(),
    ensures
        i <= name_end(s, i) <= s.len(),
        i < s.len() && is_name_char(s[i]) ==> name_end(s, i) >= i + 1,
    decreases s.len() - i,
{
    if i < s.len() && is_name_char(s[i]) {
        lemma_name_end_bounds(s, i + 1);
    }
}

/// Executable search matching `name_end`.
pub fn name_end_exec(s: &Vec<char>, from: usize) -> (r: usize)
    requires
        from <= s@.len(),
    ensures
        r as int == name_end(s@, from as int),
        from <= r <= s@.len(),
{
    let mut i: usize = from;
    while i < s.len() && is_name_char_exec(s[i])
        invariant
            from <= i <= s@.len(),
            name_end(s@, from as int) == name_end(s@, i as int),
        decreases s.len() - i,
    {
        i = i + 1;
    }
    i
}

/// The first index at or after `i` that ends an attribute name: whitespace,
/// `=`, `>` or `/`.
pub open spec fn attr_name_end(s: Seq<char>, i: int) -> int
    decreases s.len() - i when 0 <= i <= s.len()
{
    if i >= s.len() {
        i
    } else if s[i] == '=' || s[i] == '>' || s[i] == '/' || is_ws(s[i]) {
        i
    } else {
        attr_name_end(s, i + 1)
    }
}

/// `attr_name_end` stays within bounds and advances over name characters.
pub proof fn lemma_attr_name_end_bounds(s: Seq<char>, i: int)
    requires
        0 <= i <= s.len(),
    ensures
        i <= attr_name_end(s, i) <= s.len(),
        i < s.len() && !(s[i] == '=' || s[i] == '>' || s[i] == '/' || is_ws(s[i]))
            ==> attr_name_end(s, i) >= i + 1,
    decreases s.len() - i,
{
    if i < s.len() && !(s[i] == '=' || s[i] == '>' || s[i] == '/' || is_ws(s[i])) {
        lemma_attr_name_end_bounds(s, i + 1);
    }
}

/// Executable search matching `attr_name_end`.
fn attr_name_end_exec(s: &Vec<char>, from: usize) -> (r: usize)
    requires
        from <= s@.len(),
    ensures
        r as int == attr_name_end(s@, from as int),
        from <= r <= s@.len(),
{
    let mut i: usize = from;
    while i < s.len() && !(s[i] == '=' || s[i] == '>' || s[i] == '/' || is_ws_char(s[i]))
        invariant
            from <= i <= s@.len(),
            attr_name_end(s@, from as int) == attr_name_end(s@, i as int),
        decreases s.len() - i,
    {
        i = i + 1;
    }
    i
}

/// The first index at or after `i` that ends an unquoted attribute value:
/// whitespace or `>`.
pub open spec fn value_end(s: Seq<char>, i: int) -> int
    decreases s.len() - i when 0 <= i <= s.len()
{
    if i >= s.len() {
        i
    } else if s[i] == '>' || is_ws(s[i]) {
        i
    } else {
        value_end(s, i + 1)
    }
}

/// `value_end` stays within bounds.
pub proof fn lemma_value_end_bounds(s: Seq<char>, i: int)
    requires
        0 <= i <= s.len(),
    ensures
        i <= value_end(s, i) <= s.len(),
    decreases s.len() - i,
{
    if i < s.len() && !(s[i] == '>' || is_ws(s[i])) {
        lemma_value_end_bounds(s, i + 1);
    }
}

/// Executable search matching `value_end`.
fn value_end_exec(s: &Vec<char>, from: usize) -> (r: usize)
    requires
        from <= s@.len(),
    ensures
        r as int == value_end(s@, from as int),
        from <= r <= s@.len(),
{
    let mut i: usize = from;
    while i < s.len() && !(s[i] == '>' || is_ws_char(s[i]))
        invariant
            from <= i <= s@.len(),
            value_end(s@, from as int) == value_end(s@, i as int),
        decreases s.len() - i,
    {
        i = i + 1;
    }
    i
}

/// The index one past the next `>` at or after `i`, or the end of input.
pub open spec fn after_gt(s: Seq<char>, i: int) -> int {
    let g = cfind(s, i, '>');
    if g < s.len() {
        g + 1
    } else {
        s.len() as int
    }
}

/// `after_gt` stays within `[i, s.len()]`.
pub proof fn lemma_after_gt_bounds(s: Seq<char>, i: int)
    requires
        0 <= i <= s.len(),
    ensures
        i <= after_gt(s, i) <= s.len(),
{
    lemma_cfind2_bounds(s, i, '>', '>');
}

/// Executable search matching `after_gt`.
fn after_gt_exec(s: &Vec<char>, from: usize) -> (r: usize)
    requires
        from <= s@.len(),
    ensures
        r as int == after_gt(s@, from as int),
        from <= r <= s@.len(),
{
    proof {
        lemma_cfind2_bounds(s@, from as int, '>', '>');
    }
    let g = find_chars(s, from, '>');
    if g < s.len() {
        g + 1
    } else {
        s.len()
    }
}

/// The index one past the closing `-->` of a comment whose body starts at
/// `i`, or the end of input when the comment is never closed.
pub open spec fn after_comment(s: Seq<char>, i: int) -> int
    decreases s.len() - i when 0 <= i <= s.len()
{
    if i + 3 > s.len() {
        s.len() as int
    } else if s[i] == '-' && s[i + 1] == '-' && s[i + 2] == '>' {
        i + 3
    } else {
        after_comment(s, i + 1)
    }
}

/// `after_comment` stays within `[i, s.len()]`.
pub proof fn lemma_after_comment_bounds(s: Seq<char>, i: int)
    requires
        0 <= i <= s.len(),
    ensures
        i <= after_comment(s, i) <= s.len(),
    decreases s.len() - i,
{
    if i + 3 > s.len() {
    } else if s[i] == '-' && s[i + 1] == '-' && s[i + 2] == '>' {
    } else {
        lemma_after_comment_bounds(s, i + 1);
    }
}

/// Executable search matching `after_comment`.
fn after_comment_exec(s: &Vec<char>, from: usize) -> (r: usize)
    requires
        from <= s@.len(),
    ensures
        r as int == after_comment(s@, from as int),
        from <= r <= s@.len(),
{
    let n = s.len();
    let mut i: usize = from;
    while !(n - i < 3 || (s[i] == '-' && s[i + 1] == '-' && s[i + 2] == '>'))
        invariant
            from <= i <= n,
            n == s@.len(),
            after_comment(s@, from as int) == after_comment(s@, i as int),
        decreases n - i,
    {
        i = i + 1;
    }
    if n - i < 3 {
        n
    } else {
        i + 3
    }
}

// ---------------------------------------------------------------------
// Attribute scanning
// ---------------------------------------------------------------------
/// The attribute name `href`.
pub open spec fn href_name() -> Seq<char> {
    seq!['h', 'r', 'e', 'f']
}

/// The attribute name `class`.
pub open spec fn class_name() -> Seq<char> {
    seq!['c', 'l', 'a', 's', 's']
}

/// The attribute name `id`.
pub open spec fn id_name() -> Seq<char> {
    seq!['i', 'd']
}

/// The tag name `title`.
pub open spec fn title_name() -> Seq<char> {
    seq!['t', 'i', 't', 'l', 'e']
}

/// The tag name `a`.
pub open spec fn anchor_name() -> Seq<char> {
    seq!['a']
}

/// The value of one attribute whose name ends at `i`: `None` when no `=`
/// follows, the quoted or unquoted value otherwise, together with the index
/// where scanning continues.
pub open spec fn attr_value(s: Seq<char>, i: int) -> (Option<Seq<char>>, int) {
    if i < s.len() && s[i] == '=' {
        let k = i + 1;
        if k < s.len() && (s[k] == '"' || s[k] == '\'') {
            let e = cfind(s, k + 1, s[k]);
            if e < s.len() {
                (Some(s.subrange(k + 1, e)), e + 1)
            } else {
                (Some(s.subrange(k + 1, s.len() as int)), s.len() as int)
            }
        } else {
            let e = value_end(s, k);
            (Some(s.subrange(k, e)), e)
        }
    } else {
        (None, i)
    }
}

/// `attr_value` stays within bounds and advances past an `=`.
pub proof fn lemma_attr_value_bounds(s: Seq<char>, i: int)
    requires
        0 <= i <= s.len(),
    ensures
        i <= attr_value(s, i).1 <= s.len(),
{
    if i < s.len() && s[i] == '=' {
        let k = i + 1;
        if k < s.len() && (s[k] == '"' || s[k] == '\'') {
            lemma_cfind2_bounds(s, k + 1, s[k], s[k]);
        } else {
            lemma_value_end_bounds(s, k);
        }
    }
}

/// Executable attribute value matching `attr_value`.
fn attr_value_exec(s: &Vec<char>, from: usize) -> (r: (Option<Vec<char>>, usize))
    requires
        from <= s@.len(),
    ensures
        ({
            let sp = attr_value(s@, from as int);
            &&& (match r.0 {
                Some(v) => sp.0 == Some(v@),
                None => sp.0 is None,
            })
            &&& r.1 as int == sp.1
            &&& from <= r.1 <= s@.len()
        }),
{
    if from < s.len() && s[from] == '=' {
        let k = from + 1;
        if k < s.len() && (s[k] == '"' || s[k] == '\'') {
            proof {
                lemma_cfind2_bounds(s@, k + 1 as int, s@[k as int], s@[k as int]);
            }
            let e = find_chars(s, k + 1, s[k]);
            if e < s.len() {
                (Some(subrange_chars(s, k + 1, e)), e + 1)
            } else {
                (Some(subrange_chars(s, k + 1, s.len())), s.len())
            }
        } else {
            let e = value_end_exec(s, k);
            (Some(subrange_chars(s, k, e)), e)
        }
    } else {
        (None, from)
    }
}

/// The tag name `script`.
pub open spec fn script_name() -> Seq<char> {
    seq!['s', 'c', 'r', 'i', 'p', 't']
}

/// The tag name `style`.
pub open spec fn style_name() -> Seq<char> {
    seq!['s', 't', 'y', 'l', 'e']
}

/// Whether the named end tag starts at `k`: `</`, the name compared
/// ASCII-case-insensitively, and a character that cannot continue a name.
pub open spec fn matches_end_tag(s: Seq<char>, k: int, name: Seq<char>) -> bool {
    &&& k + 2 + name.len() <= s.len()
    &&& s[k] == '<'
    &&& s[k + 1] == '/'
    &&& lower_seq(s.subrange(k + 2, k + 2 + name.len())) == name
    &&& (k + 2 + name.len() == s.len() || !is_name_char(s[k + 2 + name.len()]))
}

/// The position of the named end tag at or after `i`, or the end of input:
/// the content of a raw-text element (`script`, `style`, `title`) runs to
/// there and is never scanned as markup.
pub open spec fn raw_end(s: Seq<char>, i: int, name: Seq<char>) -> int
    decreases s.len() - i when 0 <= i <= s.len()
{
    if i >= s.len() {
        s.len() as int
    } else if matches_end_tag(s, i, name) {
        i
    } else {
        raw_end(s, i + 1, name)
    }
}

/// `raw_end` stays within `[i, s.len()]`.
pub proof fn lemma_raw_end_bounds(s: Seq<char>, i: int, name: Seq<char>)
    requires
        0 <= i <= s.len(),
    ensures
        i <= raw_end(s, i, name) <= s.len(),
    decreases s.len() - i,
{
    if i < s.len() && !matches_end_tag(s, i, name) {
        lemma_raw_end_bounds(s, i + 1, name);
    }
}

/// Executable end-tag test matching `matches_end_tag`.
fn matches_end_tag_exec(s: &Vec<char>, k: usize, name: &Vec<char>) -> (b: bool)
    requires
        k <= s@.len(),
    ensures
        b == matches_end_tag(s@, k as int, name@),
{
    let n = s.len();
    if n - k < 2 || n - k - 2 < name.len() {
        return false;
    }
    if s[k] != '<' || s[k + 1] != '/' {
        return false;
    }
    let raw = subrange_chars(s, k + 2, k + 2 + name.len());
    let lowered = lower_chars(&raw);
    if !eq_chars(&lowered, name) {
        return false;
    }
    k + 2 + name.len() == n || !is_name_char_exec(s[k + 2 + name.len()])
}

/// Executable raw-text search matching `raw_end`.
fn raw_end_exec(s: &Vec<char>, from: usize, name: &Vec<char>) -> (r: usize)
    requires
        from <= s@.len(),
    ensures
        r as int == raw_end(s@, from as int, name@),
        from <= r <= s@.len(),
{
    let mut i: usize = from;
    while i < s.len() && !matches_end_tag_exec(s, i, name)
        invariant
            from <= i <= s@.len(),
            raw_end(s@, from as int, name@) == raw_end(s@, i as int, name@),
        decreases s.len() - i,
    {
        i = i + 1;
    }
    i
}

/// The accumulated value of one named attribute: the first occurrence
/// wins, and an attribute without `=` counts as an empty value.
pub open spec fn keep_attr(
    name: Seq<char>,
    val: Option<Seq<char>>,
    wanted: Seq<char>,
    acc: Option<Seq<char>>,
) -> Option<Seq<char>> {
    if name == wanted && acc is None {
        match val {
            Some(v) => Some(v),
            None => Some(Seq::empty()),
        }
    } else {
        acc
    }
}

/// Scans the attribute list of a start tag from `i`, keeping the first
/// `href`, `class` and `id` values, and reports whether the tag closes
/// itself with `/>` and where the markup after the tag begins.
pub open spec fn scan_attrs(
    s: Seq<char>,
    i: int,
    href: Option<Seq<char>>,
    class: Option<Seq<char>>,
    id: Option<Seq<char>>,
) -> (Option<Seq<char>>, Option<Seq<char>>, Option<Seq<char>>, bool, int)
    decreases s.len() - i when 0 <= i <= s.len() via scan_attrs_dec
{
    if i >= s.len() {
        (href, class, id, false, s.len() as int)
    } else if s[i] == '>' {
        (href, class, id, false, i + 1)
    } else if s[i] == '/' && i + 1 < s.len() && s[i + 1] == '>' {
        (href, class, id, true, i + 2)
    } else if s[i] == '/' || s[i] == '=' || is_ws(s[i]) {
        scan_attrs(s, i + 1, href, class, id)
    } else {
        let ne = attr_name_end(s, i);
        let name = lower_seq(s.subrange(i, ne));
        let (val, j) = attr_value(s, ne);
        scan_attrs(
            s,
            j,
            keep_attr(name, val, href_name(), href),
            keep_attr(name, val, class_name(), class),
            keep_attr(name, val, id_name(), id),
        )
    }
}

#[via_fn]
proof fn scan_attrs_dec(
    s: Seq<char>,
    i: int,
    href: Option<Seq<char>>,
    class: Option<Seq<char>>,
    id: Option<Seq<char>>,
) {
    if 0 <= i <= s.len() && i < s.len() {
        if s[i] == '>' || (s[i] == '/' && i + 1 < s.len() && s[i + 1] == '>') {
        } else if s[i] == '/' || s[i] == '=' || is_ws(s[i]) {
        } else {
            lemma_attr_name_end_bounds(s, i);
            lemma_attr_value_bounds(s, attr_name_end(s, i));
        }
    }
}

/// `scan_attrs` ends within `[i, s.len()]` and makes progress.
pub proof fn lemma_scan_attrs_bounds(
    s: Seq<char>,
    i: int,
    href: Option<Seq<char>>,
    class: Option<Seq<char>>,
    id: Option<Seq<char>>,
)
    requires
        0 <= i <= s.len(),
    ensures
        i <= scan_attrs(s, i, href, class, id).4 <= s.len(),
        i < s.len() ==> scan_attrs(s, i, href, class, id).4 >= i + 1,
    decreases s.len() - i,
{
    if i >= s.len() {
    } else if s[i] == '>' {
    } else if s[i] == '/' && i + 1 < s.len() && s[i + 1] == '>' {
    } else if s[i] == '/' || s[i] == '=' || is_ws(s[i]) {
        lemma_scan_attrs_bounds(s, i + 1, href, class, id);
    } else {
        lemma_attr_name_end_bounds(s, i);
        let ne = attr_name_end(s, i);
        lemma_attr_value_bounds(s, ne);
        let (val, j) = attr_value(s, ne);
        let name = lower_seq(s.subrange(i, ne));
        lemma_scan_attrs_bounds(
            s,
            j,
            keep_attr(name, val, href_name(), href),
            keep_attr(name, val, class_name(), class),
            keep_attr(name, val, id_name(), id),
        );
    }
}

/// Keeps the first value of one named attribute, matching `keep_attr`.
fn keep_attr_exec(
    name: &Vec<char>,
    val: &Option<Vec<char>>,
    wanted: &Vec<char>,
    acc: Option<Vec<char>>,
) -> (r: Option<Vec<char>>)
    ensures
        opt_view(r) == keep_attr(name@, opt_view(*val), wanted@, opt_view(acc)),
{
    if eq_chars(name, wanted) && acc.is_none() {
        match val {
            Some(v) => Some(subrange_chars(v, 0, v.len())),
            None => {
                let empty: Vec<char> = Vec::new();
                proof {
                    assert(empty@ =~= Seq::<char>::empty());
                }
                Some(empty)
            },
        }
    } else {
        acc
    }
}

/// Executable attribute scan matching `scan_attrs`.
fn scan_attrs_exec(s: &Vec<char>, start: usize) -> (r: (
    Option<Vec<char>>,
    Option<Vec<char>>,
    Option<Vec<char>>,
    bool,
    usize,
))
    requires
        start <= s@.len(),
    ensures
        ({
            let sp = scan_attrs(s@, start as int, None, None, None);
            &&& opt_view(r.0) == sp.0
            &&& opt_view(r.1) == sp.1
            &&& opt_view(r.2) == sp.2
            &&& r.3 == sp.3
            &&& r.4 as int == sp.4
            &&& start <= r.4 <= s@.len()
        }),
{
    let mut i: usize = start;
    let mut href: Option<Vec<char>> = None;
    let mut class: Option<Vec<char>> = None;
    let mut id: Option<Vec<char>> = None;
    loop
        invariant
            start <= i <= s@.len(),
            scan_attrs(s@, i as int, opt_view(href), opt_view(class), opt_view(id)) == scan_attrs(
                s@,
                start as int,
                None,
                None,
                None,
            ),
        decreases s@.len() - i,
    {
        if i >= s.len() {
            return (href, class, id, false, s.len());
        }
        let c = s[i];
        if c == '>' {
            return (href, class, id, false, i + 1);
        }
        if c == '/' && i + 1 < s.len() && s[i + 1] == '>' {
            return (href, class, id, true, i + 2);
        }
        if c == '/' || c == '=' || is_ws_char(c) {
            i = i + 1;
            continue ;
        }
        let ghost old_href = opt_view(href);
        let ghost old_class = opt_view(class);
        let ghost old_id = opt_view(id);
        let ne = attr_name_end_exec(s, i);
        let nraw = subrange_chars(s, i, ne);
        let name = lower_chars(&nraw);
        let (val, j) = attr_value_exec(s, ne);
        let p_href = crate::text::str_chars("href");
        let p_class = crate::text::str_chars("class");
        let p_id = crate::text::str_chars("id");
        proof {
            reveal_strlit("href");
            reveal_strlit("class");
            reveal_strlit("id");
            assert(p_href@ =~= href_name());
            assert(p_class@ =~= class_name());
            assert(p_id@ =~= id_name());
        }
        let href2 = keep_attr_exec(&name, &val, &p_href, href);
        let class2 = keep_attr_exec(&name, &val, &p_class, class);
        let id2 = keep_attr_exec(&name, &val, &p_id, id);
        href = href2;
        class = class2;
        id = id2;
        proof {
            lemma_attr_name_end_bounds(s@, i as int);
            assert(scan_attrs(s@, j as int, opt_view(href), opt_view(class), opt_view(id))
                == scan_attrs(s@, i as int, old_href, old_class, old_id));
        }
        i = j;
    }
}

// ---------------------------------------------------------------------
// State transitions
// ---------------------------------------------------------------------
/// Whether an edge to `target` was already recorded.
pub open spec fn has_target(edges: Seq<(Seq<char>, EdgeType)>, target: Seq<char>) -> bool {
    exists|k: int| 0 <= k < edges.len() && edges[k].0 == target
}

/// The state after a text chunk: text inside the first title accumulates.
pub open spec fn step_text(st: ScanS, chunk: Seq<char>) -> ScanS {
    if st.in_title && !st.title_done {
        ScanS { title: st.title + chunk, ..st }
    } else {
        st
    }
}

/// The excluded-region stack after a start tag: an element matching a
/// selector opens a new region; otherwise an element named like the
/// innermost open region deepens that region's descendant count (which
/// saturates rather than overflow; unreachable for any input a vector can
/// hold).
pub open spec fn excl_open(
    excl: Seq<(Seq<char>, int)>,
    name: Seq<char>,
    class: Option<Seq<char>>,
    id: Option<Seq<char>>,
    self_closing: bool,
    sels: Seq<SelectorS>,
) -> Seq<(Seq<char>, int)> {
    if self_closing {
        excl
    } else if any_sel_matches(sels, name, class, id) {
        excl.push((name, 0))
    } else if excl.len() > 0 && excl.last().0 == name {
        let p = excl.last().1;
        excl.update(excl.len() - 1, (name, if p < usize::MAX as int {
            p + 1
        } else {
            p
        }))
    } else {
        excl
    }
}

/// The excluded-region stack after an end tag: a close tag named like the
/// innermost open region closes one same-named descendant, or the region
/// itself when none is open.
pub open spec fn excl_close(excl: Seq<(Seq<char>, int)>, name: Seq<char>) -> Seq<
    (Seq<char>, int),
> {
    if excl.len() > 0 && excl.last().0 == name {
        if excl.last().1 > 0 {
            excl.update(excl.len() - 1, (name, excl.last().1 - 1))
        } else {
            excl.drop_last()
        }
    } else {
        excl
    }
}

/// The state after a start tag: the excluded-region stack advances, the
/// first `title` starts capture, and an anchor with an `href` outside
/// every excluded region records one deduplicated edge.
pub open spec fn step_open(
    st: ScanS,
    name: Seq<char>,
    href: Option<Seq<char>>,
    class: Option<Seq<char>>,
    id: Option<Seq<char>>,
    self_closing: bool,
    env: ScanEnv,
) -> ScanS {
    let st1 = ScanS { excl: excl_open(st.excl, name, class, id, self_closing, env.sels), ..st };
    let st2 = if name == title_name() && !st1.title_done && !st1.in_title && !self_closing {
        ScanS { in_title: true, ..st1 }
    } else {
        st1
    };
    if name == anchor_name() && st2.excl.len() == 0 && href is Some {
        match classify_spec(href->0, env.page, env.base, env.friends) {
            Some(te) => {
                if !has_target(st2.edges, te.0) {
                    ScanS { edges: st2.edges.push(te), ..st2 }
                } else {
                    st2
                }
            },
            None => st2,
        }
    } else {
        st2
    }
}

/// The state after an end tag: the excluded-region stack retreats, and
/// closing the first title ends capture for good.
pub open spec fn step_close(st: ScanS, name: Seq<char>) -> ScanS {
    let st1 = ScanS { excl: excl_close(st.excl, name), ..st };
    if name == title_name() && st1.in_title {
        ScanS { in_title: false, title_done: true, ..st1 }
    } else {
        st1
    }
}

/// Executable membership test matching `has_target`.
fn has_target_exec(edges: &Vec<(Vec<char>, EdgeType)>, target: &Vec<char>) -> (b: bool)
    ensures
        b == has_target(pair_views(edges@), target@),
{
    let mut k: usize = 0;
    while k < edges.len()
        invariant
            k <= edges@.len(),
            forall|j: int| 0 <= j < k ==> pair_views(edges@)[j].0 != target@,
        decreases edges.len() - k,
    {
        if eq_chars(&edges[k].0, target) {
            proof {
                assert(pair_views(edges@)[k as int].0 == target@);
            }
            return true;
        }
        k = k + 1;
    }
    false
}

/// Executable text step matching `step_text`.
fn step_text_exec(st: ScanState, chunk: &Vec<char>) -> (r: ScanState)
    ensures
        r@ == step_text(st@, chunk@),
{
    let mut st = st;
    if st.in_title && !st.title_done {
        crate::text::append_chars(&mut st.title, chunk);
    }
    st
}

/// Executable start-tag step matching `step_open`.
fn step_open_exec(
    st: ScanState,
    name: &Vec<char>,
    href: Option<Vec<char>>,
    class: Option<Vec<char>>,
    id: Option<Vec<char>>,
    self_closing: bool,
    page: &Vec<char>,
    base: &Vec<char>,
    friends: &Vec<String>,
    sels: &Vec<Selector>,
) -> (r: ScanState)
    ensures
        ({
            let env = ScanEnv {
                page: page@,
                base: base@,
                friends: str_views(friends@),
                sels: sel_views(sels@),
            };
            r@ == step_open(st@, name@, opt_view(href), opt_view(class), opt_view(id),
                self_closing, env)
        }),
{
    let ghost env = ScanEnv {
        page: page@,
        base: base@,
        friends: str_views(friends@),
        sels: sel_views(sels@),
    };
    let mut st = st;
    let ghost excl0 = excl_views(st.excl@);
    if self_closing {
    } else if any_sel_matches_exec(sels, name, &class, &id) {
        let owned = subrange_chars(name, 0, name.len());
        proof {
            assert(owned@ =~= name@);
        }
        st.excl.push((owned, 0));
        proof {
            assert(excl_views(st.excl@) =~= excl0.push((name@, 0)));
        }
    } else if st.excl.len() > 0 && eq_chars(&st.excl[st.excl.len() - 1].0, name) {
        proof {
            assert(excl0.last().0 == name@);
        }
        let top = st.excl.pop();
        match top {
            Some(t) => {
                let bumped: usize = if t.1 < usize::MAX {
                    t.1 + 1
                } else {
                    t.1
                };
                st.excl.push((t.0, bumped));
                proof {
                    assert(excl_views(st.excl@) =~= excl0.update(
                        excl0.len() - 1,
                        (name@, if excl0.last().1 < usize::MAX as int {
                            excl0.last().1 + 1
                        } else {
                            excl0.last().1
                        }),
                    ));
                }
            },
            None => {},
        }
    }
    proof {
        assert(excl_views(st.excl@) == excl_open(excl0, name@, opt_view(class), opt_view(id),
            self_closing, env.sels));
    }
    let ghost st1 = st@;
    let p_title = crate::text::str_chars("title");
    proof {
        reveal_strlit("title");
        assert(p_title@ =~= title_name());
    }
    if eq_chars(name, &p_title) && !st.title_done && !st.in_title && !self_closing {
        st.in_title = true;
    }
    let ghost st2 = st@;
    let p_a = crate::text::str_chars("a");
    proof {
        reveal_strlit("a");
        assert(p_a@ =~= anchor_name());
    }
    if eq_chars(name, &p_a) && st.excl.len() == 0 {
        proof {
            assert(st@.excl.len() == 0);
        }
        match href {
            Some(h) => {
                match classify_chars(&h, page, base, friends) {
                    Some((target, kind)) => {
                        if !has_target_exec(&st.edges, &target) {
                            let ghost before = pair_views(st.edges@);
                            st.edges.push((target, kind));
                            proof {
                                assert(pair_views(st.edges@) =~= before.push(
                                    (target@, kind),
                                ));
                            }
                        }
                    },
                    None => {},
                }
            },
            None => {},
        }
    }
    st
}

/// Executable end-tag step matching `step_close`.
fn step_close_exec(st: ScanState, name: &Vec<char>) -> (r: ScanState)
    ensures
        r@ == step_close(st@, name@),
{
    let mut st = st;
    let ghost excl0 = excl_views(st.excl@);
    if st.excl.len() > 0 && eq_chars(&st.excl[st.excl.len() - 1].0, name) {
        proof {
            assert(excl0.last().0 == name@);
        }
        let top = st.excl.pop();
        match top {
            Some(t) => {
                if t.1 > 0 {
                    st.excl.push((t.0, t.1 - 1));
                    proof {
                        assert(excl_views(st.excl@) =~= excl0.update(
                            excl0.len() - 1,
                            (name@, excl0.last().1 - 1),
                        ));
                    }
                } else {
                    proof {
                        assert(excl_views(st.excl@) =~= excl0.drop_last());
                    }
                }
            },
            None => {},
        }
    }
    proof {
        assert(excl_views(st.excl@) == excl_close(excl0, name@));
    }
    let p_title = crate::text::str_chars("title");
    proof {
        reveal_strlit("title");
        assert(p_title@ =~= title_name());
    }
    if eq_chars(name, &p_title) && st.in_title {
        st.in_title = false;
        st.title_done = true;
    }
    st
}

// ---------------------------------------------------------------------
// The scan itself
// ---------------------------------------------------------------------
/// One scanner step at position `i`: the state after the token starting
/// there, and the position of the next token.
pub open spec fn scan_step(s: Seq<char>, i: int, st: ScanS, env: ScanEnv) -> (ScanS, int) {
    if s[i] != '<' {
        let j = cfind(s, i + 1, '<');
        (step_text(st, s.subrange(i, j)), j)
    } else if i + 1 >= s.len() {
        (st, s.len() as int)
    } else if s[i + 1] == '!' {
        if i + 4 <= s.len() && s[i + 2] == '-' && s[i + 3] == '-' {
            (st, after_comment(s, i + 4))
        } else {
            (st, after_gt(s, i + 2))
        }
    } else if s[i + 1] == '?' {
        (st, after_gt(s, i + 2))
    } else if s[i + 1] == '/' {
        let ne = name_end(s, i + 2);
        let name = lower_seq(s.subrange(i + 2, ne));
        (step_close(st, name), after_gt(s, i + 2))
    } else if is_name_start(s[i + 1]) {
        let ne = name_end(s, i + 1);
        let name = lower_seq(s.subrange(i + 1, ne));
        let (href, class, id, sc, j) = scan_attrs(s, ne, None, None, None);
        if !sc && (name == title_name() || name == script_name() || name == style_name()) {
            // Raw-text elements: everything up to the matching end tag is
            // text, never markup; only a title accumulates it.
            let j2 = raw_end(s, j, name);
            (step_text(step_open(st, name, href, class, id, sc, env), s.subrange(j, j2)), j2)
        } else {
            (step_open(st, name, href, class, id, sc, env), j)
        }
    } else {
        let j = cfind(s, i + 1, '<');
        (step_text(st, s.subrange(i, j)), j)
    }
}

/// Every scanner step moves forward and stays within the input.
pub proof fn lemma_scan_step_bounds(s: Seq<char>, i: int, st: ScanS, env: ScanEnv)
    requires
        0 <= i < s.len(),
    ensures
        i < scan_step(s, i, st, env).1 <= s.len(),
{
    if s[i] != '<' {
        lemma_cfind2_bounds(s, i + 1, '<', '<');
    } else if i + 1 >= s.len() {
    } else if s[i + 1] == '!' {
        if i + 4 <= s.len() && s[i + 2] == '-' && s[i + 3] == '-' {
            lemma_after_comment_bounds(s, i + 4);
        } else {
            lemma_after_gt_bounds(s, i + 2);
        }
    } else if s[i + 1] == '?' {
        lemma_after_gt_bounds(s, i + 2);
    } else if s[i + 1] == '/' {
        lemma_after_gt_bounds(s, i + 2);
    } else if is_name_start(s[i + 1]) {
        lemma_name_end_bounds(s, i + 1);
        lemma_scan_attrs_bounds(s, name_end(s, i + 1), None, None, None);
        let ne = name_end(s, i + 1);
        let j = scan_attrs(s, ne, None, None, None).4;
        lemma_raw_end_bounds(s, j, lower_seq(s.subrange(i + 1, ne)));
    } else {
        lemma_cfind2_bounds(s, i + 1, '<', '<');
    }
}

/// The scan state after reading all of `s[i..]`.
pub open spec fn scan(s: Seq<char>, i: int, st: ScanS, env: ScanEnv) -> ScanS
    decreases s.len() - i when 0 <= i <= s.len() via scan_dec
{
    if i >= s.len() {
        st
    } else {
        let (st2, j) = scan_step(s, i, st, env);
        scan(s, j, st2, env)
    }
}

#[via_fn]
proof fn scan_dec(s: Seq<char>, i: int, st: ScanS, env: ScanEnv) {
    if 0 <= i < s.len() {
        lemma_scan_step_bounds(s, i, st, env);
    }
}

/// Executable scanner step matching `scan_step`.
fn scan_step_exec(
    s: &Vec<char>,
    i: usize,
    st: ScanState,
    page: &Vec<char>,
    base: &Vec<char>,
    friends: &Vec<String>,
    sels: &Vec<Selector>,
) -> (r: (ScanState, usize))
    requires
        i < s@.len(),
    ensures
        ({
            let env = ScanEnv {
                page: page@,
                base: base@,
                friends: str_views(friends@),
                sels: sel_views(sels@),
            };
            let sp = scan_step(s@, i as int, st@, env);
            &&& r.0@ == sp.0
            &&& r.1 as int == sp.1
            &&& i < r.1 <= s@.len()
        }),
{
    let ghost env = ScanEnv {
        page: page@,
        base: base@,
        friends: str_views(friends@),
        sels: sel_views(sels@),
    };
    proof {
        lemma_scan_step_bounds(s@, i as int, st@, env);
    }
    let n = s.len();
    proof {
        assert(i < n);
    }
    let c = s[i];
    if c != '<' {
        proof {
            lemma_cfind2_bounds(s@, i + 1 as int, '<', '<');
        }
        let j = find_chars(s, i + 1, '<');
        let chunk = subrange_chars(s, i, j);
        (step_text_exec(st, &chunk), j)
    } else if i + 1 >= s.len() {
        (st, s.len())
    } else if s[i + 1] == '!' {
        if s.len() - i >= 4 && s[i + 2] == '-' && s[i + 3] == '-' {
            (st, after_comment_exec(s, i + 4))
        } else {
            (st, after_gt_exec(s, i + 2))
        }
    } else if s[i + 1] == '?' {
        (st, after_gt_exec(s, i + 2))
    } else if s[i + 1] == '/' {
        let ne = name_end_exec(s, i + 2);
        let nraw = subrange_chars(s, i + 2, ne);
        let name = lower_chars(&nraw);
        let st2 = step_close_exec(st, &name);
        (st2, after_gt_exec(s, i + 2))
    } else if is_name_start_char(s[i + 1]) {
        let ne = name_end_exec(s, i + 1);
        let nraw = subrange_chars(s, i + 1, ne);
        let name = lower_chars(&nraw);
        let (href, class, id, sc, j) = scan_attrs_exec(s, ne);
        let p_title = crate::text::str_chars("title");
        let p_script = crate::text::str_chars("script");
        let p_style = crate::text::str_chars("style");
        proof {
            reveal_strlit("title");
            reveal_strlit("script");
            reveal_strlit("style");
            assert(p_title@ =~= title_name());
            assert(p_script@ =~= script_name());
            assert(p_style@ =~= style_name());
        }
        let raw = !sc && (eq_chars(&name, &p_title) || eq_chars(&name, &p_script) || eq_chars(
            &name,
            &p_style,
        ));
        let st2 = step_open_exec(st, &name, href, class, id, sc, page, base, friends, sels);
        if raw {
            let j2 = raw_end_exec(s, j, &name);
            let chunk = subrange_chars(s, j, j2);
            (step_text_exec(st2, &chunk), j2)
        } else {
            (st2, j)
        }
    } else {
        proof {
            lemma_cfind2_bounds(s@, i + 1 as int, '<', '<');
        }
        let j = find_chars(s, i + 1, '<');
        let chunk = subrange_chars(s, i, j);
        (step_text_exec(st, &chunk), j)
    }
}

/// Runs the whole scan over a document, matching `scan` from the start.
#[verifier::loop_isolation(false)]
pub fn scan_document(
    s: &Vec<char>,
    page: &Vec<char>,
    base: &Vec<char>,
    friends: &Vec<String>,
    sels: &Vec<Selector>,
) -> (r: ScanState)
    ensures
        ({
            let env = ScanEnv {
                page: page@,
                base: base@,
                friends: str_views(friends@),
                sels: sel_views(sels@),
            };
            r@ == scan(s@, 0, init_scan_state(), env)
        }),
{
    let ghost env = ScanEnv {
        page: page@,
        base: base@,
        friends: str_views(friends@),
        sels: sel_views(sels@),
    };
    let mut st = ScanState {
        title: Vec::new(),
        in_title: false,
        title_done: false,
        excl: Vec::new(),
        edges: Vec::new(),
    };
    proof {
        assert(st@.title =~= init_scan_state().title);
        assert(st@.excl =~= init_scan_state().excl);
        assert(st@.edges =~= init_scan_state().edges);
        assert(st@ == init_scan_state());
    }
    let mut i: usize = 0;
    while i < s.len()
        invariant
            i <= s@.len(),
            scan(s@, i as int, st@, env) == scan(s@, 0, init_scan_state(), env),
        decreases s.len() - i,
    {
        let ghost st_old = st@;
        let (st2, j) = scan_step_exec(s, i, st, page, base, friends, sels);
        proof {
            assert(scan(s@, i as int, st_old, env) == scan(
                s@,
                j as int,
                scan_step(s@, i as int, st_old, env).0,
                env,
            ));
        }
        st = st2;
        i = j;
    }
    st
}

// ---------------------------------------------------------------------
// Laws about the scan
// ---------------------------------------------------------------------
/// Well-formed collected edges: targets are pairwise distinct, internal
/// targets are absolute paths, and friend targets keep their absolute
/// HTTP(S) form.
pub open spec fn wf_edges(edges: Seq<(Seq<char>, EdgeType)>) -> bool {
    &&& forall|a: int, b: int| 0 <= a < b < edges.len() ==> edges[a].0 != edges[b].0
    &&& forall|a: int|
        0 <= a < edges.len() ==> (edges[a].1 == EdgeType::Internal ==> edges[a].0.len() > 0
            && edges[a].0[0] == '/')
    &&& forall|a: int|
        0 <= a < edges.len() ==> (edges[a].1 == EdgeType::Friend ==> crate::text::has_prefix(
            edges[a].0,
            crate::classify::http_prefix(),
        ) || crate::text::has_prefix(edges[a].0, crate::classify::https_prefix()))
}

/// One scanner step preserves well-formed edges.
pub proof fn lemma_step_wf(s: Seq<char>, i: int, st: ScanS, env: ScanEnv)
    requires
        0 <= i < s.len(),
        wf_edges(st.edges),
    ensures
        wf_edges(scan_step(s, i, st, env).0.edges),
{
    if s[i] != '<' {
    } else if i + 1 >= s.len() {
    } else if s[i + 1] == '!' || s[i + 1] == '?' || s[i + 1] == '/' {
    } else if is_name_start(s[i + 1]) {
        let ne = name_end(s, i + 1);
        let name = lower_seq(s.subrange(i + 1, ne));
        let (href, class, id, sc, j) = scan_attrs(s, ne, None, None, None);
        if name == anchor_name() && href is Some {
            crate::classify::lemma_classify_forms(href->0, env.page, env.base, env.friends);
        }
    } else {
    }
}

/// The whole scan preserves well-formed edges: deduplication and the
/// target form invariant hold of every state the scan can reach.
pub proof fn lemma_scan_wf(s: Seq<char>, i: int, st: ScanS, env: ScanEnv)
    requires
        0 <= i <= s.len(),
        wf_edges(st.edges),
    ensures
        wf_edges(scan(s, i, st, env).edges),
    decreases s.len() - i,
{
    if i >= s.len() {
    } else {
        let (st2, j) = scan_step(s, i, st, env);
        lemma_scan_step_bounds(s, i, st, env);
        lemma_step_wf(s, i, st, env);
        lemma_scan_wf(s, j, st2, env);
    }
}

} // verus!
