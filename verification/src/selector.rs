//! Exclusion selectors.
//!
//! A selector names the page regions whose links are ignored. The
//! supported forms are a tag name, `.class`, `#id`, and their compounds
//! (`div.menu`, `nav#main.wide`): an element matches when its tag name
//! equals the selector's tag (compared ASCII-case-insensitively), its
//! `class` attribute's whitespace-separated list contains every selector
//! class, and its `id` attribute equals the selector's id. Combinators
//! (`nav ul`, `nav > ul`) and other CSS forms are not supported and are
//! rejected up front.

use vstd::prelude::*;

use crate::scan::{is_name_start, is_name_start_char, lemma_name_end_bounds, name_end};
use crate::text::{
    eq_chars, is_ws, is_ws_char, lower_chars, lower_seq, opt_view, subrange_chars,
};

verus! {

/// The mathematical value of a parsed selector.
pub struct SelectorS {
    pub tag: Option<Seq<char>>,
    pub classes: Seq<Seq<char>>,
    pub id: Option<Seq<char>>,
}

/// A parsed exclusion selector: an optional tag name (lower-cased), the
/// required classes, and an optional id.
pub struct Selector {
    pub tag: Option<Vec<char>>,
    pub classes: Vec<Vec<char>>,
    pub id: Option<Vec<char>>,
}

impl View for Selector {
    type V = SelectorS;

    open spec fn view(&self) -> SelectorS {
        SelectorS {
            tag: opt_view(self.tag),
            classes: crate::urlnorm::seg_views(self.classes@),
            id: opt_view(self.id),
        }
    }
}

/// The views of a sequence of selectors.
pub open spec fn sel_views(v: Seq<Selector>) -> Seq<SelectorS> {
    Seq::new(v.len(), |i: int| v[i]@)
}

/// The `.class` and `#id` parts of a selector from position `i` on:
/// nothing when anything else follows, at most one id.
pub open spec fn parse_parts(
    s: Seq<char>,
    i: int,
    classes: Seq<Seq<char>>,
    id: Option<Seq<char>>,
) -> Option<(Seq<Seq<char>>, Option<Seq<char>>)>
    decreases s.len() - i when 0 <= i <= s.len() via parse_parts_dec
{
    if i >= s.len() {
        Some((classes, id))
    } else if (s[i] == '.' || s[i] == '#') && i + 1 < s.len() && is_name_start(s[i + 1]) {
        let ne = name_end(s, i + 1);
        let tok = s.subrange(i + 1, ne);
        if s[i] == '.' {
            parse_parts(s, ne, classes.push(tok), id)
        } else if id is None {
            parse_parts(s, ne, classes, Some(tok))
        } else {
            None
        }
    } else {
        None
    }
}

#[via_fn]
proof fn parse_parts_dec(s: Seq<char>, i: int, classes: Seq<Seq<char>>, id: Option<Seq<char>>) {
    if 0 <= i < s.len() && (s[i] == '.' || s[i] == '#') && i + 1 < s.len() && is_name_start(
        s[i + 1],
    ) {
        lemma_name_end_bounds(s, i + 1);
    }
}

/// A selector text parsed, or nothing when the form is unsupported: an
/// optional leading tag name followed by `.class` and `#id` parts.
pub open spec fn parse_selector(s: Seq<char>) -> Option<SelectorS> {
    if s.len() == 0 {
        None
    } else {
        let start = if is_name_start(s[0]) {
            name_end(s, 0)
        } else {
            0
        };
        let tag = if is_name_start(s[0]) {
            Some(lower_seq(s.take(start)))
        } else {
            None
        };
        match parse_parts(s, start, Seq::empty(), None) {
            Some(parts) => Some(SelectorS { tag: tag, classes: parts.0, id: parts.1 }),
            None => None,
        }
    }
}

/// A selector this library understands.
pub open spec fn valid_selector(s: Seq<char>) -> bool {
    parse_selector(s) is Some
}

/// The parsed form of a selector, defaulting to one that matches no
/// element (tag names are never empty) when the text is unsupported.
pub open spec fn sel_of(s: Seq<char>) -> SelectorS {
    match parse_selector(s) {
        Some(sel) => sel,
        None => SelectorS { tag: Some(Seq::empty()), classes: Seq::empty(), id: None },
    }
}

/// The parsed forms of a selector list.
pub open spec fn parsed_sels(raws: Seq<Seq<char>>) -> Seq<SelectorS> {
    Seq::new(raws.len(), |i: int| sel_of(raws[i]))
}

/// Executable selector parse matching `parse_selector`.
#[verifier::loop_isolation(false)]
pub fn parse_selector_exec(text: &Vec<char>) -> (r: Option<Selector>)
    ensures
        match r {
            Some(sel) => parse_selector(text@) == Some(sel@),
            None => parse_selector(text@) is None,
        },
{
    if text.len() == 0 {
        return None;
    }
    let mut i: usize = 0;
    let tag: Option<Vec<char>> = if is_name_start_char(text[0]) {
        let ne = crate::scan::name_end_exec(text, 0);
        let raw = subrange_chars(text, 0, ne);
        i = ne;
        Some(lower_chars(&raw))
    } else {
        None
    };
    let mut classes: Vec<Vec<char>> = Vec::new();
    let mut id: Option<Vec<char>> = None;
    proof {
        assert(crate::urlnorm::seg_views(classes@) =~= Seq::<Seq<char>>::empty());
    }
    while i < text.len()
        invariant
            i <= text@.len(),
            parse_parts(text@, i as int, crate::urlnorm::seg_views(classes@), opt_view(id))
                == parse_parts(text@, if is_name_start(text@[0]) {
                name_end(text@, 0)
            } else {
                0
            }, Seq::empty(), None),
        decreases text.len() - i,
    {
        let c = text[i];
        if !((c == '.' || c == '#') && i + 1 < text.len() && is_name_start_char(text[i + 1])) {
            return None;
        }
        let ne = crate::scan::name_end_exec(text, i + 1);
        let tok = subrange_chars(text, i + 1, ne);
        let ghost old_classes = crate::urlnorm::seg_views(classes@);
        let ghost old_id = opt_view(id);
        if c == '.' {
            classes.push(tok);
            proof {
                assert(crate::urlnorm::seg_views(classes@) =~= old_classes.push(
                    text@.subrange(i + 1 as int, ne as int),
                ));
            }
        } else {
            if id.is_some() {
                return None;
            }
            id = Some(tok);
        }
        proof {
            lemma_name_end_bounds(text@, i + 1 as int);
        }
        i = ne;
    }
    Some(Selector { tag, classes, id })
}

// ---------------------------------------------------------------------
// Matching
// ---------------------------------------------------------------------
/// The whitespace-separated tokens of a class attribute value, with `cur`
/// the partial token read so far and `acc` the tokens already complete.
pub open spec fn ws_tokens(acc: Seq<Seq<char>>, cur: Seq<char>, s: Seq<char>, i: int) -> Seq<
    Seq<char>,
>
    decreases s.len() - i when 0 <= i <= s.len()
{
    if i >= s.len() {
        crate::urlnorm::push_seg(acc, cur)
    } else if is_ws(s[i]) {
        ws_tokens(crate::urlnorm::push_seg(acc, cur), Seq::empty(), s, i + 1)
    } else {
        ws_tokens(acc, cur.push(s[i]), s, i + 1)
    }
}

/// The class list of a class attribute value.
pub open spec fn class_list(a: Seq<char>) -> Seq<Seq<char>> {
    ws_tokens(Seq::empty(), Seq::empty(), a, 0)
}

/// Whether a class attribute value lists the class `c`.
pub open spec fn has_class_token(a: Seq<char>, c: Seq<char>) -> bool {
    exists|k: int| 0 <= k < class_list(a).len() && class_list(a)[k] == c
}

/// Splits a class attribute value into its tokens, matching `class_list`.
fn class_list_exec(a: &Vec<char>) -> (r: Vec<Vec<char>>)
    ensures
        crate::urlnorm::seg_views(r@) == class_list(a@),
{
    let mut acc: Vec<Vec<char>> = Vec::new();
    let mut cur: Vec<char> = Vec::new();
    let mut i: usize = 0;
    proof {
        assert(crate::urlnorm::seg_views(acc@) =~= Seq::<Seq<char>>::empty());
    }
    while i < a.len()
        invariant
            i <= a@.len(),
            ws_tokens(crate::urlnorm::seg_views(acc@), cur@, a@, i as int) == ws_tokens(
                Seq::empty(),
                Seq::empty(),
                a@,
                0,
            ),
        decreases a.len() - i,
    {
        let ghost accd = crate::urlnorm::seg_views(acc@);
        let ghost curd = cur@;
        let c = a[i];
        if is_ws_char(c) {
            proof {
                assert(ws_tokens(accd, curd, a@, i as int) == ws_tokens(
                    crate::urlnorm::push_seg(accd, curd),
                    Seq::<char>::empty(),
                    a@,
                    i + 1 as int,
                ));
            }
            if cur.len() > 0 {
                acc.push(cur);
                cur = Vec::new();
                proof {
                    assert(crate::urlnorm::seg_views(acc@) =~= crate::urlnorm::push_seg(
                        accd,
                        curd,
                    ));
                }
            } else {
                proof {
                    assert(curd =~= Seq::<char>::empty());
                    assert(crate::urlnorm::seg_views(acc@) =~= crate::urlnorm::push_seg(
                        accd,
                        curd,
                    ));
                }
            }
        } else {
            cur.push(c);
            proof {
                assert(ws_tokens(accd, curd, a@, i as int) == ws_tokens(
                    accd,
                    curd.push(a@[i as int]),
                    a@,
                    i + 1 as int,
                ));
            }
        }
        i = i + 1;
    }
    if cur.len() > 0 {
        let ghost accd = crate::urlnorm::seg_views(acc@);
        let ghost curd = cur@;
        acc.push(cur);
        proof {
            assert(crate::urlnorm::seg_views(acc@) =~= crate::urlnorm::push_seg(accd, curd));
        }
    }
    acc
}

/// Whether one selector matches an element with the given (lower-cased)
/// tag name and raw `class` and `id` attribute values.
pub open spec fn sel_matches(
    sel: SelectorS,
    name: Seq<char>,
    class_attr: Option<Seq<char>>,
    id_attr: Option<Seq<char>>,
) -> bool {
    &&& (sel.tag matches Some(t) ==> t == name)
    &&& (forall|k: int|
        0 <= k < sel.classes.len() ==> (class_attr matches Some(a) && has_class_token(
            a,
            #[trigger] sel.classes[k],
        )))
    &&& (sel.id matches Some(x) ==> id_attr == Some(x))
}

/// Whether any selector of the list matches the element.
pub open spec fn any_sel_matches(
    sels: Seq<SelectorS>,
    name: Seq<char>,
    class_attr: Option<Seq<char>>,
    id_attr: Option<Seq<char>>,
) -> bool {
    exists|k: int| 0 <= k < sels.len() && sel_matches(sels[k], name, class_attr, id_attr)
}

/// Executable match of one selector, matching `sel_matches`.
#[verifier::loop_isolation(false)]
fn sel_matches_exec(
    sel: &Selector,
    name: &Vec<char>,
    class_attr: &Option<Vec<char>>,
    id_attr: &Option<Vec<char>>,
) -> (b: bool)
    ensures
        b == sel_matches(sel@, name@, opt_view(*class_attr), opt_view(*id_attr)),
{
    let ghost selv = sel@;
    let ghost cav = opt_view(*class_attr);
    let ghost iav = opt_view(*id_attr);
    match &sel.tag {
        Some(t) => {
            proof {
                assert(selv.tag == Some(t@));
            }
            if !eq_chars(t, name) {
                proof {
                    assert(!sel_matches(selv, name@, cav, iav));
                }
                return false;
            }
        },
        None => {},
    }
    proof {
        assert(selv.tag matches Some(t) ==> t == name@);
    }
    let mut k: usize = 0;
    while k < sel.classes.len()
        invariant
            k <= sel.classes@.len(),
            k > 0 ==> cav is Some,
            forall|j: int| 0 <= j < k ==> has_class_token(cav->0, #[trigger] selv.classes[j]),
        decreases sel.classes.len() - k,
    {
        proof {
            assert(selv.classes[k as int] == sel.classes@[k as int]@);
        }
        match class_attr {
            None => {
                proof {
                    assert(!(cav matches Some(a) && has_class_token(a, selv.classes[k as int])));
                    assert(!sel_matches(selv, name@, cav, iav));
                }
                return false;
            },
            Some(a) => {
                let toks = class_list_exec(a);
                let mut found = false;
                let mut t: usize = 0;
                while t < toks.len()
                    invariant
                        t <= toks@.len(),
                        found ==> has_class_token(a@, selv.classes[k as int]),
                        !found ==> (forall|j: int|
                            0 <= j < t ==> class_list(a@)[j] != selv.classes[k as int]),
                    decreases toks.len() - t,
                {
                    if eq_chars(&toks[t], &sel.classes[k]) {
                        proof {
                            assert(class_list(a@)[t as int] == crate::urlnorm::seg_views(toks@)[
                                t as int]);
                            assert(class_list(a@)[t as int] == selv.classes[k as int]);
                        }
                        found = true;
                    }
                    t = t + 1;
                }
                if !found {
                    proof {
                        assert(class_list(a@).len() == toks@.len());
                        assert(!has_class_token(a@, selv.classes[k as int]));
                        assert(cav == Some(a@));
                        assert(!sel_matches(selv, name@, cav, iav));
                    }
                    return false;
                }
                proof {
                    assert(cav == Some(a@));
                    assert(has_class_token(cav->0, selv.classes[k as int]));
                }
            },
        }
        k = k + 1;
    }
    proof {
        assert(selv.classes.len() == sel.classes@.len());
        assert forall|j: int|
            0 <= j < selv.classes.len() implies (cav matches Some(a) && has_class_token(
            a,
            #[trigger] selv.classes[j],
        )) by {
            assert(0 <= j < k);
            assert(cav is Some);
            assert(has_class_token(cav->0, selv.classes[j]));
        }
    }
    match (&sel.id, id_attr) {
        (Some(x), Some(y)) => {
            proof {
                assert(selv.id == Some(x@) && iav == Some(y@));
            }
            if !eq_chars(x, y) {
                proof {
                    assert(!sel_matches(selv, name@, cav, iav));
                }
                return false;
            }
        },
        (Some(x), None) => {
            proof {
                assert(selv.id == Some(x@) && iav is None);
                assert(!sel_matches(selv, name@, cav, iav));
            }
            return false;
        },
        _ => {},
    }
    proof {
        assert(selv.id matches Some(x) ==> iav == Some(x));
        assert(sel_matches(selv, name@, cav, iav));
    }
    true
}

/// Executable match of a selector list, matching `any_sel_matches`.
pub fn any_sel_matches_exec(
    sels: &Vec<Selector>,
    name: &Vec<char>,
    class_attr: &Option<Vec<char>>,
    id_attr: &Option<Vec<char>>,
) -> (b: bool)
    ensures
        b == any_sel_matches(sel_views(sels@), name@, opt_view(*class_attr), opt_view(*id_attr)),
{
    let mut k: usize = 0;
    while k < sels.len()
        invariant
            k <= sels@.len(),
            forall|j: int|
                0 <= j < k ==> !sel_matches(
                    #[trigger] sel_views(sels@)[j],
                    name@,
                    opt_view(*class_attr),
                    opt_view(*id_attr),
                ),
        decreases sels.len() - k,
    {
        if sel_matches_exec(&sels[k], name, class_attr, id_attr) {
            proof {
                assert(sel_views(sels@)[k as int] == sels@[k as int]@);
            }
            return true;
        }
        k = k + 1;
    }
    false
}

} // verus!
