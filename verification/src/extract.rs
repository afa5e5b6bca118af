//! Page extraction.
//!
//! One page's HTML is scanned once; the result is the page's node (its
//! canonical URL and first title, falling back to the URL) and its outgoing
//! edges, deduplicated by normalized target and classified internal or
//! friend. Links inside regions matching an exclusion selector are ignored.
//! Malformed markup never fails the extraction; only an unusable exclusion
//! selector does.

use vstd::prelude::*;

use crate::error::Error;
use crate::model::{Edge, EdgeS, Node};
use crate::scan::{init_scan_state, scan, scan_document, wf_edges, ScanEnv};
use crate::selector::{parse_selector_exec, parsed_sels, sel_views, Selector};
use crate::text::{chars_string, str_chars, str_views, trim_chars, trim_seq};

verus! {

use vstd::string::StringExecFns;

pub use crate::selector::valid_selector;

/// The message of the error reported for an unusable exclusion selector.
pub open spec fn invalid_selector_msg(sel: Seq<char>) -> Seq<char> {
    "unsupported selector '"@ + sel + "'"@
}

/// The scanner environment of one page extraction.
pub open spec fn extract_env(
    page: Seq<char>,
    base: Seq<char>,
    friends: Seq<Seq<char>>,
    sels: Seq<Seq<char>>,
) -> ScanEnv {
    ScanEnv { page: page, base: base, friends: friends, sels: parsed_sels(sels) }
}

/// The title of an extracted page: the first title's trimmed text, or the
/// page URL when no title text was found.
pub open spec fn extracted_title(title: Seq<char>, page: Seq<char>) -> Seq<char> {
    if trim_seq(title).len() == 0 {
        page
    } else {
        trim_seq(title)
    }
}

/// The node one page extraction produces.
pub open spec fn extract_node_title(
    html: Seq<char>,
    page: Seq<char>,
    base: Seq<char>,
    friends: Seq<Seq<char>>,
    sels: Seq<Seq<char>>,
) -> Seq<char> {
    let st = scan(html, 0, init_scan_state(), extract_env(page, base, friends, sels));
    extracted_title(st.title, page)
}

/// The edges one page extraction produces, in first-seen order, each with
/// the page itself as source.
pub open spec fn extract_edges(
    html: Seq<char>,
    page: Seq<char>,
    base: Seq<char>,
    friends: Seq<Seq<char>>,
    sels: Seq<Seq<char>>,
) -> Seq<EdgeS> {
    let st = scan(html, 0, init_scan_state(), extract_env(page, base, friends, sels));
    Seq::new(
        st.edges.len(),
        |k: int| EdgeS { source: page, target: st.edges[k].0, edge_type: st.edges[k].1 },
    )
}

/// Parses the exclusion selectors for matching.
#[verifier::loop_isolation(false)]
fn prepare_selectors(exclude_selectors: &Vec<String>) -> (r: Result<Vec<Selector>, Error>)
    ensures
        ({
            let views = str_views(exclude_selectors@);
            match r {
                Ok(sels) => (forall|k: int| 0 <= k < views.len() ==> valid_selector(views[k]))
                    && sel_views(sels@) == parsed_sels(views),
                Err(e) => exists|k: int|
                    {
                        &&& 0 <= k < views.len()
                        &&& !valid_selector(#[trigger] views[k])
                        &&& (forall|j: int| 0 <= j < k ==> valid_selector(views[j]))
                        &&& (e matches Error::HtmlParse(m) && m@ == invalid_selector_msg(
                            views[k],
                        ))
                    },
            }
        }),
{
    let mut sels: Vec<Selector> = Vec::new();
    let mut k: usize = 0;
    proof {
        assert(sel_views(sels@) =~= parsed_sels(str_views(exclude_selectors@)).take(0));
    }
    while k < exclude_selectors.len()
        invariant
            k <= exclude_selectors@.len(),
            forall|j: int| 0 <= j < k ==> valid_selector(str_views(exclude_selectors@)[j]),
            sel_views(sels@) == parsed_sels(str_views(exclude_selectors@)).take(k as int),
        decreases exclude_selectors.len() - k,
    {
        let sv = str_chars(exclude_selectors[k].as_str());
        proof {
            assert(sv@ == str_views(exclude_selectors@)[k as int]);
        }
        match parse_selector_exec(&sv) {
            Some(sel) => {
                let ghost before = sel_views(sels@);
                sels.push(sel);
                proof {
                    assert(sel_views(sels@) =~= parsed_sels(str_views(exclude_selectors@)).take(
                        k + 1 as int,
                    ));
                }
            },
            None => {
                let mut msg = String::from_str("unsupported selector '");
                let sel_string = chars_string(&sv);
                msg.append(sel_string.as_str());
                msg.append("'");
                proof {
                    assert(msg@ == invalid_selector_msg(str_views(exclude_selectors@)[k as int]));
                }
                return Err(Error::HtmlParse(msg));
            },
        }
        k = k + 1;
    }
    proof {
        let views = str_views(exclude_selectors@);
        assert(parsed_sels(views).take(views.len() as int) =~= parsed_sels(views));
    }
    Ok(sels)
}

/// Extracts one page's node and outgoing edges from its HTML text.
///
/// The scan is a single forward pass: it captures the first `title`
/// element's text, skips every anchor inside a region matching one of the
/// exclusion selectors (tag, class and id selectors such as `nav`,
/// `.sidebar` or `div#menu.wide`; combinators are unsupported), classifies
/// every other anchor's `href`, and deduplicates edges by normalized
/// target. The extraction fails only when an exclusion selector is
/// unsupported; malformed markup is read best-effort.
#[verifier::loop_isolation(false)]
pub fn extract_page(
    html: &str,
    page_url: &str,
    base_url: &str,
    friends: &Vec<String>,
    exclude_selectors: &Vec<String>,
) -> (r: Result<(Node, Vec<Edge>), Error>)
    ensures
        r is Ok <==> (forall|k: int|
            0 <= k < exclude_selectors@.len() ==> valid_selector(
                str_views(exclude_selectors@)[k],
            )),
        ({
            let views = str_views(exclude_selectors@);
            r matches Err(e) ==> exists|k: int|
                {
                    &&& 0 <= k < views.len()
                    &&& !valid_selector(#[trigger] views[k])
                    &&& (forall|j: int| 0 <= j < k ==> valid_selector(views[j]))
                    &&& (e matches Error::HtmlParse(m) && m@ == invalid_selector_msg(views[k]))
                }
        }),
        ({
            let views = str_views(exclude_selectors@);
            let friendv = str_views(friends@);
            r matches Ok((node, edges)) ==> {
                &&& node.url@ == page_url@
                &&& node.title@ == extract_node_title(html@, page_url@, base_url@, friendv, views)
                &&& crate::model::edge_views(edges@) == extract_edges(
                    html@,
                    page_url@,
                    base_url@,
                    friendv,
                    views,
                )
                &&& (forall|a: int, b: int|
                    0 <= a < b < edges@.len() ==> edges@[a].target@ != edges@[b].target@)
                &&& (forall|a: int|
                    0 <= a < edges@.len() ==> edges@[a].source@ == page_url@)
                &&& (forall|a: int|
                    0 <= a < edges@.len() ==> (edges@[a].edge_type == crate::model::EdgeType::Internal
                        ==> edges@[a].target@.len() > 0 && edges@[a].target@[0] == '/'))
                &&& (forall|a: int|
                    0 <= a < edges@.len() ==> (edges@[a].edge_type == crate::model::EdgeType::Friend
                        ==> crate::text::has_prefix(
                        edges@[a].target@,
                        crate::classify::http_prefix(),
                    ) || crate::text::has_prefix(
                        edges@[a].target@,
                        crate::classify::https_prefix(),
                    )))
            }
        }),
{
    let sels = match prepare_selectors(exclude_selectors) {
        Ok(sels) => sels,
        Err(e) => {
            return Err(e);
        },
    };
    let hv = str_chars(html);
    let pv = str_chars(page_url);
    let bv = str_chars(base_url);
    let st = scan_document(&hv, &pv, &bv, friends, &sels);
    let ghost env = extract_env(page_url@, base_url@, str_views(friends@), str_views(
        exclude_selectors@,
    ));
    let ghost stv = scan(html@, 0, init_scan_state(), env);
    proof {
        assert(st@ == stv);
        crate::scan::lemma_scan_wf(html@, 0, init_scan_state(), env);
        assert(wf_edges(stv.edges));
    }
    let trimmed = trim_chars(&st.title);
    let title: String = if trimmed.len() == 0 {
        page_url.to_owned()
    } else {
        chars_string(&trimmed)
    };
    let node = Node { url: page_url.to_owned(), title };
    let mut edges: Vec<Edge> = Vec::new();
    let mut k: usize = 0;
    let ghost target_edges = extract_edges(html@, page_url@, base_url@, str_views(friends@),
        str_views(exclude_selectors@));
    while k < st.edges.len()
        invariant
            k <= st.edges@.len(),
            stv == scan(html@, 0, init_scan_state(), env),
            st@.edges == stv.edges,
            st@.edges.len() == st.edges@.len(),
            target_edges == extract_edges(html@, page_url@, base_url@, str_views(friends@),
                str_views(exclude_selectors@)),
            target_edges.len() == st.edges@.len(),
            edges@.len() == k,
            forall|j: int| 0 <= j < k ==> edges@[j]@ == target_edges[j],
        decreases st.edges.len() - k,
    {
        let target = chars_string(&st.edges[k].0);
        let edge = Edge { source: page_url.to_owned(), target, edge_type: st.edges[k].1 };
        proof {
            assert(st@.edges[k as int] == (st.edges@[k as int].0@, st.edges@[k as int].1));
            assert(edge@ == target_edges[k as int]);
        }
        edges.push(edge);
        k = k + 1;
    }
    proof {
        assert(crate::model::edge_views(edges@) =~= target_edges);
        assert forall|a: int| 0 <= a < edges@.len() implies edges@[a]@ == (EdgeS {
            source: page_url@,
            target: stv.edges[a].0,
            edge_type: stv.edges[a].1,
        }) by {
            assert(edges@[a]@ == target_edges[a]);
        }
        assert forall|a: int, b: int| 0 <= a < b < edges@.len() implies edges@[a].target@
            != edges@[b].target@ by {
            assert(edges@[a]@.target == stv.edges[a].0);
            assert(edges@[b]@.target == stv.edges[b].0);
        }
        assert forall|a: int| 0 <= a < edges@.len() implies edges@[a].source@ == page_url@
            && (edges@[a].edge_type == crate::model::EdgeType::Internal ==> edges@[a].target@.len()
            > 0 && edges@[a].target@[0] == '/') && (edges@[a].edge_type
            == crate::model::EdgeType::Friend ==> crate::text::has_prefix(
            edges@[a].target@,
            crate::classify::http_prefix(),
        ) || crate::text::has_prefix(edges@[a].target@, crate::classify::https_prefix())) by {
            assert(edges@[a]@.target == stv.edges[a].0);
            assert(edges@[a]@.edge_type == stv.edges[a].1);
        }
    }
    Ok((node, edges))
}

} // verus!
