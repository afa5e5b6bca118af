//! The graph builder.
//!
//! A filtered, ordered sequence of `(relative path, HTML text)` pairs is
//! turned into one publishable document: each pair yields one node at the
//! canonical URL derived from its path and the page's outgoing edges, in
//! order, and the document carries the protocol version, the site
//! metadata, and a fresh generation timestamp. Walking the output
//! directory and filtering by globs is the caller's concern.

use vstd::prelude::*;

use crate::config::Config;
use crate::error::Error;
use crate::extract::{extract_edges, extract_node_title, extract_page, valid_selector};
use crate::model::{
    edge_views, node_views, protocol_version, protocol_version_spec, EdgeS, Node, NodeS,
    PublicFile, SiteMetadata,
};
use crate::text::{str_views};
use crate::urlnorm::{file_path_to_url, file_url_spec};

verus! {

use vstd::string::StringExecFns;

// ---------------------------------------------------------------------
// UTC timestamps
// ---------------------------------------------------------------------
/// The decimal digit character of `n`, which must already be reduced
/// modulo ten.
pub open spec fn dig(n: int) -> char {
    if n == 0 {
        '0'
    } else if n == 1 {
        '1'
    } else if n == 2 {
        '2'
    } else if n == 3 {
        '3'
    } else if n == 4 {
        '4'
    } else if n == 5 {
        '5'
    } else if n == 6 {
        '6'
    } else if n == 7 {
        '7'
    } else if n == 8 {
        '8'
    } else {
        '9'
    }
}

/// `n` zero-padded to two decimal digits (higher digits truncated).
pub open spec fn two_digits(n: int) -> Seq<char> {
    seq![dig(n / 10 % 10), dig(n % 10)]
}

/// `n` zero-padded to four decimal digits (higher digits truncated).
pub open spec fn four_digits(n: int) -> Seq<char> {
    seq![dig(n / 1000 % 10), dig(n / 100 % 10), dig(n / 10 % 10), dig(n % 10)]
}

/// Guarded subtraction: zero instead of going negative.
pub open spec fn ssub(a: int, b: int) -> int {
    if a >= b {
        a - b
    } else {
        0
    }
}

/// The proleptic Gregorian `(year, month, day)` of a day count since the
/// Unix epoch, by the standard era-based civil-from-days computation.
pub open spec fn civil_date(days: int) -> (int, int, int) {
    let z = days + 719468;
    let era = z / 146097;
    let doe = z % 146097;
    let yoe = ssub(doe + doe / 36524, doe / 1460 + doe / 146096) / 365;
    let y0 = yoe + era * 400;
    let doy = ssub(doe, ssub(365 * yoe + yoe / 4, yoe / 100));
    let mp = (5 * doy + 2) / 153;
    let d = ssub(doy, (153 * mp + 2) / 5) + 1;
    let m = if mp < 10 {
        mp + 3
    } else {
        mp - 9
    };
    let y = if m <= 2 {
        y0 + 1
    } else {
        y0
    };
    (y, m, d)
}

/// The ISO-8601 UTC rendering `YYYY-MM-DDTHH:MM:SSZ` of a count of
/// seconds since the Unix epoch, with second precision.
pub open spec fn timestamp_str(secs: int) -> Seq<char> {
    let days = secs / 86400;
    let sod = secs % 86400;
    let ymd = civil_date(days);
    four_digits(ymd.0) + seq!['-'] + two_digits(ymd.1) + seq!['-'] + two_digits(ymd.2)
        + seq!['T'] + two_digits(sod / 3600) + seq![':'] + two_digits(sod % 3600 / 60)
        + seq![':'] + two_digits(sod % 60) + seq!['Z']
}

/// Executable digit character matching `dig`.
fn dig_exec(n: u64) -> (c: char)
    requires
        n <= 9,
    ensures
        c == dig(n as int),
{
    if n == 0 {
        '0'
    } else if n == 1 {
        '1'
    } else if n == 2 {
        '2'
    } else if n == 3 {
        '3'
    } else if n == 4 {
        '4'
    } else if n == 5 {
        '5'
    } else if n == 6 {
        '6'
    } else if n == 7 {
        '7'
    } else if n == 8 {
        '8'
    } else {
        '9'
    }
}

/// Appends `n` as two zero-padded digits.
fn push_two_digits(out: &mut Vec<char>, n: u64)
    ensures
        final(out)@ == old(out)@ + two_digits(n as int),
{
    out.push(dig_exec(n / 10 % 10));
    out.push(dig_exec(n % 10));
    proof {
        assert(out@ =~= old(out)@ + two_digits(n as int));
    }
}

/// Appends `n` as four zero-padded digits.
fn push_four_digits(out: &mut Vec<char>, n: u64)
    ensures
        final(out)@ == old(out)@ + four_digits(n as int),
{
    out.push(dig_exec(n / 1000 % 10));
    out.push(dig_exec(n / 100 % 10));
    out.push(dig_exec(n / 10 % 10));
    out.push(dig_exec(n % 10));
    proof {
        assert(out@ =~= old(out)@ + four_digits(n as int));
    }
}

/// Guarded subtraction matching `ssub`.
fn ssub64(a: u64, b: u64) -> (r: u64)
    ensures
        r as int == ssub(a as int, b as int),
{
    if a >= b {
        a - b
    } else {
        0
    }
}

/// Division by a positive constant never exceeds the dividend.
proof fn lemma_div_le(x: int, d: int)
    requires
        0 <= x,
        1 <= d,
    ensures
        x / d <= x,
        0 <= x / d,
{
    vstd::arithmetic::div_mod::lemma_div_is_ordered_by_denominator(x, 1, d);
    vstd::arithmetic::div_mod::lemma_div_pos_is_pos(x, d);
}

/// Renders a count of seconds since the Unix epoch as an ISO-8601 UTC
/// timestamp with second precision, matching `timestamp_str`. Years are
/// rendered with four digits; a clock beyond the year 9999 wraps within
/// them, exactly as the specification states.
pub fn format_utc_timestamp(secs: u64) -> (r: String)
    ensures
        r@ == timestamp_str(secs as int),
{
    let days = secs / 86400;
    let sod = secs % 86400;
    proof {
        lemma_div_le(secs as int, 86400);
    }
    let z = days + 719468;
    let era = z / 146097;
    let doe = z % 146097;
    proof {
        lemma_div_le(z as int, 146097);
        lemma_div_le(doe as int, 36524);
        lemma_div_le(doe as int, 1460);
        lemma_div_le(doe as int, 146096);
    }
    let yoe = ssub64(doe + doe / 36524, doe / 1460 + doe / 146096) / 365;
    proof {
        lemma_div_le(ssub(
            doe as int + (doe as int) / 36524,
            (doe as int) / 1460 + (doe as int) / 146096,
        ), 365);
        assert(yoe <= 292192);
        lemma_div_le(yoe as int, 4);
        lemma_div_le(yoe as int, 100);
    }
    let y0 = yoe + era * 400;
    let inner = ssub64(365 * yoe + yoe / 4, yoe / 100);
    let doy = ssub64(doe, inner);
    let mp = (5 * doy + 2) / 153;
    proof {
        lemma_div_le(5 * (doy as int) + 2, 153);
    }
    let d = ssub64(doy, (153 * mp + 2) / 5) + 1;
    let m = if mp < 10 {
        mp + 3
    } else {
        mp - 9
    };
    let y = if m <= 2 {
        y0 + 1
    } else {
        y0
    };
    let mut out: Vec<char> = Vec::new();
    push_four_digits(&mut out, y);
    out.push('-');
    push_two_digits(&mut out, m);
    out.push('-');
    push_two_digits(&mut out, d);
    out.push('T');
    push_two_digits(&mut out, sod / 3600);
    out.push(':');
    push_two_digits(&mut out, sod % 3600 / 60);
    out.push(':');
    push_two_digits(&mut out, sod % 60);
    out.push('Z');
    proof {
        assert(out@ =~= timestamp_str(secs as int));
    }
    crate::text::chars_string(&out)
}

/// Relies on `std::time::SystemTime::now` and `duration_since`: the
/// current count of whole seconds since the Unix epoch, zero when the
/// clock reads before the epoch.
#[verifier::external_body]
fn epoch_seconds() -> u64 {
    match std::time::SystemTime::now().duration_since(std::time::SystemTime::UNIX_EPOCH) {
        Ok(d) => d.as_secs(),
        Err(_) => 0,
    }
}

// ---------------------------------------------------------------------
// The builder
// ---------------------------------------------------------------------
/// The views of `(path, html)` input pairs.
pub open spec fn page_views(pages: Seq<(String, String)>) -> Seq<(Seq<char>, Seq<char>)> {
    Seq::new(pages.len(), |i: int| (pages[i].0@, pages[i].1@))
}

/// The exclusion selectors the configuration asks for.
pub open spec fn config_sels(c: &Config) -> Seq<Seq<char>> {
    match c.parse.exclude_selectors {
        Some(v) => str_views(v@),
        None => Seq::empty(),
    }
}

/// The nodes of the whole build, one per input pair, in input order.
pub open spec fn graph_nodes(
    pagesv: Seq<(Seq<char>, Seq<char>)>,
    base: Seq<char>,
    friends: Seq<Seq<char>>,
    sels: Seq<Seq<char>>,
) -> Seq<NodeS>
    decreases pagesv.len(),
{
    if pagesv.len() == 0 {
        Seq::empty()
    } else {
        let p = pagesv.last();
        let url = file_url_spec(p.0);
        graph_nodes(pagesv.drop_last(), base, friends, sels).push(
            NodeS { url: url, title: extract_node_title(p.1, url, base, friends, sels) },
        )
    }
}

/// The edges of the whole build, each page's in first-seen order, pages in
/// input order. Edges from different pages are never merged.
pub open spec fn graph_edges(
    pagesv: Seq<(Seq<char>, Seq<char>)>,
    base: Seq<char>,
    friends: Seq<Seq<char>>,
    sels: Seq<Seq<char>>,
) -> Seq<EdgeS>
    decreases pagesv.len(),
{
    if pagesv.len() == 0 {
        Seq::empty()
    } else {
        let p = pagesv.last();
        let url = file_url_spec(p.0);
        graph_edges(pagesv.drop_last(), base, friends, sels) + extract_edges(
            p.1,
            url,
            base,
            friends,
            sels,
        )
    }
}

/// Each input pair yields exactly one node, in input order, keyed by the
/// page URL derived from its path.
pub proof fn lemma_graph_nodes_keyed(
    pagesv: Seq<(Seq<char>, Seq<char>)>,
    base: Seq<char>,
    friends: Seq<Seq<char>>,
    sels: Seq<Seq<char>>,
)
    ensures
        graph_nodes(pagesv, base, friends, sels).len() == pagesv.len(),
        forall|i: int|
            0 <= i < pagesv.len() ==> graph_nodes(pagesv, base, friends, sels)[i].url
                == file_url_spec(pagesv[i].0),
    decreases pagesv.len(),
{
    if pagesv.len() > 0 {
        lemma_graph_nodes_keyed(pagesv.drop_last(), base, friends, sels);
    }
}

/// Node uniqueness by construction: when the callers' contract holds and
/// no two input paths share a page URL, no two nodes share a URL.
pub proof fn lemma_graph_nodes_unique(
    pagesv: Seq<(Seq<char>, Seq<char>)>,
    base: Seq<char>,
    friends: Seq<Seq<char>>,
    sels: Seq<Seq<char>>,
)
    requires
        forall|i: int, j: int|
            0 <= i < j < pagesv.len() ==> file_url_spec(pagesv[i].0) != file_url_spec(
                pagesv[j].0,
            ),
    ensures
        forall|i: int, j: int|
            0 <= i < j < pagesv.len() ==> graph_nodes(pagesv, base, friends, sels)[i].url
                != graph_nodes(pagesv, base, friends, sels)[j].url,
{
    lemma_graph_nodes_keyed(pagesv, base, friends, sels);
}

/// Builds the publishable document from a filtered, ordered sequence of
/// `(relative path, HTML text)` pairs.
///
/// Each pair yields exactly one node whose URL is derived from its path;
/// callers must supply unique, HTML-filtered paths. Any extraction
/// failure aborts the whole build: there is no partial document.
#[verifier::loop_isolation(false)]
pub fn build_graph(config: &Config, pages: &Vec<(String, String)>) -> (r: Result<
    PublicFile,
    Error,
>)
    ensures
        r is Ok <==> (pages@.len() == 0 || (forall|k: int|
            0 <= k < config_sels(config).len() ==> valid_selector(config_sels(config)[k]))),
        r matches Ok(pf) ==> {
            &&& pf.version@ == protocol_version_spec()
            &&& pf.base_url@ == config.site.base_url@
            &&& pf.site.title@ == config.site.title@
            &&& pf.site.description == config.site.description
            &&& pf.site.language == config.site.language
            &&& str_views(pf.friends@) == str_views(config.friends@)
            &&& node_views(pf.nodes@) == graph_nodes(
                page_views(pages@),
                config.site.base_url@,
                str_views(config.friends@),
                config_sels(config),
            )
            &&& edge_views(pf.edges@) == graph_edges(
                page_views(pages@),
                config.site.base_url@,
                str_views(config.friends@),
                config_sels(config),
            )
            &&& (exists|t: u64| pf.generated_at@ == timestamp_str(t as int))
        },
        r matches Err(e) ==> e matches Error::HtmlParse(_),
{
    let empty_sels: Vec<String> = Vec::new();
    let sels: &Vec<String> = match &config.parse.exclude_selectors {
        Some(v) => v,
        None => &empty_sels,
    };
    proof {
        assert(str_views(sels@) =~= config_sels(config));
    }
    let ghost base = config.site.base_url@;
    let ghost friendv = str_views(config.friends@);
    let ghost selsv = config_sels(config);
    let ghost pagesv = page_views(pages@);
    let mut nodes: Vec<Node> = Vec::new();
    let mut edges: Vec<crate::model::Edge> = Vec::new();
    let mut i: usize = 0;
    proof {
        assert(node_views(nodes@) =~= graph_nodes(pagesv.take(0), base, friendv, selsv));
        assert(edge_views(edges@) =~= graph_edges(pagesv.take(0), base, friendv, selsv));
    }
    while i < pages.len()
        invariant
            i <= pages@.len(),
            node_views(nodes@) == graph_nodes(pagesv.take(i as int), base, friendv, selsv),
            edge_views(edges@) == graph_edges(pagesv.take(i as int), base, friendv, selsv),
            i > 0 ==> (forall|k: int| 0 <= k < selsv.len() ==> valid_selector(selsv[k])),
        decreases pages.len() - i,
    {
        let url = file_path_to_url(pages[i].0.as_str());
        let (node, mut page_edges) = match extract_page(
            pages[i].1.as_str(),
            url.as_str(),
            config.site.base_url.as_str(),
            &config.friends,
            sels,
        ) {
            Ok(ne) => ne,
            Err(e) => {
                return Err(e);
            },
        };
        let ghost nodes_before = node_views(nodes@);
        let ghost edges_before = edge_views(edges@);
        nodes.push(node);
        edges.append(&mut page_edges);
        proof {
            assert(pagesv[i as int] == (pages@[i as int].0@, pages@[i as int].1@));
            assert(pagesv.take(i + 1 as int).drop_last() =~= pagesv.take(i as int));
            assert(pagesv.take(i + 1 as int).last() == pagesv[i as int]);
            assert(node_views(nodes@) =~= nodes_before.push(node@));
            assert(node_views(nodes@) =~= graph_nodes(pagesv.take(i + 1 as int), base, friendv,
                selsv));
            assert(edge_views(edges@) =~= edges_before + extract_edges(
                pages@[i as int].1@,
                url@,
                base,
                friendv,
                selsv,
            ));
            assert(edge_views(edges@) =~= graph_edges(pagesv.take(i + 1 as int), base, friendv,
                selsv));
        }
        i = i + 1;
    }
    proof {
        assert(pagesv.take(pagesv.len() as int) =~= pagesv);
    }
    let secs = epoch_seconds();
    let generated_at = format_utc_timestamp(secs);
    let version = protocol_version().to_owned();
    let description: Option<String> = match &config.site.description {
        Some(s) => Some(s.clone()),
        None => None,
    };
    let language: Option<String> = match &config.site.language {
        Some(s) => Some(s.clone()),
        None => None,
    };
    let pf = PublicFile {
        version,
        generated_at,
        base_url: config.site.base_url.clone(),
        site: SiteMetadata { title: config.site.title.clone(), description, language },
        friends: crate::text::clone_strings(&config.friends),
        nodes,
        edges,
    };
    proof {
        assert(pf.generated_at@ == timestamp_str(secs as int));
    }
    Ok(pf)
}

} // verus!
