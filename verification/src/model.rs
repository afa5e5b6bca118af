//! The published link-graph document and its parts.

use vstd::prelude::*;

verus! {

/// The protocol version carried in every published document.
pub open spec fn protocol_version_spec() -> Seq<char> {
    seq!['0', '.', '1', '.', '0']
}

/// Returns the protocol version string.
pub fn protocol_version() -> (r: &'static str)
    ensures
        r@ == protocol_version_spec(),
{
    let r = "0.1.0";
    proof {
        reveal_strlit("0.1.0");
        assert(r@ =~= protocol_version_spec());
    }
    r
}

/// Whether an edge stays on the site or leads to an allow-listed peer.
#[derive(Debug, Clone, Copy, PartialEq, Eq, Structural)]
pub enum EdgeType {
    Internal,
    Friend,
}

/// One page of the site's own graph, keyed by its canonical URL.
#[derive(Debug, Clone, PartialEq, Eq)]
pub struct Node {
    pub url: String,
    pub title: String,
}

/// The mathematical value of a [`Node`].
pub struct NodeS {
    pub url: Seq<char>,
    pub title: Seq<char>,
}

impl View for Node {
    type V = NodeS;

    open spec fn view(&self) -> NodeS {
        NodeS { url: self.url@, title: self.title@ }
    }
}

/// One outgoing link from a page.
#[derive(Debug, Clone, PartialEq, Eq)]
pub struct Edge {
    pub source: String,
    pub target: String,
    pub edge_type: EdgeType,
}

/// The mathematical value of an [`Edge`].
pub struct EdgeS {
    pub source: Seq<char>,
    pub target: Seq<char>,
    pub edge_type: EdgeType,
}

impl View for Edge {
    type V = EdgeS;

    open spec fn view(&self) -> EdgeS {
        EdgeS { source: self.source@, target: self.target@, edge_type: self.edge_type }
    }
}

/// Site-wide metadata copied through from the configuration.
#[derive(Debug, Clone, PartialEq, Eq)]
pub struct SiteMetadata {
    pub title: String,
    pub description: Option<String>,
    pub language: Option<String>,
}

/// The document published at the site root for other tooling to consume.
#[derive(Debug, Clone, PartialEq, Eq)]
pub struct PublicFile {
    pub version: String,
    pub generated_at: String,
    pub base_url: String,
    pub site: SiteMetadata,
    pub friends: Vec<String>,
    pub nodes: Vec<Node>,
    pub edges: Vec<Edge>,
}

/// The shared shape of one site's graph inside a compiled document.
#[derive(Debug, Clone, PartialEq, Eq)]
pub struct SiteGraph {
    pub base_url: String,
    pub site: SiteMetadata,
    pub nodes: Vec<Node>,
    pub edges: Vec<Edge>,
}

/// A compiled document merging the site's own graph with its friends'.
#[derive(Debug, Clone, PartialEq, Eq)]
pub struct CompiledFile {
    pub version: String,
    pub compiled_at: String,
    pub self_graph: SiteGraph,
    pub friends: Vec<SiteGraph>,
}

/// The views of a sequence of nodes.
pub open spec fn node_views(v: Seq<Node>) -> Seq<NodeS> {
    Seq::new(v.len(), |i: int| v[i]@)
}

/// The views of a sequence of edges.
pub open spec fn edge_views(v: Seq<Edge>) -> Seq<EdgeS> {
    Seq::new(v.len(), |i: int| v[i]@)
}

} // verus!
