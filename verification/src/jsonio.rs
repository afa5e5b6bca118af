//! JSON intake of a remote published document.
//!
//! Deserialization mechanics are an external collaborator: `serde_json`
//! parses the text into a tree, and a verified walk reads the tree into
//! the library's own [`PublicFile`], rejecting a document whose shape does
//! not match the protocol. The tree is modelled by the spec datatype
//! [`JsonS`]: the collaborator's reading of a text is named `json_of`, the
//! model of one parsed value `val_model`, and every accessor's contract
//! speaks over that model. On those names the intake owes success: it
//! returns `Ok` exactly when the text parses and has the protocol's shape,
//! and every field of the result is pinned to the model.

use vstd::prelude::*;

use crate::error::Error;
use crate::model::{
    edge_views, node_views, Edge, EdgeS, EdgeType, Node, NodeS, PublicFile, SiteMetadata,
};
use crate::text::{str_eq, str_views};

verus! {

use vstd::string::StringExecFns;

/// The mathematical value of a JSON tree. Numbers carry no payload: the
/// protocol reads none, so the model does not distinguish them.
pub enum JsonS {
    Null,
    Bool(bool),
    Num,
    Str(Seq<char>),
    Arr(Seq<JsonS>),
    Obj(Map<Seq<char>, JsonS>),
}

/// The model of one parsed `serde_json` value.
pub uninterp spec fn val_model(v: serde_json::Value) -> JsonS;

/// The JSON collaborator's reading of a text: the model of the tree it
/// parses, or nothing when it rejects the text.
pub uninterp spec fn json_of(text: Seq<char>) -> Option<JsonS>;

/// The model a text reads as, `Null` when it does not parse.
pub open spec fn model_of(text: Seq<char>) -> JsonS {
    match json_of(text) {
        Some(m) => m,
        None => JsonS::Null,
    }
}

#[verifier::external_type_specification]
#[verifier::external_body]
pub struct ExValue(serde_json::Value);

/// Relies on `serde_json::from_str::<Value>`: parses JSON text into a
/// value tree, or reports why the text is not JSON. The parse depends on
/// the text alone, so acceptance and the resulting tree go by `json_of`.
#[verifier::external_body]
fn json_parse(text: &str) -> (r: Result<serde_json::Value, String>)
    ensures
        r matches Ok(v) ==> json_of(text@) == Some(val_model(v)),
        r is Err <==> json_of(text@) is None,
{
    match serde_json::from_str::<serde_json::Value>(text) {
        Ok(v) => Ok(v),
        Err(e) => Err(e.to_string()),
    }
}

/// Relies on `serde_json::Value::get`: looks a key up in a JSON object,
/// `None` for a missing key or a non-object.
#[verifier::external_body]
fn obj_get<'a>(v: &'a serde_json::Value, key: &str) -> (r: Option<&'a serde_json::Value>)
    ensures
        match r {
            Some(x) => obj_field(val_model(*v), key@) == Some(val_model(*x)),
            None => obj_field(val_model(*v), key@) is None,
        },
{
    v.get(key)
}

/// Relies on `serde_json::Value::as_str`: the content of a JSON string,
/// `None` for every other kind of value.
#[verifier::external_body]
fn val_str(v: &serde_json::Value) -> (r: Option<String>)
    ensures
        match r {
            Some(s) => val_model(*v) == JsonS::Str(s@),
            None => !(val_model(*v) is Str),
        },
{
    match v.as_str() {
        Some(s) => Some(s.to_owned()),
        None => None,
    }
}

/// Relies on `serde_json::Value::as_array`: the elements of a JSON array,
/// `None` for every other kind of value.
#[verifier::external_body]
fn val_array<'a>(v: &'a serde_json::Value) -> (r: Option<&'a Vec<serde_json::Value>>)
    ensures
        match r {
            Some(arr) => val_model(*v) matches JsonS::Arr(es) && es.len() == arr@.len() && (forall|
                i: int,
            |
                0 <= i < es.len() ==> es[i] == val_model(#[trigger] arr@[i])),
            None => !(val_model(*v) is Arr),
        },
{
    v.as_array()
}

/// Relies on `serde_json::Value::is_null`.
#[verifier::external_body]
fn val_is_null(v: &serde_json::Value) -> (r: bool)
    ensures
        r == (val_model(*v) is Null),
{
    v.is_null()
}

// ---------------------------------------------------------------------
// The protocol's shape over the model
// ---------------------------------------------------------------------
/// The field `k` of an object model; nothing for other kinds of value.
pub open spec fn obj_field(m: JsonS, k: Seq<char>) -> Option<JsonS> {
    match m {
        JsonS::Obj(f) => if f.contains_key(k) {
            Some(f[k])
        } else {
            None
        },
        _ => None,
    }
}

/// The string content of field `k`; nothing when absent or not a string.
pub open spec fn str_field(m: JsonS, k: Seq<char>) -> Option<Seq<char>> {
    match obj_field(m, k) {
        Some(JsonS::Str(t)) => Some(t),
        _ => None,
    }
}

/// The content of a string model; empty for other kinds of value.
pub open spec fn as_str(e: JsonS) -> Seq<char> {
    match e {
        JsonS::Str(t) => t,
        _ => Seq::empty(),
    }
}

/// An optional string field is acceptable when absent, `null`, or a string.
pub open spec fn opt_str_ok(m: JsonS, k: Seq<char>) -> bool {
    match obj_field(m, k) {
        None => true,
        Some(JsonS::Null) => true,
        Some(JsonS::Str(_)) => true,
        Some(_) => false,
    }
}

/// The `site` object of a document model, `Null` when absent.
pub open spec fn site_of(m: JsonS) -> JsonS {
    match obj_field(m, "site"@) {
        Some(s) => s,
        None => JsonS::Null,
    }
}

/// One node entry: `url` and `title` strings.
pub open spec fn node_ok(e: JsonS) -> bool {
    str_field(e, "url"@) is Some && str_field(e, "title"@) is Some
}

/// One edge entry: `source`, `target`, and a `type` of `internal` or
/// `friend`.
pub open spec fn edge_ok(e: JsonS) -> bool {
    &&& str_field(e, "source"@) is Some
    &&& str_field(e, "target"@) is Some
    &&& (str_field(e, "type"@) matches Some(t) && (t == "internal"@ || t == "friend"@))
}

/// The `friends` list is acceptable when absent or an array of strings.
pub open spec fn friends_ok(m: JsonS) -> bool {
    match obj_field(m, "friends"@) {
        None => true,
        Some(JsonS::Arr(es)) => forall|i: int| 0 <= i < es.len() ==> es[i] is Str,
        Some(_) => false,
    }
}

/// The `nodes` list: a required array of acceptable node entries.
pub open spec fn nodes_ok(m: JsonS) -> bool {
    obj_field(m, "nodes"@) matches Some(n) && (n matches JsonS::Arr(es) && (forall|i: int|
        0 <= i < es.len() ==> node_ok(#[trigger] es[i])))
}

/// The `edges` list: a required array of acceptable edge entries.
pub open spec fn edges_ok(m: JsonS) -> bool {
    obj_field(m, "edges"@) matches Some(n) && (n matches JsonS::Arr(es) && (forall|i: int|
        0 <= i < es.len() ==> edge_ok(#[trigger] es[i])))
}

/// A model with the published document's shape.
pub open spec fn doc_shape_ok(m: JsonS) -> bool {
    &&& str_field(m, "version"@) is Some
    &&& str_field(m, "generated_at"@) is Some
    &&& str_field(m, "base_url"@) is Some
    &&& obj_field(m, "site"@) is Some
    &&& str_field(site_of(m), "title"@) is Some
    &&& opt_str_ok(site_of(m), "description"@)
    &&& opt_str_ok(site_of(m), "language"@)
    &&& friends_ok(m)
    &&& nodes_ok(m)
    &&& edges_ok(m)
}

/// A text that parses and has the published document's shape.
pub open spec fn public_file_ok(text: Seq<char>) -> bool {
    json_of(text) matches Some(m) && doc_shape_ok(m)
}

/// The string value of field `k`, empty when missing.
pub open spec fn str_field_v(m: JsonS, k: Seq<char>) -> Seq<char> {
    match str_field(m, k) {
        Some(t) => t,
        None => Seq::empty(),
    }
}

/// The document's version.
pub open spec fn doc_version(m: JsonS) -> Seq<char> {
    str_field_v(m, "version"@)
}

/// The document's generation timestamp.
pub open spec fn doc_generated_at(m: JsonS) -> Seq<char> {
    str_field_v(m, "generated_at"@)
}

/// The document's base URL.
pub open spec fn doc_base_url(m: JsonS) -> Seq<char> {
    str_field_v(m, "base_url"@)
}

/// The document's site title.
pub open spec fn doc_title(m: JsonS) -> Seq<char> {
    str_field_v(site_of(m), "title"@)
}

/// The document's site description; absent and `null` both read as none.
pub open spec fn doc_description(m: JsonS) -> Option<Seq<char>> {
    str_field(site_of(m), "description"@)
}

/// The document's site language; absent and `null` both read as none.
pub open spec fn doc_language(m: JsonS) -> Option<Seq<char>> {
    str_field(site_of(m), "language"@)
}

/// The document's friends list; absent reads as empty.
pub open spec fn doc_friends(m: JsonS) -> Seq<Seq<char>> {
    match obj_field(m, "friends"@) {
        Some(JsonS::Arr(es)) => Seq::new(es.len(), |i: int| as_str(es[i])),
        _ => Seq::empty(),
    }
}

/// The document's nodes.
pub open spec fn doc_nodes(m: JsonS) -> Seq<NodeS> {
    match obj_field(m, "nodes"@) {
        Some(JsonS::Arr(es)) => Seq::new(
            es.len(),
            |i: int|
                NodeS {
                    url: str_field_v(es[i], "url"@),
                    title: str_field_v(es[i], "title"@),
                },
        ),
        _ => Seq::empty(),
    }
}

/// The document's edges.
pub open spec fn doc_edges(m: JsonS) -> Seq<EdgeS> {
    match obj_field(m, "edges"@) {
        Some(JsonS::Arr(es)) => Seq::new(
            es.len(),
            |i: int|
                EdgeS {
                    source: str_field_v(es[i], "source"@),
                    target: str_field_v(es[i], "target"@),
                    edge_type: if str_field(es[i], "type"@) == Some("internal"@) {
                        EdgeType::Internal
                    } else {
                        EdgeType::Friend
                    },
                },
        ),
        _ => Seq::empty(),
    }
}

// ---------------------------------------------------------------------
// The verified walk
// ---------------------------------------------------------------------
/// The error reported when a field is missing or has the wrong type.
fn shape_error(field: &str) -> (r: Error)
    ensures
        r matches Error::JsonDeserialize(m) && m@ == "missing or invalid field '"@ + field@
            + "'"@,
{
    let mut m = String::from_str("missing or invalid field '");
    m.append(field);
    m.append("'");
    Error::JsonDeserialize(m)
}

/// Reads a required string field of a JSON object.
fn get_string(v: &serde_json::Value, key: &str) -> (r: Option<String>)
    ensures
        match r {
            Some(s) => str_field(val_model(*v), key@) == Some(s@),
            None => str_field(val_model(*v), key@) is None,
        },
{
    match obj_get(v, key) {
        Some(x) => val_str(x),
        None => None,
    }
}

/// Reads an optional string field: absent or `null` is `None`.
fn get_opt_string(v: &serde_json::Value, key: &str) -> (r: Result<Option<String>, Error>)
    ensures
        r is Ok <==> opt_str_ok(val_model(*v), key@),
        r matches Ok(o) ==> (match o {
            Some(s) => str_field(val_model(*v), key@) == Some(s@),
            None => str_field(val_model(*v), key@) is None,
        }),
        r matches Err(e) ==> e matches Error::JsonDeserialize(_),
{
    match obj_get(v, key) {
        None => Ok(None),
        Some(x) => {
            if val_is_null(x) {
                Ok(None)
            } else {
                match val_str(x) {
                    Some(s) => Ok(Some(s)),
                    None => Err(shape_error(key)),
                }
            }
        },
    }
}

/// Reads the document's friends list; an absent list defaults to empty.
#[verifier::loop_isolation(false)]
fn read_friends(v: &serde_json::Value) -> (r: Result<Vec<String>, Error>)
    ensures
        r is Ok <==> friends_ok(val_model(*v)),
        r matches Ok(f) ==> str_views(f@) == doc_friends(val_model(*v)),
        r matches Err(e) ==> e matches Error::JsonDeserialize(_),
{
    let ghost m = val_model(*v);
    let arr = match obj_get(v, "friends") {
        None => {
            let empty: Vec<String> = Vec::new();
            proof {
                assert(str_views(empty@) =~= doc_friends(m));
            }
            return Ok(empty);
        },
        Some(x) => match val_array(x) {
            Some(a) => a,
            None => {
                return Err(shape_error("friends"));
            },
        },
    };
    let ghost es = obj_field(m, "friends"@)->0->Arr_0;
    let mut friends: Vec<String> = Vec::new();
    let mut i: usize = 0;
    while i < arr.len()
        invariant
            i <= arr@.len(),
            forall|j: int| 0 <= j < i ==> es[j] is Str,
            str_views(friends@).len() == i,
            forall|j: int| 0 <= j < i ==> str_views(friends@)[j] == as_str(es[j]),
        decreases arr.len() - i,
    {
        match val_str(&arr[i]) {
            Some(s) => {
                proof {
                    assert(val_model(arr@[i as int]) == es[i as int]);
                }
                let ghost before = friends@;
                proof {
                    assert(before.len() == i);
                }
                friends.push(s);
                proof {
                    assert forall|j: int| 0 <= j < i + 1 implies str_views(friends@)[j] == as_str(
                        es[j],
                    ) by {
                        if j < i {
                            assert(friends@[j] == before[j]);
                            assert(str_views(before)[j] == as_str(es[j]));
                        } else {
                            assert(friends@[j] == before.push(s)[j]);
                        }
                    }
                }
            },
            None => {
                proof {
                    assert(!(es[i as int] is Str));
                }
                return Err(shape_error("friends"));
            },
        }
        i = i + 1;
    }
    proof {
        assert(str_views(friends@) =~= doc_friends(m));
    }
    Ok(friends)
}

/// Reads the document's nodes.
#[verifier::loop_isolation(false)]
fn read_nodes(v: &serde_json::Value) -> (r: Result<Vec<Node>, Error>)
    ensures
        r is Ok <==> nodes_ok(val_model(*v)),
        r matches Ok(ns) ==> node_views(ns@) == doc_nodes(val_model(*v)),
        r matches Err(e) ==> e matches Error::JsonDeserialize(_),
{
    let ghost m = val_model(*v);
    let arr = match obj_get(v, "nodes") {
        Some(x) => match val_array(x) {
            Some(a) => a,
            None => {
                return Err(shape_error("nodes"));
            },
        },
        None => {
            return Err(shape_error("nodes"));
        },
    };
    let ghost es = obj_field(m, "nodes"@)->0->Arr_0;
    let mut nodes: Vec<Node> = Vec::new();
    let mut i: usize = 0;
    while i < arr.len()
        invariant
            i <= arr@.len(),
            forall|j: int| 0 <= j < i ==> node_ok(#[trigger] es[j]),
            node_views(nodes@).len() == i,
            forall|j: int|
                0 <= j < i ==> node_views(nodes@)[j] == (NodeS {
                    url: str_field_v(es[j], "url"@),
                    title: str_field_v(es[j], "title"@),
                }),
        decreases arr.len() - i,
    {
        proof {
            assert(val_model(arr@[i as int]) == es[i as int]);
        }
        let url = match get_string(&arr[i], "url") {
            Some(s) => s,
            None => {
                return Err(shape_error("url"));
            },
        };
        let title = match get_string(&arr[i], "title") {
            Some(s) => s,
            None => {
                return Err(shape_error("title"));
            },
        };
        let ghost before = nodes@;
        proof {
            assert(before.len() == i);
        }
        let node = Node { url, title };
        nodes.push(node);
        proof {
            assert forall|j: int|
                0 <= j < i + 1 implies node_views(nodes@)[j] == (NodeS {
                url: str_field_v(es[j], "url"@),
                title: str_field_v(es[j], "title"@),
            }) by {
                if j < i {
                    assert(nodes@[j] == before[j]);
                    assert(node_views(before)[j] == (NodeS {
                        url: str_field_v(es[j], "url"@),
                        title: str_field_v(es[j], "title"@),
                    }));
                } else {
                    assert(nodes@[j] == before.push(node)[j]);
                }
            }
        }
        i = i + 1;
    }
    proof {
        assert(node_views(nodes@) =~= doc_nodes(m));
    }
    Ok(nodes)
}

/// Reads the document's edges.
#[verifier::loop_isolation(false)]
fn read_edges(v: &serde_json::Value) -> (r: Result<Vec<Edge>, Error>)
    ensures
        r is Ok <==> edges_ok(val_model(*v)),
        r matches Ok(eds) ==> edge_views(eds@) == doc_edges(val_model(*v)),
        r matches Err(e) ==> e matches Error::JsonDeserialize(_),
{
    let ghost m = val_model(*v);
    let arr = match obj_get(v, "edges") {
        Some(x) => match val_array(x) {
            Some(a) => a,
            None => {
                return Err(shape_error("edges"));
            },
        },
        None => {
            return Err(shape_error("edges"));
        },
    };
    let ghost es = obj_field(m, "edges"@)->0->Arr_0;
    let mut edges: Vec<Edge> = Vec::new();
    let mut i: usize = 0;
    while i < arr.len()
        invariant
            i <= arr@.len(),
            forall|j: int| 0 <= j < i ==> edge_ok(#[trigger] es[j]),
            edge_views(edges@).len() == i,
            forall|j: int|
                0 <= j < i ==> edge_views(edges@)[j] == (EdgeS {
                    source: str_field_v(es[j], "source"@),
                    target: str_field_v(es[j], "target"@),
                    edge_type: if str_field(es[j], "type"@) == Some("internal"@) {
                        EdgeType::Internal
                    } else {
                        EdgeType::Friend
                    },
                }),
        decreases arr.len() - i,
    {
        proof {
            assert(val_model(arr@[i as int]) == es[i as int]);
        }
        let source = match get_string(&arr[i], "source") {
            Some(s) => s,
            None => {
                return Err(shape_error("source"));
            },
        };
        let target = match get_string(&arr[i], "target") {
            Some(s) => s,
            None => {
                return Err(shape_error("target"));
            },
        };
        let kind = match get_string(&arr[i], "type") {
            Some(s) => s,
            None => {
                return Err(shape_error("type"));
            },
        };
        let edge_type = if str_eq(kind.as_str(), "internal") {
            EdgeType::Internal
        } else if str_eq(kind.as_str(), "friend") {
            proof {
                reveal_strlit("internal");
                reveal_strlit("friend");
                assert(kind@ != "internal"@);
            }
            EdgeType::Friend
        } else {
            return Err(shape_error("type"));
        };
        let ghost before = edges@;
        proof {
            assert(before.len() == i);
        }
        let edge = Edge { source, target, edge_type };
        edges.push(edge);
        proof {
            assert forall|j: int|
                0 <= j < i + 1 implies edge_views(edges@)[j] == (EdgeS {
                source: str_field_v(es[j], "source"@),
                target: str_field_v(es[j], "target"@),
                edge_type: if str_field(es[j], "type"@) == Some("internal"@) {
                    EdgeType::Internal
                } else {
                    EdgeType::Friend
                },
            }) by {
                if j < i {
                    assert(edges@[j] == before[j]);
                    assert(edge_views(before)[j] == (EdgeS {
                        source: str_field_v(es[j], "source"@),
                        target: str_field_v(es[j], "target"@),
                        edge_type: if str_field(es[j], "type"@) == Some("internal"@) {
                            EdgeType::Internal
                        } else {
                            EdgeType::Friend
                        },
                    }));
                } else {
                    assert(edges@[j] == before.push(edge)[j]);
                }
            }
        }
        i = i + 1;
    }
    proof {
        assert(edge_views(edges@) =~= doc_edges(m));
    }
    Ok(edges)
}

impl PublicFile {
    /// Deserializes a published document from JSON text.
    ///
    /// The text is parsed by the external JSON collaborator and the tree
    /// read field by field: the result is `Ok` exactly when the text
    /// parses and has the protocol's shape, and then every field of the
    /// document equals the corresponding piece of the model. An absent
    /// `friends` list reads as empty; absent or `null` optional site
    /// fields read as `None`; every failure is a `JsonDeserialize` error.
    pub fn from_json(s: &str) -> (r: Result<PublicFile, Error>)
        ensures
            r is Ok <==> public_file_ok(s@),
            r matches Err(e) ==> e matches Error::JsonDeserialize(_),
            r matches Ok(pf) ==> ({
                let m = model_of(s@);
                &&& pf.version@ == doc_version(m)
                &&& pf.generated_at@ == doc_generated_at(m)
                &&& pf.base_url@ == doc_base_url(m)
                &&& pf.site.title@ == doc_title(m)
                &&& (match pf.site.description {
                    Some(d) => doc_description(m) == Some(d@),
                    None => doc_description(m) is None,
                })
                &&& (match pf.site.language {
                    Some(l) => doc_language(m) == Some(l@),
                    None => doc_language(m) is None,
                })
                &&& str_views(pf.friends@) == doc_friends(m)
                &&& node_views(pf.nodes@) == doc_nodes(m)
                &&& edge_views(pf.edges@) == doc_edges(m)
            }),
    {
        let v = match json_parse(s) {
            Ok(v) => v,
            Err(m) => {
                return Err(Error::JsonDeserialize(m));
            },
        };
        let ghost m = val_model(v);
        proof {
            assert(model_of(s@) == m);
        }
        let version = match get_string(&v, "version") {
            Some(s) => s,
            None => {
                return Err(shape_error("version"));
            },
        };
        let generated_at = match get_string(&v, "generated_at") {
            Some(s) => s,
            None => {
                return Err(shape_error("generated_at"));
            },
        };
        let base_url = match get_string(&v, "base_url") {
            Some(s) => s,
            None => {
                return Err(shape_error("base_url"));
            },
        };
        let site_v = match obj_get(&v, "site") {
            Some(x) => x,
            None => {
                return Err(shape_error("site"));
            },
        };
        proof {
            assert(val_model(*site_v) == site_of(m));
        }
        let title = match get_string(site_v, "title") {
            Some(s) => s,
            None => {
                return Err(shape_error("title"));
            },
        };
        let description = match get_opt_string(site_v, "description") {
            Ok(d) => d,
            Err(e) => {
                return Err(e);
            },
        };
        let language = match get_opt_string(site_v, "language") {
            Ok(l) => l,
            Err(e) => {
                return Err(e);
            },
        };
        let friends = match read_friends(&v) {
            Ok(f) => f,
            Err(e) => {
                return Err(e);
            },
        };
        let nodes = match read_nodes(&v) {
            Ok(n) => n,
            Err(e) => {
                return Err(e);
            },
        };
        let edges = match read_edges(&v) {
            Ok(eds) => eds,
            Err(e) => {
                return Err(e);
            },
        };
        Ok(
            PublicFile {
                version,
                generated_at,
                base_url,
                site: SiteMetadata { title, description, language },
                friends,
                nodes,
                edges,
            },
        )
    }
}

} // verus!
