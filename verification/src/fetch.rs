//! The friend synchronization cache.
//!
//! A friend's published document carries a generation timestamp. The cache
//! records, per document URL, the last timestamp seen; checking a freshly
//! fetched document against the cache reports either that nothing changed
//! or that the document is fresh, updating the record. The cache is a
//! fingerprint only: it trusts the remote's self-reported timestamp.

use vstd::prelude::*;

use crate::error::Error;
use crate::model::PublicFile;
use crate::text::str_eq;

verus! {

use vstd::string::StringExecFns;

/// Outcome of checking a fetched document against the cache.
#[derive(Debug)]
pub enum FetchOutcome {
    /// The remote document is new or changed; it is handed back.
    Fresh(PublicFile),
    /// The cached timestamp matches; nothing needs reprocessing.
    Cached,
}

/// The views of the cache's entries.
pub open spec fn entry_views(s: Seq<(String, String)>) -> Seq<(Seq<char>, Seq<char>)> {
    Seq::new(s.len(), |i: int| (s[i].0@, s[i].1@))
}

/// The timestamp recorded for `url`: the first entry with that key.
pub open spec fn lookup(entries: Seq<(Seq<char>, Seq<char>)>, url: Seq<char>) -> Option<Seq<char>>
    decreases entries.len(),
{
    if entries.len() == 0 {
        None
    } else if entries[0].0 == url {
        Some(entries[0].1)
    } else {
        lookup(entries.drop_first(), url)
    }
}

/// In-memory cache mapping each friend document URL to the last-seen
/// generation timestamp. Loading from and saving to disk is a caller's
/// concern; this type defines the comparison semantics.
#[derive(Debug, Clone)]
pub struct FetchCache {
    entries: Vec<(String, String)>,
}

impl View for FetchCache {
    type V = Seq<(Seq<char>, Seq<char>)>;

    closed spec fn view(&self) -> Seq<(Seq<char>, Seq<char>)> {
        entry_views(self.entries@)
    }
}

/// When no entry holds the key the lookup misses.
proof fn lemma_lookup_none(sv: Seq<(Seq<char>, Seq<char>)>, url: Seq<char>)
    requires
        forall|j: int| 0 <= j < sv.len() ==> sv[j].0 != url,
    ensures
        lookup(sv, url) is None,
    decreases sv.len(),
{
    if sv.len() > 0 {
        lemma_lookup_none(sv.drop_first(), url);
    }
}

/// The first entry holding the key decides the lookup.
proof fn lemma_lookup_first(sv: Seq<(Seq<char>, Seq<char>)>, url: Seq<char>, i: int)
    requires
        0 <= i < sv.len(),
        sv[i].0 == url,
        forall|j: int| 0 <= j < i ==> sv[j].0 != url,
    ensures
        lookup(sv, url) == Some(sv[i].1),
    decreases i,
{
    if i > 0 {
        lemma_lookup_first(sv.drop_first(), url, i - 1);
    }
}

/// Overwriting the first entry holding the key updates that key's lookup
/// and no other.
proof fn lemma_lookup_update(
    sv: Seq<(Seq<char>, Seq<char>)>,
    i: int,
    url: Seq<char>,
    t: Seq<char>,
)
    requires
        0 <= i < sv.len(),
        sv[i].0 == url,
        forall|j: int| 0 <= j < i ==> sv[j].0 != url,
    ensures
        lookup(sv.update(i, (url, t)), url) == Some(t),
        forall|k: Seq<char>| k != url ==> lookup(sv.update(i, (url, t)), k) == lookup(sv, k),
    decreases i,
{
    let sv2 = sv.update(i, (url, t));
    if i == 0 {
        assert(sv2[0] == (url, t));
        assert(sv2.drop_first() =~= sv.drop_first());
        assert forall|k: Seq<char>| k != url implies lookup(sv2, k) == lookup(sv, k) by {
            assert(sv[0].0 == url);
            assert(lookup(sv2, k) == lookup(sv2.drop_first(), k));
            assert(lookup(sv, k) == lookup(sv.drop_first(), k));
        }
    } else {
        lemma_lookup_update(sv.drop_first(), i - 1, url, t);
        assert(sv2.drop_first() =~= sv.drop_first().update(i - 1, (url, t)));
        assert(sv2[0] == sv[0]);
        assert(sv[0].0 != url);
        assert(lookup(sv2, url) == lookup(sv2.drop_first(), url));
        assert forall|k: Seq<char>| k != url implies lookup(sv2, k) == lookup(sv, k) by {
            if sv[0].0 == k {
                assert(lookup(sv2, k) == Some(sv2[0].1));
                assert(lookup(sv, k) == Some(sv[0].1));
            } else {
                assert(lookup(sv2, k) == lookup(sv2.drop_first(), k));
                assert(lookup(sv, k) == lookup(sv.drop_first(), k));
            }
        }
    }
}

/// Appending an entry for a key no entry holds sets that key's lookup and
/// no other.
proof fn lemma_lookup_push(sv: Seq<(Seq<char>, Seq<char>)>, url: Seq<char>, t: Seq<char>)
    requires
        forall|j: int| 0 <= j < sv.len() ==> sv[j].0 != url,
    ensures
        lookup(sv.push((url, t)), url) == Some(t),
        forall|k: Seq<char>| k != url ==> lookup(sv.push((url, t)), k) == lookup(sv, k),
    decreases sv.len(),
{
    let sv2 = sv.push((url, t));
    if sv.len() == 0 {
        assert(sv2[0] == (url, t));
        assert forall|k: Seq<char>| k != url implies lookup(sv2, k) == lookup(sv, k) by {
            assert(sv2.drop_first() =~= Seq::<(Seq<char>, Seq<char>)>::empty());
            assert(lookup(sv2, k) == lookup(sv2.drop_first(), k));
            assert(lookup(sv2.drop_first(), k) is None) by {
                lemma_lookup_none(sv2.drop_first(), k);
            }
        }
    } else {
        lemma_lookup_push(sv.drop_first(), url, t);
        assert(sv2.drop_first() =~= sv.drop_first().push((url, t)));
        assert(sv2[0] == sv[0]);
        assert(lookup(sv2, url) == lookup(sv2.drop_first(), url));
        assert forall|k: Seq<char>| k != url implies lookup(sv2, k) == lookup(sv, k) by {
            if sv[0].0 == k {
                assert(lookup(sv2, k) == Some(sv2[0].1));
                assert(lookup(sv, k) == Some(sv[0].1));
            } else {
                assert(lookup(sv2, k) == lookup(sv2.drop_first(), k));
                assert(lookup(sv, k) == lookup(sv.drop_first(), k));
            }
        }
    }
}

impl FetchCache {
    /// Creates an empty cache.
    pub fn new() -> (r: FetchCache)
        ensures
            r@ == Seq::<(Seq<char>, Seq<char>)>::empty(),
    {
        let r = FetchCache { entries: Vec::new() };
        proof {
            assert(r@ =~= Seq::<(Seq<char>, Seq<char>)>::empty());
        }
        r
    }

    /// Builds a cache from `(url, generated_at)` pairs; should a URL be
    /// duplicated, the first entry wins, matching `lookup`.
    pub fn from_entries(entries: Vec<(String, String)>) -> (r: FetchCache)
        ensures
            r@ == entry_views(entries@),
    {
        FetchCache { entries }
    }

    /// The entries as `(url, generated_at)` pairs, for persisting.
    pub fn entries_list(&self) -> (r: &Vec<(String, String)>)
        ensures
            entry_views(r@) == self@,
    {
        &self.entries
    }

    /// The timestamp recorded for a URL, if any.
    pub fn get(&self, url: &str) -> (r: Option<&String>)
        ensures
            match r {
                Some(v) => lookup(self@, url@) == Some(v@),
                None => lookup(self@, url@) is None,
            },
    {
        let mut i: usize = 0;
        while i < self.entries.len()
            invariant
                i <= self.entries@.len(),
                forall|j: int| 0 <= j < i ==> entry_views(self.entries@)[j].0 != url@,
            decreases self.entries.len() - i,
        {
            if str_eq(self.entries[i].0.as_str(), url) {
                proof {
                    lemma_lookup_first(entry_views(self.entries@), url@, i as int);
                }
                return Some(&self.entries[i].1);
            }
            i = i + 1;
        }
        proof {
            lemma_lookup_none(entry_views(self.entries@), url@);
        }
        None
    }
}

impl Default for FetchCache {
    /// An empty cache.
    fn default() -> (r: FetchCache)
        ensures
            r@ == Seq::<(Seq<char>, Seq<char>)>::empty(),
    {
        FetchCache::new()
    }
}

/// What checking one document against the cache guarantees: a matching
/// recorded timestamp reports `Cached` and leaves the cache untouched;
/// anything else reports the document `Fresh` and records its timestamp
/// under the URL, every other record unchanged.
pub open spec fn check_post(
    oldc: Seq<(Seq<char>, Seq<char>)>,
    url: Seq<char>,
    doc: PublicFile,
    r: FetchOutcome,
    newc: Seq<(Seq<char>, Seq<char>)>,
) -> bool {
    if lookup(oldc, url) == Some(doc.generated_at@) {
        &&& r is Cached
        &&& newc == oldc
    } else {
        &&& (r matches FetchOutcome::Fresh(d) && d == doc)
        &&& lookup(newc, url) == Some(doc.generated_at@)
        &&& forall|k: Seq<char>| k != url ==> lookup(newc, k) == lookup(oldc, k)
    }
}

/// Checks a deserialized document against the cache.
///
/// On first sight of a URL the document is always fresh and its timestamp
/// is stored; a byte-identical `generated_at` reports cached and leaves
/// the stored value unchanged; a differing `generated_at` reports fresh
/// and overwrites the stored value.
#[verifier::loop_isolation(false)]
pub fn check_document(url: &str, doc: PublicFile, cache: &mut FetchCache) -> (r: FetchOutcome)
    ensures
        check_post(old(cache)@, url@, doc, r, final(cache)@),
{
    let ghost oldv = entry_views(cache.entries@);
    let mut i: usize = 0;
    while i < cache.entries.len()
        invariant
            i <= cache.entries@.len(),
            entry_views(cache.entries@) == oldv,
            forall|j: int| 0 <= j < i ==> oldv[j].0 != url@,
        decreases cache.entries.len() - i,
    {
        if str_eq(cache.entries[i].0.as_str(), url) {
            proof {
                lemma_lookup_first(oldv, url@, i as int);
            }
            if str_eq(cache.entries[i].1.as_str(), doc.generated_at.as_str()) {
                return FetchOutcome::Cached;
            }
            let fresh_ts = doc.generated_at.clone();
            let key = url.to_owned();
            cache.entries[i] = (key, fresh_ts);
            proof {
                assert(entry_views(cache.entries@) =~= oldv.update(
                    i as int,
                    (url@, doc.generated_at@),
                ));
                lemma_lookup_update(oldv, i as int, url@, doc.generated_at@);
            }
            return FetchOutcome::Fresh(doc);
        }
        i = i + 1;
    }
    proof {
        lemma_lookup_none(oldv, url@);
    }
    let fresh_ts = doc.generated_at.clone();
    let key = url.to_owned();
    cache.entries.push((key, fresh_ts));
    proof {
        assert(entry_views(cache.entries@) =~= oldv.push((url@, doc.generated_at@)));
        lemma_lookup_push(oldv, url@, doc.generated_at@);
    }
    FetchOutcome::Fresh(doc)
}

/// Processes a fetched response body: deserializes it and checks it
/// against the cache.
///
/// The result is `Err` exactly when the body is not a well-formed
/// published document (and then the cache is untouched and the error is a
/// `JsonDeserialize`); on a well-formed body the cache semantics hold of
/// the document the body reads as: a recorded timestamp equal to the
/// body's `generated_at` reports `Cached` and leaves the cache unchanged,
/// anything else reports the document `Fresh`, with every field pinned to
/// the body's model, and records its timestamp under the URL.
pub fn process_response(body: &str, url: &str, cache: &mut FetchCache) -> (r: Result<
    FetchOutcome,
    Error,
>)
    ensures
        r is Err <==> !crate::jsonio::public_file_ok(body@),
        r matches Err(e) ==> final(cache)@ == old(cache)@ && e matches Error::JsonDeserialize(_),
        r matches Ok(o) ==> ({
            let m = crate::jsonio::model_of(body@);
            if lookup(old(cache)@, url@) == Some(crate::jsonio::doc_generated_at(m)) {
                o is Cached && final(cache)@ == old(cache)@
            } else {
                &&& (o matches FetchOutcome::Fresh(d) && {
                    &&& d.version@ == crate::jsonio::doc_version(m)
                    &&& d.generated_at@ == crate::jsonio::doc_generated_at(m)
                    &&& d.base_url@ == crate::jsonio::doc_base_url(m)
                    &&& d.site.title@ == crate::jsonio::doc_title(m)
                    &&& (match d.site.description {
                        Some(x) => crate::jsonio::doc_description(m) == Some(x@),
                        None => crate::jsonio::doc_description(m) is None,
                    })
                    &&& (match d.site.language {
                        Some(x) => crate::jsonio::doc_language(m) == Some(x@),
                        None => crate::jsonio::doc_language(m) is None,
                    })
                    &&& crate::text::str_views(d.friends@) == crate::jsonio::doc_friends(m)
                    &&& crate::model::node_views(d.nodes@) == crate::jsonio::doc_nodes(m)
                    &&& crate::model::edge_views(d.edges@) == crate::jsonio::doc_edges(m)
                })
                &&& lookup(final(cache)@, url@) == Some(crate::jsonio::doc_generated_at(m))
                &&& (forall|k: Seq<char>|
                    k != url@ ==> lookup(final(cache)@, k) == lookup(old(cache)@, k))
            }
        }),
{
    let doc = match PublicFile::from_json(body) {
        Ok(d) => d,
        Err(e) => {
            return Err(e);
        },
    };
    let ghost docg = doc;
    let o = check_document(url, doc, cache);
    proof {
        assert(check_post(old(cache)@, url@, docg, o, cache@));
        assert(docg.generated_at@ == crate::jsonio::doc_generated_at(
            crate::jsonio::model_of(body@),
        ));
    }
    Ok(o)
}

/// The URL a friend's published document lives at: the base URL with
/// `graphgarden.json` appended, inserting the slash when it is missing.
pub open spec fn graphgarden_url_spec(base: Seq<char>) -> Seq<char> {
    if base.len() > 0 && base.last() == '/' {
        base + "graphgarden.json"@
    } else {
        base + "/graphgarden.json"@
    }
}

/// Constructs the `graphgarden.json` URL from a friend's base URL.
pub fn graphgarden_url(base_url: &str) -> (r: String)
    ensures
        r@ == graphgarden_url_spec(base_url@),
{
    let v = crate::text::str_chars(base_url);
    let mut m = base_url.to_owned();
    if v.len() > 0 && v[v.len() - 1] == '/' {
        m.append("graphgarden.json");
    } else {
        m.append("/graphgarden.json");
    }
    m
}

} // verus!
