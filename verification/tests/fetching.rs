//! Friend synchronization cache behaviour.

use graphgarden::fetch::{graphgarden_url, process_response, FetchCache, FetchOutcome};
use graphgarden::model::PublicFile;

const FIXTURE_JSON: &str = r#"{
    "version": "0.1.0",
    "generated_at": "2026-02-17T12:00:00Z",
    "base_url": "https://bob.dev/",
    "site": {
        "title": "Bob's Garden",
        "description": "A blog about graphs",
        "language": "en"
    },
    "nodes": [
        { "url": "/", "title": "Home" },
        { "url": "/about", "title": "About" }
    ],
    "edges": [
        { "source": "/", "target": "/about", "type": "internal" }
    ]
}"#;

#[test]
fn cache_miss_empty_cache() {
    let mut cache = FetchCache::new();
    let url = "https://bob.dev/graphgarden.json";

    let outcome = process_response(FIXTURE_JSON, url, &mut cache).unwrap();

    assert!(matches!(outcome, FetchOutcome::Fresh(_)));
    assert_eq!(cache.get(url).unwrap().as_str(), "2026-02-17T12:00:00Z");
}

#[test]
fn cache_hit_same_generated_at() {
    let mut cache = FetchCache::new();
    let url = "https://bob.dev/graphgarden.json";

    // First fetch populates the cache
    process_response(FIXTURE_JSON, url, &mut cache).unwrap();

    // Second fetch with same content triggers cache hit
    let outcome = process_response(FIXTURE_JSON, url, &mut cache).unwrap();
    assert!(matches!(outcome, FetchOutcome::Cached));
}

#[test]
fn cache_miss_different_generated_at() {
    let mut cache = FetchCache::new();
    let url = "https://bob.dev/graphgarden.json";

    process_response(FIXTURE_JSON, url, &mut cache).unwrap();

    let updated_json = FIXTURE_JSON.replace("2026-02-17T12:00:00Z", "2026-02-18T08:00:00Z");
    let outcome = process_response(&updated_json, url, &mut cache).unwrap();

    assert!(matches!(outcome, FetchOutcome::Fresh(_)));
    assert_eq!(cache.get(url).unwrap().as_str(), "2026-02-18T08:00:00Z");
}

#[test]
fn cache_distinct_urls_do_not_interfere() {
    let mut cache = FetchCache::new();
    process_response(FIXTURE_JSON, "https://bob.dev/graphgarden.json", &mut cache).unwrap();

    let carol = FIXTURE_JSON.replace("2026-02-17T12:00:00Z", "2026-03-01T00:00:00Z");
    process_response(&carol, "https://carol.dev/graphgarden.json", &mut cache).unwrap();

    assert_eq!(
        cache.get("https://bob.dev/graphgarden.json").unwrap().as_str(),
        "2026-02-17T12:00:00Z"
    );
    assert_eq!(
        cache.get("https://carol.dev/graphgarden.json").unwrap().as_str(),
        "2026-03-01T00:00:00Z"
    );
}

#[test]
fn invalid_json_returns_error() {
    let mut cache = FetchCache::new();
    let url = "https://bob.dev/graphgarden.json";

    let result = process_response("not valid json", url, &mut cache);
    assert!(result.is_err());
}

#[test]
fn malformed_document_shape_returns_error() {
    let mut cache = FetchCache::new();
    let url = "https://bob.dev/graphgarden.json";

    // Valid JSON, but not a public file: `generated_at` is missing.
    let result = process_response(r#"{"version": "0.1.0"}"#, url, &mut cache);
    assert!(matches!(
        result,
        Err(graphgarden::error::Error::JsonDeserialize(_))
    ));
    assert!(cache.get(url).is_none());
}

#[test]
fn url_construction_with_trailing_slash() {
    assert_eq!(
        graphgarden_url("https://bob.dev/"),
        "https://bob.dev/graphgarden.json"
    );
}

#[test]
fn url_construction_without_trailing_slash() {
    assert_eq!(
        graphgarden_url("https://bob.dev"),
        "https://bob.dev/graphgarden.json"
    );
}

#[test]
fn fresh_outcome_contains_deserialized_data() {
    let mut cache = FetchCache::new();
    let url = "https://bob.dev/graphgarden.json";

    let outcome = process_response(FIXTURE_JSON, url, &mut cache).unwrap();

    match outcome {
        FetchOutcome::Fresh(public_file) => {
            assert_eq!(public_file.version, graphgarden::model::protocol_version());
            assert_eq!(public_file.base_url, "https://bob.dev/");
            assert_eq!(public_file.site.title, "Bob's Garden");
            assert_eq!(public_file.nodes.len(), 2);
            assert_eq!(public_file.edges.len(), 1);
        }
        FetchOutcome::Cached => panic!("expected Fresh, got Cached"),
    }
}

#[test]
fn protocol_public_file_example_deserializes() {
    let json = r#"{
        "version": "0.1.0",
        "generated_at": "2026-02-17T12:00:00Z",
        "base_url": "https://alice.dev/",
        "site": {
            "title": "Alice's Garden",
            "description": "A blog about …",
            "language": "en"
        },
        "nodes": [
            { "url": "/", "title": "Home" },
            { "url": "/about", "title": "About" },
            { "url": "/posts/hello", "title": "Hello World" }
        ],
        "edges": [
            { "source": "/", "target": "/about", "type": "internal" },
            { "source": "/", "target": "/posts/hello", "type": "internal" },
            { "source": "/about", "target": "https://bob.dev/", "type": "friend" }
        ]
    }"#;

    let public_file = PublicFile::from_json(json).expect("protocol example should deserialize");

    assert_eq!(public_file.version, graphgarden::model::protocol_version());
    assert_eq!(public_file.base_url, "https://alice.dev/");
    assert_eq!(public_file.site.title, "Alice's Garden");
    assert_eq!(public_file.nodes.len(), 3);
    assert_eq!(public_file.edges.len(), 3);
    assert_eq!(
        public_file.edges[2].edge_type,
        graphgarden::model::EdgeType::Friend
    );
}

#[test]
fn from_json_defaults_absent_friends_to_empty() {
    let public_file = PublicFile::from_json(FIXTURE_JSON).unwrap();
    assert!(public_file.friends.is_empty());
}
