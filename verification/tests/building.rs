//! Graph building and configuration validation behaviour.

use graphgarden::builder::{build_graph, format_utc_timestamp};
use graphgarden::config::{Config, OutputConfig, ParseConfig, SiteConfig};
use graphgarden::error::Error;
use graphgarden::model::EdgeType;

fn test_config() -> Config {
    Config {
        site: SiteConfig {
            base_url: String::from("https://alice.dev/"),
            title: String::from("Alice's Garden"),
            description: None,
            language: None,
        },
        friends: vec![String::from("https://bob.dev/")],
        output: OutputConfig {
            dir: String::from("./dist"),
        },
        parse: ParseConfig {
            includes: vec![String::from("**/*.html")],
            exclude: None,
            exclude_selectors: None,
        },
    }
}

fn validation_config(base_url: &str, friends: Vec<String>) -> Config {
    Config {
        site: SiteConfig {
            base_url: String::from(base_url),
            title: String::from("Test"),
            description: None,
            language: None,
        },
        friends,
        output: OutputConfig::default(),
        parse: ParseConfig::default(),
    }
}

#[test]
fn build_basic() {
    let pages = vec![
        (
            String::from("index.html"),
            String::from(
                r#"<html><head><title>Home</title></head><body>
                <a href="/about/">About</a>
                <a href="https://bob.dev/">Bob</a>
            </body></html>"#,
            ),
        ),
        (
            String::from("about/index.html"),
            String::from(
                r#"<html><head><title>About</title></head><body>
                <a href="/">Home</a>
            </body></html>"#,
            ),
        ),
    ];

    let config = test_config();
    let result = build_graph(&config, &pages).unwrap();

    assert_eq!(result.version, graphgarden::model::protocol_version());
    assert_eq!(result.base_url, "https://alice.dev/");
    assert_eq!(result.site.title, "Alice's Garden");
    assert_eq!(result.friends, vec!["https://bob.dev/"]);
    assert_eq!(result.nodes.len(), 2);
    assert!(result.nodes.iter().any(|n| n.url == "/" && n.title == "Home"));
    assert!(result
        .nodes
        .iter()
        .any(|n| n.url == "/about/" && n.title == "About"));

    assert_eq!(result.edges.len(), 3);
    assert!(result.edges.iter().any(|e| e.source == "/"
        && e.target == "/about/"
        && e.edge_type == EdgeType::Internal));
    assert!(result.edges.iter().any(|e| e.source == "/"
        && e.target == "https://bob.dev/"
        && e.edge_type == EdgeType::Friend));
    assert!(result.edges.iter().any(|e| e.source == "/about/"
        && e.target == "/"
        && e.edge_type == EdgeType::Internal));
}

#[test]
fn build_exclude_selectors() {
    let pages = vec![(
        String::from("index.html"),
        String::from(
            r#"<html><head><title>Home</title></head><body>
            <nav><a href="/hidden">Hidden</a></nav>
            <main><a href="/visible">Visible</a></main>
        </body></html>"#,
        ),
    )];

    let mut config = test_config();
    config.parse.exclude_selectors = Some(vec![String::from("nav")]);

    let result = build_graph(&config, &pages).unwrap();

    assert_eq!(result.edges.len(), 1);
    assert_eq!(result.edges[0].target, "/visible");
}

#[test]
fn build_empty_output_dir() {
    let config = test_config();
    let result = build_graph(&config, &Vec::new()).unwrap();

    assert!(result.nodes.is_empty());
    assert!(result.edges.is_empty());
}

#[test]
fn build_does_not_merge_edges_across_pages() {
    let pages = vec![
        (
            String::from("a.html"),
            String::from(r#"<html><body><a href="/common">x</a></body></html>"#),
        ),
        (
            String::from("b.html"),
            String::from(r#"<html><body><a href="/common">x</a></body></html>"#),
        ),
    ];

    let result = build_graph(&test_config(), &pages).unwrap();

    assert_eq!(result.edges.len(), 2);
    assert_eq!(result.edges[0].source, "/a");
    assert_eq!(result.edges[1].source, "/b");
    assert!(result.edges.iter().all(|e| e.target == "/common"));
}

#[test]
fn build_invalid_selector_aborts_whole_build() {
    let pages = vec![(
        String::from("index.html"),
        String::from("<html><body></body></html>"),
    )];

    let mut config = test_config();
    config.parse.exclude_selectors = Some(vec![String::from("nav > ul")]);

    let result = build_graph(&config, &pages);
    assert!(matches!(result, Err(Error::HtmlParse(_))));
}

#[test]
fn build_timestamp_shape() {
    let result = build_graph(&test_config(), &Vec::new()).unwrap();
    let t = result.generated_at.as_bytes();
    assert_eq!(t.len(), 20);
    assert_eq!(t[4], b'-');
    assert_eq!(t[7], b'-');
    assert_eq!(t[10], b'T');
    assert_eq!(t[13], b':');
    assert_eq!(t[16], b':');
    assert_eq!(t[19], b'Z');
}

#[test]
fn format_timestamp_exact_values() {
    assert_eq!(format_utc_timestamp(0), "1970-01-01T00:00:00Z");
    assert_eq!(format_utc_timestamp(86399), "1970-01-01T23:59:59Z");
    assert_eq!(format_utc_timestamp(86400), "1970-01-02T00:00:00Z");
    assert_eq!(format_utc_timestamp(951782400), "2000-02-29T00:00:00Z");
    assert_eq!(format_utc_timestamp(1771329600), "2026-02-17T12:00:00Z");
    assert_eq!(format_utc_timestamp(4102444799), "2099-12-31T23:59:59Z");
}

#[test]
fn config_defaults() {
    let parse = ParseConfig::default();
    assert_eq!(parse.includes, vec!["**/*.html"]);
    assert_eq!(parse.exclude, None);
    assert_eq!(parse.exclude_selectors, None);
    assert_eq!(OutputConfig::default().dir, "./dist");
}

#[test]
fn validate_accepts_valid_config() {
    let config = validation_config("https://alice.dev/", vec![String::from("https://bob.dev/")]);
    config
        .validate()
        .expect("valid config should pass validation");
}

#[test]
fn validate_rejects_non_url_base_url() {
    let config = validation_config("not a url", vec![]);
    let err = config.validate().unwrap_err();
    assert!(matches!(err, Error::InvalidBaseUrl(..)));
}

#[test]
fn validate_rejects_non_http_base_url() {
    let config = validation_config("ftp://alice.dev/", vec![]);
    let err = config.validate().unwrap_err();
    assert!(matches!(err, Error::InvalidBaseUrl(_, ref reason) if reason.contains("http")));
}

#[test]
fn validate_rejects_base_url_without_trailing_slash() {
    let config = validation_config("https://alice.dev", vec![]);
    let err = config.validate().unwrap_err();
    assert!(
        matches!(err, Error::InvalidBaseUrl(_, ref reason) if reason.contains("trailing slash"))
    );
}

#[test]
fn validate_rejects_invalid_friend_url() {
    let config = validation_config("https://alice.dev/", vec![String::from("not a url")]);
    let err = config.validate().unwrap_err();
    assert!(matches!(err, Error::InvalidFriendUrl(..)));
}

#[test]
fn validate_rejects_non_http_friend_url() {
    let config = validation_config("https://alice.dev/", vec![String::from("ftp://bob.dev/")]);
    let err = config.validate().unwrap_err();
    assert!(matches!(err, Error::InvalidFriendUrl(_, ref reason) if reason.contains("http")));
}

#[test]
fn error_messages_name_their_context() {
    let err = Error::OutputDirNotFound(String::from("/tmp/nowhere"));
    assert_eq!(
        err.message(),
        "output directory does not exist: /tmp/nowhere"
    );
    let err = Error::InvalidBaseUrl(String::from("x"), String::from("why"));
    assert_eq!(err.message(), "invalid base URL 'x': why");
}
