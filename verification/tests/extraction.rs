//! Page extraction behaviour.

use graphgarden::extract::extract_page;
use graphgarden::model::EdgeType;

const BASE_URL: &str = "https://alice.dev/";

fn friends() -> Vec<String> {
    vec![
        String::from("https://bob.dev/"),
        String::from("https://carol.dev/"),
    ]
}

fn no_selectors() -> Vec<String> {
    Vec::new()
}

#[test]
fn extract_internal_links() {
    let html = r#"
        <html><head><title>Home</title></head>
        <body>
            <a href="/about">About</a>
            <a href="/posts/hello">Hello</a>
        </body></html>
    "#;

    let (node, edges) = extract_page(html, "/", BASE_URL, &friends(), &no_selectors()).unwrap();

    assert_eq!(node.url, "/");
    assert_eq!(node.title, "Home");
    assert_eq!(edges.len(), 2);
    assert!(edges.iter().all(|e| e.edge_type == EdgeType::Internal));
    assert!(edges.iter().any(|e| e.target == "/about"));
    assert!(edges.iter().any(|e| e.target == "/posts/hello"));
}

#[test]
fn extract_friend_links() {
    let html = r#"
        <html><head><title>Home</title></head>
        <body>
            <a href="https://bob.dev/">Bob</a>
            <a href="https://carol.dev/post/1">Carol's post</a>
        </body></html>
    "#;

    let (_, edges) = extract_page(html, "/", BASE_URL, &friends(), &no_selectors()).unwrap();

    assert_eq!(edges.len(), 2);
    assert!(edges.iter().all(|e| e.edge_type == EdgeType::Friend));
}

#[test]
fn extract_drops_external_links() {
    let html = r#"
        <html><head><title>Home</title></head>
        <body>
            <a href="/about">About</a>
            <a href="https://random.com/">Random</a>
            <a href="https://other.org/page">Other</a>
        </body></html>
    "#;

    let (_, edges) = extract_page(html, "/", BASE_URL, &friends(), &no_selectors()).unwrap();

    assert_eq!(edges.len(), 1);
    assert_eq!(edges[0].target, "/about");
    assert_eq!(edges[0].edge_type, EdgeType::Internal);
}

#[test]
fn extract_excluded_selectors() {
    let html = r#"
        <html><head><title>Home</title></head>
        <body>
            <nav><a href="/hidden">Hidden</a></nav>
            <main><a href="/visible">Visible</a></main>
            <footer><a href="/also-hidden">Also hidden</a></footer>
        </body></html>
    "#;

    let selectors = vec![String::from("nav"), String::from("footer")];
    let (_, edges) = extract_page(html, "/", BASE_URL, &friends(), &selectors).unwrap();

    assert_eq!(edges.len(), 1);
    assert_eq!(edges[0].target, "/visible");
}

#[test]
fn extract_nested_excluded_regions() {
    let html = r#"
        <html><body>
            <nav><footer><a href="/deep">Deep</a></footer><a href="/shallow">Shallow</a></nav>
            <a href="/free">Free</a>
        </body></html>
    "#;

    let selectors = vec![String::from("nav"), String::from("footer")];
    let (_, edges) = extract_page(html, "/", BASE_URL, &friends(), &selectors).unwrap();

    assert_eq!(edges.len(), 1);
    assert_eq!(edges[0].target, "/free");
}

#[test]
fn extract_title() {
    let html = r#"
        <html><head><title>My Page Title</title></head>
        <body></body></html>
    "#;

    let (node, _) = extract_page(html, "/page", BASE_URL, &friends(), &no_selectors()).unwrap();

    assert_eq!(node.title, "My Page Title");
}

#[test]
fn extract_title_fallback() {
    let html = "<html><body><a href=\"/about\">link</a></body></html>";

    let (node, _) = extract_page(html, "/page", BASE_URL, &friends(), &no_selectors()).unwrap();

    assert_eq!(node.title, "/page");
}

#[test]
fn extract_first_title_only() {
    let html = "<html><head><title>First</title><title>Second</title></head></html>";

    let (node, _) = extract_page(html, "/page", BASE_URL, &friends(), &no_selectors()).unwrap();

    assert_eq!(node.title, "First");
}

#[test]
fn extract_deduplication() {
    let html = r#"
        <html><head><title>Home</title></head>
        <body>
            <a href="/about">About</a>
            <a href="/about">About again</a>
            <a href="/about">About once more</a>
        </body></html>
    "#;

    let (_, edges) = extract_page(html, "/", BASE_URL, &friends(), &no_selectors()).unwrap();

    assert_eq!(edges.len(), 1);
    assert_eq!(edges[0].target, "/about");
}

#[test]
fn extract_dedup_by_normalized_target() {
    // Two different spellings of the same resource collapse to one edge.
    let html = r#"
        <html><body>
            <a href="/about/">A</a>
            <a href="/about/index.html">B</a>
        </body></html>
    "#;

    let (_, edges) = extract_page(html, "/", BASE_URL, &friends(), &no_selectors()).unwrap();

    assert_eq!(edges.len(), 1);
    assert_eq!(edges[0].target, "/about/");
}

#[test]
fn extract_relative_link() {
    let html = r#"
        <html><head><title>Post</title></head>
        <body><a href="../about">About</a></body></html>
    "#;

    let (_, edges) = extract_page(html, "/posts/hello", BASE_URL, &friends(), &no_selectors())
        .unwrap();

    assert_eq!(edges.len(), 1);
    assert_eq!(edges[0].target, "/about");
    assert_eq!(edges[0].edge_type, EdgeType::Internal);
}

#[test]
fn extract_absolute_url_matching_base() {
    let html = r#"
        <html><head><title>Home</title></head>
        <body><a href="https://alice.dev/about">About</a></body></html>
    "#;

    let (_, edges) = extract_page(html, "/", BASE_URL, &friends(), &no_selectors()).unwrap();

    assert_eq!(edges.len(), 1);
    assert_eq!(edges[0].target, "/about");
    assert_eq!(edges[0].edge_type, EdgeType::Internal);
}

#[test]
fn extract_drops_fragment_only_and_special_schemes() {
    let html = r##"
        <html><head><title>Home</title></head>
        <body>
            <a href="#section">Fragment</a>
            <a href="mailto:a@b.com">Email</a>
            <a href="javascript:void(0)">JS</a>
            <a href="/real">Real</a>
        </body></html>
    "##;

    let (_, edges) = extract_page(html, "/", BASE_URL, &friends(), &no_selectors()).unwrap();

    assert_eq!(edges.len(), 1);
    assert_eq!(edges[0].target, "/real");
}

#[test]
fn extract_normalizes_internal_index_html() {
    let html = r#"
        <html><head><title>Home</title></head>
        <body><a href="/about/index.html">About</a></body></html>
    "#;

    let (_, edges) = extract_page(html, "/", BASE_URL, &friends(), &no_selectors()).unwrap();

    assert_eq!(edges.len(), 1);
    assert_eq!(edges[0].target, "/about/");
    assert_eq!(edges[0].edge_type, EdgeType::Internal);
}

#[test]
fn extract_normalizes_internal_html_extension() {
    let html = r#"
        <html><head><title>Home</title></head>
        <body><a href="/posts/hello.html">Hello</a></body></html>
    "#;

    let (_, edges) = extract_page(html, "/", BASE_URL, &friends(), &no_selectors()).unwrap();

    assert_eq!(edges.len(), 1);
    assert_eq!(edges[0].target, "/posts/hello");
    assert_eq!(edges[0].edge_type, EdgeType::Internal);
}

#[test]
fn extract_normalizes_absolute_url_with_html_extension() {
    let html = r#"
        <html><head><title>Home</title></head>
        <body><a href="https://alice.dev/about/index.html">About</a></body></html>
    "#;

    let (_, edges) = extract_page(html, "/", BASE_URL, &friends(), &no_selectors()).unwrap();

    assert_eq!(edges.len(), 1);
    assert_eq!(edges[0].target, "/about/");
    assert_eq!(edges[0].edge_type, EdgeType::Internal);
}

#[test]
fn extract_normalizes_relative_html_link() {
    let html = r#"
        <html><head><title>Post</title></head>
        <body><a href="../about/index.html">About</a></body></html>
    "#;

    let (_, edges) = extract_page(html, "/posts/hello", BASE_URL, &friends(), &no_selectors())
        .unwrap();

    assert_eq!(edges.len(), 1);
    assert_eq!(edges[0].target, "/about/");
    assert_eq!(edges[0].edge_type, EdgeType::Internal);
}

#[test]
fn extract_query_only_href_produces_no_edge() {
    let html = r#"
        <html><head><title>Home</title></head>
        <body><a href="?x=1">Query only</a></body></html>
    "#;

    let (_, edges) = extract_page(html, "/", BASE_URL, &friends(), &no_selectors()).unwrap();

    assert!(edges.is_empty());
}

#[test]
fn extract_reads_attribute_syntax_variants() {
    let html = r#"
        <html><body>
            <a class="x" href='/single'>single quotes</a>
            <a href=/unquoted>unquoted</a>
            <a rel="me" href="/after-other">after another attribute</a>
        </body></html>
    "#;

    let (_, edges) = extract_page(html, "/", BASE_URL, &friends(), &no_selectors()).unwrap();

    let targets: Vec<&str> = edges.iter().map(|e| e.target.as_str()).collect();
    assert_eq!(targets, vec!["/single", "/unquoted", "/after-other"]);
}

#[test]
fn extract_ignores_commented_out_markup() {
    let html = r#"
        <html><body>
            <!-- <a href="/commented">gone</a> -->
            <a href="/live">live</a>
        </body></html>
    "#;

    let (_, edges) = extract_page(html, "/", BASE_URL, &friends(), &no_selectors()).unwrap();

    assert_eq!(edges.len(), 1);
    assert_eq!(edges[0].target, "/live");
}

#[test]
fn extract_matches_tags_case_insensitively() {
    let html = r#"<html><head><TITLE>Loud</TITLE></head><body>
        <NAV><A HREF="/hidden">hidden</A></NAV>
        <A HREF="/loud">loud</A>
    </body></html>"#;

    let selectors = vec![String::from("nav")];
    let (node, edges) = extract_page(html, "/", BASE_URL, &friends(), &selectors).unwrap();

    assert_eq!(node.title, "Loud");
    assert_eq!(edges.len(), 1);
    assert_eq!(edges[0].target, "/loud");
}

#[test]
fn extract_first_href_attribute_wins() {
    let html = r#"<html><body><a href="/first" href="/second">x</a></body></html>"#;

    let (_, edges) = extract_page(html, "/", BASE_URL, &friends(), &no_selectors()).unwrap();

    assert_eq!(edges.len(), 1);
    assert_eq!(edges[0].target, "/first");
}

#[test]
fn extract_ignores_markup_inside_script_and_style() {
    let html = r#"
        <html><body>
            <script>var s = '<a href="/from-script">not a link</a>';</script>
            <style>/* <a href="/from-style">not a link</a> */</style>
            <a href="/real">real</a>
        </body></html>
    "#;

    let (_, edges) = extract_page(html, "/", BASE_URL, &friends(), &no_selectors()).unwrap();

    assert_eq!(edges.len(), 1);
    assert_eq!(edges[0].target, "/real");
}

#[test]
fn extract_title_content_is_raw_text() {
    let html = "<html><head><title>a <b> c</title></head><body></body></html>";

    let (node, _) = extract_page(html, "/", BASE_URL, &friends(), &no_selectors()).unwrap();

    assert_eq!(node.title, "a <b> c");
}

#[test]
fn extract_unsupported_selector_fails_with_context() {
    let html = "<html><body></body></html>";
    let selectors = vec![String::from("nav"), String::from("nav ul")];

    let err = extract_page(html, "/", BASE_URL, &friends(), &selectors).unwrap_err();

    match err {
        graphgarden::error::Error::HtmlParse(m) => {
            assert!(m.contains("unsupported selector"), "{m}");
            assert!(m.contains("nav ul"), "{m}");
        }
        other => panic!("expected HtmlParse, got {:?}", other),
    }
}

#[test]
fn extract_class_selector_excludes_region() {
    let html = r#"
        <html><body>
            <div class="sidebar wide"><a href="/hidden">Hidden</a></div>
            <div><a href="/visible">Visible</a></div>
        </body></html>
    "#;

    let selectors = vec![String::from(".sidebar")];
    let (_, edges) = extract_page(html, "/", BASE_URL, &friends(), &selectors).unwrap();

    assert_eq!(edges.len(), 1);
    assert_eq!(edges[0].target, "/visible");
}

#[test]
fn extract_id_selector_excludes_region() {
    let html = r#"
        <html><body>
            <section id="menu"><a href="/hidden">Hidden</a></section>
            <section id="content"><a href="/visible">Visible</a></section>
        </body></html>
    "#;

    let selectors = vec![String::from("#menu")];
    let (_, edges) = extract_page(html, "/", BASE_URL, &friends(), &selectors).unwrap();

    assert_eq!(edges.len(), 1);
    assert_eq!(edges[0].target, "/visible");
}

#[test]
fn extract_compound_selector_requires_all_parts() {
    let html = r#"
        <html><body>
            <div class="menu"><a href="/plain-div">A</a></div>
            <nav class="menu"><a href="/nav-menu">B</a></nav>
            <nav><a href="/plain-nav">C</a></nav>
        </body></html>
    "#;

    let selectors = vec![String::from("nav.menu")];
    let (_, edges) = extract_page(html, "/", BASE_URL, &friends(), &selectors).unwrap();

    let targets: Vec<&str> = edges.iter().map(|e| e.target.as_str()).collect();
    assert_eq!(targets, vec!["/plain-div", "/plain-nav"]);
}

#[test]
fn extract_excluded_region_survives_nested_same_tag() {
    let html = r#"
        <html><body>
            <div class="sidebar">
                <div>inner</div>
                <a href="/still-hidden">Still hidden</a>
            </div>
            <a href="/visible">Visible</a>
        </body></html>
    "#;

    let selectors = vec![String::from(".sidebar")];
    let (_, edges) = extract_page(html, "/", BASE_URL, &friends(), &selectors).unwrap();

    assert_eq!(edges.len(), 1);
    assert_eq!(edges[0].target, "/visible");
}

#[test]
fn extract_tolerates_malformed_markup() {
    let html = "<html><body><p><a href=\"/ok\">ok</a><div></span></html";

    let (_, edges) = extract_page(html, "/", BASE_URL, &friends(), &no_selectors()).unwrap();

    assert_eq!(edges.len(), 1);
    assert_eq!(edges[0].target, "/ok");
}
