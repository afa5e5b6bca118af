//! Path and URL normalization behaviour.

use graphgarden::urlnorm::{
    file_path_to_url, normalize_internal_path, resolve_relative_url, strip_query_and_fragment,
};

#[test]
fn it_works() {
    assert_eq!(graphgarden::hello(), "Hello from GraphGarden!");
}

#[test]
fn file_path_to_url_converts_index() {
    assert_eq!(file_path_to_url("index.html"), "/");
}

#[test]
fn file_path_to_url_converts_nested_index() {
    assert_eq!(file_path_to_url("about/index.html"), "/about/");
}

#[test]
fn file_path_to_url_converts_named_page() {
    assert_eq!(file_path_to_url("posts/hello.html"), "/posts/hello");
}

#[test]
fn file_path_to_url_leaves_other_extensions() {
    assert_eq!(file_path_to_url("feed.xml"), "/feed.xml");
}

#[test]
fn file_path_to_url_removes_index_html_entirely() {
    for p in ["index.html", "about/index.html", "a/b/c/index.html"] {
        let url = file_path_to_url(p);
        assert!(url.ends_with('/'), "{url}");
        assert!(!url.contains("index.html"), "{url}");
    }
}

#[test]
fn normalize_collapses_index_html() {
    assert_eq!(normalize_internal_path("/about/index.html"), "/about/");
}

#[test]
fn normalize_strips_html_extension() {
    assert_eq!(normalize_internal_path("/posts/hello.html"), "/posts/hello");
}

#[test]
fn normalize_leaves_normalized_paths() {
    assert_eq!(normalize_internal_path("/about/"), "/about/");
    assert_eq!(normalize_internal_path("/posts/hello"), "/posts/hello");
    assert_eq!(normalize_internal_path("/"), "/");
}

#[test]
fn normalize_is_idempotent_on_results() {
    let once = normalize_internal_path("/about/index.html");
    assert_eq!(normalize_internal_path(&once), once);
}

#[test]
fn strip_query_and_fragment_cuts_at_first_marker() {
    assert_eq!(strip_query_and_fragment("/a?x=1#frag"), "/a");
    assert_eq!(strip_query_and_fragment("/a#frag?x=1"), "/a");
    assert_eq!(strip_query_and_fragment("/plain"), "/plain");
}

#[test]
fn resolve_relative_handles_parent_segments() {
    assert_eq!(resolve_relative_url("/posts/hello", "../about"), "/about");
    assert_eq!(resolve_relative_url("/posts/hello", "world"), "/posts/world");
    assert_eq!(resolve_relative_url("/posts/hello", "./world"), "/posts/world");
}

#[test]
fn resolve_relative_never_escapes_the_root() {
    assert_eq!(resolve_relative_url("/a", "../../../x"), "/x");
    assert_eq!(resolve_relative_url("/", ".."), "/");
}

#[test]
fn resolve_relative_example_from_posts() {
    assert_eq!(
        resolve_relative_url("/posts/hello", "../about/index.html"),
        "/about/index.html"
    );
}
