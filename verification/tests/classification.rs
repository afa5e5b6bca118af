//! Href classification behaviour.

use graphgarden::classify::{classify_absolute_url, classify_href};
use graphgarden::model::EdgeType;

const BASE_URL: &str = "https://alice.dev/";
const PAGE: &str = "/";

fn friends() -> Vec<String> {
    vec![
        String::from("https://bob.dev/"),
        String::from("https://carol.dev/"),
    ]
}

#[test]
fn classify_drops_empty_and_special_schemes() {
    for href in ["", "   ", "#section", "?x=1", "mailto:a@b.com", "tel:+1234", "javascript:void(0)", "data:text/plain,hi"] {
        assert!(classify_href(href, PAGE, BASE_URL, &friends()).is_none(), "{href} should drop");
    }
}

#[test]
fn classify_internal_absolute_path() {
    let (target, kind) = classify_href("/about", PAGE, BASE_URL, &friends()).unwrap();
    assert_eq!(target, "/about");
    assert_eq!(kind, EdgeType::Internal);
}

#[test]
fn classify_internal_same_origin_url() {
    let (target, kind) = classify_href("https://alice.dev/about", PAGE, BASE_URL, &friends()).unwrap();
    assert_eq!(target, "/about");
    assert_eq!(kind, EdgeType::Internal);
}

#[test]
fn classify_base_url_alone_is_root() {
    let (target, kind) = classify_href("https://alice.dev/", PAGE, BASE_URL, &friends()).unwrap();
    assert_eq!(target, "/");
    assert_eq!(kind, EdgeType::Internal);
}

#[test]
fn classify_friend_keeps_absolute_form() {
    let (target, kind) = classify_href("https://bob.dev/posts/cool", PAGE, BASE_URL, &friends()).unwrap();
    assert_eq!(target, "https://bob.dev/posts/cool");
    assert_eq!(kind, EdgeType::Friend);
}

#[test]
fn classify_drops_external_non_friend() {
    assert!(classify_href("https://random.com/", PAGE, BASE_URL, &friends()).is_none());
}

#[test]
fn classify_scheme_relative_matches_https_form() {
    let a = classify_href("//bob.dev/x", PAGE, BASE_URL, &friends());
    let b = classify_href("https://bob.dev/x", PAGE, BASE_URL, &friends());
    assert_eq!(a, b);
    assert_eq!(a.unwrap().1, EdgeType::Friend);
}

#[test]
fn classify_relative_resolves_against_page() {
    let (target, kind) = classify_href("../about", "/posts/hello", BASE_URL, &friends()).unwrap();
    assert_eq!(target, "/about");
    assert_eq!(kind, EdgeType::Internal);
}

#[test]
fn classify_trims_unicode_whitespace() {
    let (target, kind) = classify_href("\u{A0} /about \u{2009}", PAGE, BASE_URL, &friends())
        .unwrap();
    assert_eq!(target, "/about");
    assert_eq!(kind, EdgeType::Internal);
}

#[test]
fn classify_strips_query_and_fragment() {
    let (target, _) = classify_href("/about?x=1#frag", PAGE, BASE_URL, &friends()).unwrap();
    assert_eq!(target, "/about");
}

#[test]
fn classify_friend_target_forms() {
    // Every kept target has the documented form: internal targets are
    // absolute paths, friend targets absolute HTTP(S) URLs.
    let cases = ["/a", "b.html", "https://alice.dev/c", "https://bob.dev/", "//carol.dev/p"];
    for href in cases {
        if let Some((target, kind)) = classify_href(href, PAGE, BASE_URL, &friends()) {
            match kind {
                EdgeType::Internal => assert!(target.starts_with('/'), "{target}"),
                EdgeType::Friend => assert!(
                    target.starts_with("http://") || target.starts_with("https://"),
                    "{target}"
                ),
            }
        }
    }
}

#[test]
fn classify_href_variants_converge_on_page_url() {
    // All spellings of the page built from `about/index.html` classify to
    // the same Internal target, byte-identical to its page URL.
    let page_url = graphgarden::urlnorm::file_path_to_url("about/index.html");
    assert_eq!(page_url, "/about/");
    for href in [
        "/about/index.html",
        "/about/",
        "https://alice.dev/about/index.html",
        "https://alice.dev/about/",
    ] {
        let (target, kind) = classify_href(href, PAGE, BASE_URL, &friends()).unwrap();
        assert_eq!(target, page_url, "{href}");
        assert_eq!(kind, EdgeType::Internal);
    }
}

#[test]
fn classify_absolute_url_directly() {
    let r = classify_absolute_url("https://alice.dev/about/index.html", BASE_URL, &friends());
    let (target, kind) = r.unwrap();
    assert_eq!(target, "/about/");
    assert_eq!(kind, EdgeType::Internal);
}

#[test]
fn classify_friend_without_trailing_slash_matches() {
    let friends = vec![String::from("https://bob.dev")];
    let (target, kind) = classify_href("https://bob.dev/p", PAGE, BASE_URL, &friends).unwrap();
    assert_eq!(target, "https://bob.dev/p");
    assert_eq!(kind, EdgeType::Friend);
}
