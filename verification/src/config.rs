//! Configuration model and validation.
//!
//! Loading a configuration file from disk and parsing its TOML is a
//! caller's concern; this module holds the parsed shape and validates it:
//! the base URL must be a well-formed HTTP(S) URL ending in a slash, and
//! every friend URL a well-formed HTTP(S) URL. Whether a string parses as
//! a URL at all is the URL collaborator's decision.

use vstd::prelude::*;

use crate::error::Error;
use crate::text::{str_chars, str_eq, str_views};

verus! {

use vstd::string::StringExecFns;

/// Site-wide settings.
#[derive(Debug, Clone, PartialEq, Eq)]
pub struct SiteConfig {
    pub base_url: String,
    pub title: String,
    pub description: Option<String>,
    pub language: Option<String>,
}

/// Where the rendered site lives.
#[derive(Debug, Clone, PartialEq, Eq)]
pub struct OutputConfig {
    pub dir: String,
}

impl Default for OutputConfig {
    /// The conventional output directory.
    fn default() -> (r: OutputConfig)
        ensures
            r.dir@ == "./dist"@,
    {
        OutputConfig { dir: String::from_str("./dist") }
    }
}

/// Which files are scanned and which page regions are ignored.
#[derive(Debug, Clone, PartialEq, Eq)]
pub struct ParseConfig {
    pub includes: Vec<String>,
    pub exclude: Option<Vec<String>>,
    pub exclude_selectors: Option<Vec<String>>,
}

impl Default for ParseConfig {
    /// Scan every `.html` file, exclude nothing.
    fn default() -> (r: ParseConfig)
        ensures
            r.includes@.len() == 1,
            r.includes@[0]@ == "**/*.html"@,
            r.exclude is None,
            r.exclude_selectors is None,
    {
        let mut includes: Vec<String> = Vec::new();
        includes.push(String::from_str("**/*.html"));
        ParseConfig { includes, exclude: None, exclude_selectors: None }
    }
}

/// The whole configuration.
#[derive(Debug, Clone, PartialEq, Eq)]
pub struct Config {
    pub site: SiteConfig,
    pub friends: Vec<String>,
    pub output: OutputConfig,
    pub parse: ParseConfig,
}

/// The scheme of `s` when the URL collaborator accepts it as an absolute
/// URL, and nothing when it rejects it.
pub uninterp spec fn url_scheme(s: Seq<char>) -> Option<Seq<char>>;

/// Relies on `url::Url::parse` and `url::Url::scheme`: whether the text
/// parses as an absolute URL, and its scheme when it does; the parse
/// error's text otherwise.
#[verifier::external_body]
fn parse_url_scheme(raw: &str) -> (r: Result<String, String>)
    ensures
        r matches Ok(s) ==> url_scheme(raw@) == Some(s@),
        r is Err ==> url_scheme(raw@) is None,
{
    match url::Url::parse(raw) {
        Ok(u) => Ok(u.scheme().to_string()),
        Err(e) => Err(e.to_string()),
    }
}

/// A well-formed HTTP(S) URL: the collaborator parses it and the scheme is
/// `http` or `https`.
pub open spec fn url_ok(s: Seq<char>) -> bool {
    url_scheme(s) matches Some(sch) && (sch == "http"@ || sch == "https"@)
}

/// Checks that a URL is well-formed HTTP(S); the error text names the
/// reason: the rejected scheme when one parsed, the parse error otherwise.
fn validate_http_url(raw: &str) -> (r: Result<(), String>)
    ensures
        r is Ok <==> url_ok(raw@),
        r matches Err(m) ==> (url_scheme(raw@) matches Some(sch) ==> m@
            == "scheme must be http or https, got '"@ + sch + "'"@),
{
    match parse_url_scheme(raw) {
        Ok(sch) => {
            if str_eq(sch.as_str(), "http") || str_eq(sch.as_str(), "https") {
                Ok(())
            } else {
                let mut m = String::from_str("scheme must be http or https, got '");
                m.append(sch.as_str());
                m.append("'");
                Err(m)
            }
        },
        Err(e) => Err(e),
    }
}

/// A usable base URL: well-formed HTTP(S) and ending in a slash.
pub open spec fn base_url_ok(s: Seq<char>) -> bool {
    url_ok(s) && s.len() > 0 && s.last() == '/'
}

/// Validates the site's base URL: it must be a well-formed HTTP(S) URL
/// that ends with a trailing slash. The error names the URL and the
/// reason: a missing trailing slash, a rejected scheme, or the URL
/// collaborator's parse error.
pub fn validate_base_url(raw: &str) -> (r: Result<(), Error>)
    ensures
        r is Ok <==> base_url_ok(raw@),
        r matches Err(e) ==> e matches Error::InvalidBaseUrl(u, reason) && u@ == raw@ && (url_ok(
            raw@,
        ) ==> reason@ == "must end with a trailing slash"@) && (url_scheme(raw@) matches Some(sch)
            ==> (!(sch == "http"@ || sch == "https"@) ==> reason@
            == "scheme must be http or https, got '"@ + sch + "'"@)),
{
    match validate_http_url(raw) {
        Err(reason) => Err(Error::InvalidBaseUrl(raw.to_owned(), reason)),
        Ok(()) => {
            let v = str_chars(raw);
            if v.len() > 0 && v[v.len() - 1] == '/' {
                Ok(())
            } else {
                Err(
                    Error::InvalidBaseUrl(
                        raw.to_owned(),
                        String::from_str("must end with a trailing slash"),
                    ),
                )
            }
        },
    }
}

/// Validates a friend URL: it must be a well-formed HTTP(S) URL. The
/// error names the URL and the reason: a rejected scheme, or the URL
/// collaborator's parse error.
pub fn validate_friend_url(raw: &str) -> (r: Result<(), Error>)
    ensures
        r is Ok <==> url_ok(raw@),
        r matches Err(e) ==> e matches Error::InvalidFriendUrl(u, reason) && u@ == raw@ && (
        url_scheme(raw@) matches Some(sch) ==> (!(sch == "http"@ || sch == "https"@) ==> reason@
            == "scheme must be http or https, got '"@ + sch + "'"@)),
{
    match validate_http_url(raw) {
        Err(reason) => Err(Error::InvalidFriendUrl(raw.to_owned(), reason)),
        Ok(()) => Ok(()),
    }
}

impl Config {
    /// Validates the parsed configuration: the base URL must be a
    /// well-formed HTTP(S) URL with a trailing slash and every friend URL
    /// a well-formed HTTP(S) URL. That the output directory exists on
    /// disk is the caller's check to make before building.
    pub fn validate(&self) -> (r: Result<(), Error>)
        ensures
            r is Ok <==> base_url_ok(self.site.base_url@) && (forall|k: int|
                0 <= k < self.friends@.len() ==> url_ok(str_views(self.friends@)[k])),
            r matches Err(e) ==> ((e matches Error::InvalidBaseUrl(u, _) && u@
                == self.site.base_url@ && !base_url_ok(self.site.base_url@)) || (
            base_url_ok(self.site.base_url@) && exists|k: int|
                {
                    &&& 0 <= k < self.friends@.len()
                    &&& !url_ok(#[trigger] str_views(self.friends@)[k])
                    &&& (forall|j: int| 0 <= j < k ==> url_ok(str_views(self.friends@)[j]))
                    &&& (e matches Error::InvalidFriendUrl(u, _) && u@ == str_views(
                        self.friends@,
                    )[k])
                })),
    {
        match validate_base_url(self.site.base_url.as_str()) {
            Err(e) => {
                return Err(e);
            },
            Ok(()) => {},
        }
        let mut k: usize = 0;
        while k < self.friends.len()
            invariant
                k <= self.friends@.len(),
                forall|j: int| 0 <= j < k ==> url_ok(str_views(self.friends@)[j]),
                base_url_ok(self.site.base_url@),
            decreases self.friends.len() - k,
        {
            match validate_friend_url(self.friends[k].as_str()) {
                Err(e) => {
                    proof {
                        assert(!url_ok(str_views(self.friends@)[k as int]));
                    }
                    return Err(e);
                },
                Ok(()) => {},
            }
            k = k + 1;
        }
        Ok(())
    }
}

} // verus!
