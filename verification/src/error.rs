//! Errors of the library's operations.

use vstd::prelude::*;

verus! {

use vstd::string::StringExecFns;

/// Everything that can go wrong while building or syncing a link graph.
/// Each variant carries the offending input or the underlying cause as
/// plain text, so a caller can diagnose the failure without a stack trace.
#[derive(Debug, Clone, PartialEq, Eq)]
pub enum Error {
    /// A configuration file was not found at the given path.
    ConfigNotFound(String),
    /// A configuration file could not be read.
    ConfigRead(String),
    /// A file could not be read; carries the cause and the path.
    FileRead(String, String),
    /// A file could not be written; carries the cause and the path.
    FileWrite(String, String),
    /// A configuration file could not be parsed.
    ConfigParse(String),
    /// A value could not be serialized to JSON.
    JsonSerialize(String),
    /// A document could not be deserialized from JSON.
    JsonDeserialize(String),
    /// The HTML scan could not be set up; carries the reason, naming the
    /// offending exclusion selector.
    HtmlParse(String),
    /// The configured base URL is unusable; carries the URL and the reason.
    InvalidBaseUrl(String, String),
    /// A configured friend URL is unusable; carries the URL and the reason.
    InvalidFriendUrl(String, String),
    /// The configured output directory does not exist.
    OutputDirNotFound(String),
    /// An HTTP request failed.
    HttpRequest(String),
    /// An HTTP response body could not be read.
    HttpBody(String),
}

/// The rendered message of an error.
pub open spec fn message_spec(e: &Error) -> Seq<char> {
    match e {
        Error::ConfigNotFound(p) => "config file not found: "@ + p@,
        Error::ConfigRead(c) => "failed to read config file: "@ + c@,
        Error::FileRead(c, p) => "failed to read "@ + p@ + ": "@ + c@,
        Error::FileWrite(c, p) => "failed to write "@ + p@ + ": "@ + c@,
        Error::ConfigParse(c) => "failed to parse config: "@ + c@,
        Error::JsonSerialize(c) => "failed to serialize JSON: "@ + c@,
        Error::JsonDeserialize(c) => "failed to deserialize JSON: "@ + c@,
        Error::HtmlParse(c) => "HTML parsing failed: "@ + c@,
        Error::InvalidBaseUrl(u, r) => "invalid base URL '"@ + u@ + "': "@ + r@,
        Error::InvalidFriendUrl(u, r) => "invalid friend URL '"@ + u@ + "': "@ + r@,
        Error::OutputDirNotFound(p) => "output directory does not exist: "@ + p@,
        Error::HttpRequest(c) => "HTTP request failed: "@ + c@,
        Error::HttpBody(c) => "failed to read HTTP response body: "@ + c@,
    }
}

impl Error {
    /// Renders the error as one human-readable line.
    pub fn message(&self) -> (r: String)
        ensures
            r@ == message_spec(self),
    {
        match self {
            Error::ConfigNotFound(p) => {
                let mut m = String::from_str("config file not found: ");
                m.append(p.as_str());
                m
            },
            Error::ConfigRead(c) => {
                let mut m = String::from_str("failed to read config file: ");
                m.append(c.as_str());
                m
            },
            Error::FileRead(c, p) => {
                let mut m = String::from_str("failed to read ");
                m.append(p.as_str());
                m.append(": ");
                m.append(c.as_str());
                m
            },
            Error::FileWrite(c, p) => {
                let mut m = String::from_str("failed to write ");
                m.append(p.as_str());
                m.append(": ");
                m.append(c.as_str());
                m
            },
            Error::ConfigParse(c) => {
                let mut m = String::from_str("failed to parse config: ");
                m.append(c.as_str());
                m
            },
            Error::JsonSerialize(c) => {
                let mut m = String::from_str("failed to serialize JSON: ");
                m.append(c.as_str());
                m
            },
            Error::JsonDeserialize(c) => {
                let mut m = String::from_str("failed to deserialize JSON: ");
                m.append(c.as_str());
                m
            },
            Error::HtmlParse(c) => {
                let mut m = String::from_str("HTML parsing failed: ");
                m.append(c.as_str());
                m
            },
            Error::InvalidBaseUrl(u, r) => {
                let mut m = String::from_str("invalid base URL '");
                m.append(u.as_str());
                m.append("': ");
                m.append(r.as_str());
                m
            },
            Error::InvalidFriendUrl(u, r) => {
                let mut m = String::from_str("invalid friend URL '");
                m.append(u.as_str());
                m.append("': ");
                m.append(r.as_str());
                m
            },
            Error::OutputDirNotFound(p) => {
                let mut m = String::from_str("output directory does not exist: ");
                m.append(p.as_str());
                m
            },
            Error::HttpRequest(c) => {
                let mut m = String::from_str("HTTP request failed: ");
                m.append(c.as_str());
                m
            },
            Error::HttpBody(c) => {
                let mut m = String::from_str("failed to read HTTP response body: ");
                m.append(c.as_str());
                m
            },
        }
    }
}

} // verus!
