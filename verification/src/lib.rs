//! GraphGarden: turn a rendered static site into a portable link graph.
//!
//! The library scans rendered HTML pages, classifies every anchor href as
//! internal, friend, or dropped, normalizes link targets so that they are
//! byte-identical to the page URLs derived from file paths, and assembles
//! the resulting nodes and edges into a publishable document. It also
//! implements the timestamp-fingerprint cache used when syncing a friend
//! site's published document.

use vstd::prelude::*;

pub mod builder;
pub mod classify;
pub mod config;
pub mod error;
pub mod extract;
pub mod fetch;
pub mod jsonio;
pub mod model;
pub mod scan;
pub mod selector;
pub mod text;
pub mod urlnorm;

verus! {

/// Greeting used by the command-line front end to confirm the library is linked.
pub fn hello() -> (r: &'static str)
    ensures
        r@ == "Hello from GraphGarden!"@,
{
    "Hello from GraphGarden!"
}

} // verus!
