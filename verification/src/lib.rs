//! Build-time rewriting of a module's top-level structure: the two
//! framework-recognized export shapes are wrapped with serialization-aware
//! adapter calls, and elements carrying the marker attribute are lifted into
//! a wrapper invocation that serializes their attributes.

use vstd::prelude::*;

pub mod app;
pub mod ast;
pub mod classify;
pub mod initprops;
pub mod names;
pub mod page;
pub mod utils;

verus! {

/// The plugin configuration: the keys excluded from serialization.
#[derive(Debug)]
pub struct Config {
    pub excluded: Vec<String>,
}

impl Default for Config {
    /// An empty exclusion list.
    fn default() -> (r: Self)
        ensures
            r.excluded@.len() == 0,
    {
        Config { excluded: Vec::new() }
    }
}

/// Which engine handles a file.
#[derive(Debug, Clone, Copy, PartialEq, Eq)]
pub enum DirType {
    Page,
    App,
}

} // verus!
