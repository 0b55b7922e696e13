//! The options of the command line.

use vstd::prelude::*;

verus! {

/// What the user asks for.
#[derive(Clone, Debug)]
pub struct Opts {
    /// Path of the file to search, as text.
    pub haystack: String,
    /// Search term, for an exact full-text search.
    pub needle: Option<String>,
    /// Search prompt.
    pub prompt: String,
}

} // verus!
