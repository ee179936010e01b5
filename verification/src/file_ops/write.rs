//! The write tool: replaces a file's whole content behind a backup, through
//! the plans of the write-protection layer.

use vstd::prelude::*;

verus! {

/// Arguments of one write: a project-relative path and the new full text.
pub struct WriteParams {
    pub path: String,
    pub content: String,
}

} // verus!
