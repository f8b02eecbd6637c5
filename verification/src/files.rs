//! The document record handed in by the file-reading collaborator and handed
//! back, with transformed content, to the file-writing collaborator.

use vstd::prelude::*;

verus! {

/// One source or output document: a file name (with its extension) and the
/// full text content.
pub struct File {
    pub name: String,
    pub content: String,
}

} // verus!
