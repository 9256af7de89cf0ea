//! Writes into kernel control files, as plain values: which file, and what
//! text goes into it.

use vstd::prelude::*;

verus! {

/// Write `contents` into the file at `path`.
#[derive(Debug, Clone, PartialEq, Eq)]
pub struct FileWrite {
    pub path: String,
    pub contents: String,
}

} // verus!
