//! Clipboard blob garbage collection: which stored blobs no live
//! clipboard message refers to any more.
use vstd::prelude::*;

use crate::text::{ascending, sorted_difference, text_set};

verus! {

/// The blobs to delete: those on disk that no live message references,
/// ascending, each once.
pub fn orphaned_blobs(on_disk: &Vec<String>, referenced: &Vec<String>) -> (r: Vec<String>)
    ensures
        ascending(r@),
        text_set(r@) == text_set(on_disk@).difference(text_set(referenced@)),
{
    sorted_difference(on_disk, referenced)
}

} // verus!
