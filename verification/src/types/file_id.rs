//! Compact file identifiers.
use vstd::prelude::*;

verus! {

/// Opaque identifier for a file in the search index.
#[derive(Debug, Clone, Copy, PartialEq, Eq, Hash, Structural)]
pub struct FileId(u64);

impl View for FileId {
    type V = u64;

    closed spec fn view(&self) -> u64 {
        self.0
    }
}

impl FileId {
    /// Create a `FileId` from a raw integer.
    pub fn new(id: u64) -> (r: Self)
        ensures
            r@ == id,
    {
        FileId(id)
    }

    /// Return the raw integer value.
    pub fn as_u64(self) -> (r: u64)
        ensures
            r == self@,
    {
        self.0
    }
}

/// Two `FileId`s are equal exactly when their raw values are equal.
pub proof fn lemma_file_id_view_injective(a: FileId, b: FileId)
    ensures
        a@ == b@ <==> a == b,
{
}

} // verus!
