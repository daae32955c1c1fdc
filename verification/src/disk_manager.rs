//! Logical page identifiers and their mapping to byte offsets in the
//! page file. The file itself is opened, read and written by the caller
//! that owns it; the library fixes the arithmetic of the mapping: page
//! `i` lives at byte offset `i * PAGE_SIZE`.

use vstd::prelude::*;

use crate::slotted_page::PAGE_SIZE;

verus! {

/// Opaque 32-bit logical page identifier. Page 0 is reserved for the
/// tree root.
#[derive(Debug, Clone, Copy, PartialEq, Eq, Hash, Structural)]
pub struct PageId(pub u32);

impl PageId {
    pub fn to_u32(self) -> (r: u32)
        ensures
            r == self.0,
    {
        self.0
    }

    pub fn to_u64(self) -> (r: u64)
        ensures
            r == self.0,
    {
        self.0 as u64
    }
}

/// The byte offset of a page in the page file.
pub fn page_offset(page_id: PageId) -> (r: u64)
    ensures
        r == page_id.0 * PAGE_SIZE,
{
    page_id.to_u64() * (PAGE_SIZE as u64)
}

} // verus!
