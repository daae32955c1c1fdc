//! A decoded, in-memory form of a slotted page: its kind, its overflow
//! link, its pointer entries as plain values, and the raw bytes of its
//! cell area.

use vstd::prelude::*;

use crate::disk_manager::PageId;
use crate::slotted_page::{
    copy_range, spec_cell_offset, spec_magic, spec_next_overflow, spec_num_pointers,
    spec_pointer_length, spec_pointer_offset, spec_valid_layout, CellPointer, SlottedPage,
    HEADER_SIZE, MAGIC_NUMBER_LEAF, PAGE_SIZE,
};

verus! {

/// What a page's magic number says it is.
#[derive(Debug, Clone, Copy, PartialEq, Eq, Structural)]
pub enum PageType {
    Branch,
    Leaf,
}

/// A page read out into plain values.
#[derive(Debug)]
pub struct MemoryPage {
    pub page_type: PageType,
    pub next_over_flow_page_id: PageId,
    pub pointers: Vec<CellPointer>,
    pub cells: Vec<u8>,
}

impl MemoryPage {
    /// Decodes a page: a leaf magic number gives `Leaf` and any other
    /// `Branch`; the pointer array is read entry by entry; the cell area
    /// is taken from the cell offset to the page end.
    pub fn from(page: &SlottedPage) -> (r: MemoryPage)
        requires
            page.wf(),
            spec_valid_layout(page@),
        ensures
            (r.page_type == PageType::Leaf) == (spec_magic(page@) == MAGIC_NUMBER_LEAF),
            r.next_over_flow_page_id.0 == spec_next_overflow(page@),
            r.pointers@.len() == spec_num_pointers(page@),
            forall|i: int|
                0 <= i < spec_num_pointers(page@) ==> (#[trigger] r.pointers@[i]).cell_offset
                    == spec_pointer_offset(page@, i) && r.pointers@[i].cell_length
                    == spec_pointer_length(page@, i),
            r.cells@ == page@.subrange(HEADER_SIZE + spec_cell_offset(page@), PAGE_SIZE as int),
    {
        let magic_number = page.magic_number();
        let page_type = if magic_number == MAGIC_NUMBER_LEAF {
            PageType::Leaf
        } else {
            PageType::Branch
        };
        let next_over_flow_page_id = PageId(page.next_overflow_page_id());
        let n = page.number_of_pointers() as usize;
        let mut pointers: Vec<CellPointer> = Vec::new();
        let mut i: usize = 0;
        while i < n
            invariant
                page.wf(),
                spec_valid_layout(page@),
                n == spec_num_pointers(page@),
                i <= n,
                pointers@.len() == i,
                forall|t: int|
                    0 <= t < i ==> (#[trigger] pointers@[t]).cell_offset == spec_pointer_offset(
                        page@,
                        t,
                    ) && pointers@[t].cell_length == spec_pointer_length(page@, t),
            decreases n - i,
        {
            pointers.push(page.pointer_view(i));
            i = i + 1;
        }
        let cell_offset = page.cell_offset() as usize;
        let cells = copy_range(page.to_bytes(), HEADER_SIZE + cell_offset, PAGE_SIZE - (
        HEADER_SIZE + cell_offset));
        MemoryPage { page_type, next_over_flow_page_id, pointers, cells }
    }
}

} // verus!
