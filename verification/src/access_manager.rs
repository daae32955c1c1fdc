//! The single entry point for obtaining pages: one buffer pool plus a
//! table mapping each logical page id to the cache slot last known to
//! hold it.
//!
//! A slot can be reassigned by clock-sweep eviction without the table
//! being told, so a hit is re-validated against the slot's contents: an
//! empty page there counts as a miss. The disk itself belongs to the
//! caller; on a miss, the caller reads the page image and hands it to
//! `admit_page`, which verifies the checksum before the pool takes it.

use std::collections::HashMap;

use vstd::prelude::*;

use crate::buffer_manager::{BufferError, BufferId, BufferItem, BufferManager, PageBuffer};
use crate::disk_manager::PageId;
use crate::slotted_page::{
    spec_check_sum_field, spec_fresh_page, spec_is_empty, spec_page_check_sum, SlottedPage,
    MAGIC_NUMBER_LEAF,
};

verus! {

broadcast use vstd::std_specs::hash::group_hash_axioms;

/// How many slots the pool of an access manager holds.
pub const DEFAULT_POOL_SIZE: usize = 10;

/// An error that the access manager reports.
#[derive(Debug, Clone, Copy, PartialEq, Eq, Structural)]
pub enum Error {
    /// The page could not be read from disk.
    PageNotFound,
    /// The page image read from disk fails its checksum.
    CorruptPage,
    /// The buffer pool is saturated with pinned buffers.
    NoFreeBuffer,
}

/// One buffer pool and the id-to-slot table over it.
pub struct AccessManager {
    pub buffer_manager: BufferManager,
    pub buffer_table: HashMap<u32, u32>,
}

/// A cache hit: the table names a slot for `page_id`, the slot exists,
/// and it still holds a non-empty page.
pub open spec fn spec_hit(table: Map<u32, u32>, cache: Seq<BufferItem>, page_id: u32) -> bool {
    &&& table.contains_key(page_id)
    &&& table[page_id] < cache.len()
    &&& !spec_is_empty(cache[table[page_id] as int].buffer.page@)
}

/// The buffer a hit returns: the contents of the slot the table names.
pub open spec fn spec_cached_buffer(
    table: Map<u32, u32>,
    cache: Seq<BufferItem>,
    page_id: u32,
) -> PageBuffer {
    cache[table[page_id] as int].buffer
}

/// The pool after a hit: only the named slot's usage count has moved,
/// up by one, saturating.
pub open spec fn spec_after_hit(
    table: Map<u32, u32>,
    cache: Seq<BufferItem>,
    page_id: u32,
) -> Seq<BufferItem> {
    let slot = table[page_id] as int;
    cache.update(
        slot,
        BufferItem {
            is_pinned: cache[slot].is_pinned,
            usage_count: if cache[slot].usage_count == u32::MAX {
                u32::MAX
            } else {
                (cache[slot].usage_count + 1) as u32
            },
            buffer: cache[slot].buffer,
        },
    )
}

/// Absent eviction, the cache is stable under hits: a hit for `page_id`
/// leaves the table and every buffer as they were, so a second fetch for
/// the same id hits again and returns the same buffer.
pub proof fn lemma_consecutive_hits_return_one_buffer(
    table: Map<u32, u32>,
    cache: Seq<BufferItem>,
    page_id: u32,
)
    requires
        spec_hit(table, cache, page_id),
    ensures
        spec_hit(table, spec_after_hit(table, cache, page_id), page_id),
        spec_cached_buffer(table, spec_after_hit(table, cache, page_id), page_id)
            == spec_cached_buffer(table, cache, page_id),
{
}

impl AccessManager {
    /// The pool is well formed.
    pub open spec fn wf(self) -> bool {
        self.buffer_manager.wf()
    }

    /// An access manager over a fresh pool of the default capacity.
    pub fn new() -> (r: AccessManager)
        ensures
            r.wf(),
            r.buffer_manager.cache@.len() == DEFAULT_POOL_SIZE,
            r.buffer_table@ == Map::<u32, u32>::empty(),
            forall|i: int|
                0 <= i < r.buffer_manager.cache@.len() ==> !(
                #[trigger] r.buffer_manager.cache@[i]).is_pinned,
    {
        let buffer_manager = BufferManager::new(DEFAULT_POOL_SIZE);
        let buffer_table: HashMap<u32, u32> = HashMap::new();
        AccessManager { buffer_manager, buffer_table }
    }

    /// Installs the tree root, page 0: the image read from disk when the
    /// caller found one, else a fresh leaf page marked dirty so that it
    /// is eventually written back. Fails with `NoFreeBuffer` exactly when
    /// the pool's sweep finds no slot.
    pub fn initialize(&mut self, root_page: Option<SlottedPage>) -> (r: Result<(), Error>)
        requires
            old(self).wf(),
            root_page matches Some(p) ==> p.wf(),
        ensures
            final(self).wf(),
            ({
                let sweep = crate::buffer_manager::spec_sweep(
                    old(self).buffer_manager.cache@,
                    old(self).buffer_manager.buffer_cursor.0 as int,
                    0,
                );
                match r {
                    Ok(()) => {
                        &&& sweep matches Ok((swept, victim)) && {
                            let slot = final(self).buffer_manager.cache@[victim];
                            &&& final(self).buffer_table@ == old(self).buffer_table@.insert(
                                0u32,
                                victim as u32,
                            )
                            &&& final(self).buffer_manager.cache@.len() == old(
                                self,
                            ).buffer_manager.cache@.len()
                            &&& !slot.is_pinned
                            &&& slot.usage_count == 0
                            &&& (root_page matches Some(p) ==> slot.buffer.page@ == p@
                                && !slot.buffer.is_dirty)
                            &&& (root_page is None ==> slot.buffer.page@ == spec_fresh_page(
                                MAGIC_NUMBER_LEAF,
                            ) && slot.buffer.is_dirty)
                        }
                    },
                    Err(e) => {
                        &&& e == Error::NoFreeBuffer
                        &&& sweep is Err
                        &&& final(self).buffer_table@ == old(self).buffer_table@
                    },
                }
            }),
    {
        let page_id = PageId(0);
        let fresh = root_page.is_none();
        let page = match root_page {
            Some(p) => p,
            None => SlottedPage::new(MAGIC_NUMBER_LEAF),
        };
        proof {
            crate::buffer_manager::lemma_sweep_frame(
                self.buffer_manager.cache@,
                self.buffer_manager.buffer_cursor.0 as int,
                0,
            );
        }
        let buffer_id = match self.buffer_manager.add_page(page) {
            Ok(id) => id,
            Err(BufferError::NoFreeBuffer) => {
                return Err(Error::NoFreeBuffer);
            },
        };
        if fresh {
            self.buffer_manager.mark_dirty(buffer_id);
        }
        self.buffer_table.insert(page_id.to_u32(), buffer_id.to_u32());
        Ok(())
    }

    /// The cache-hit path: the slot the table names for `page_id`, when
    /// that slot still holds a non-empty page. Bumps the slot's usage
    /// count and changes nothing else, so two consecutive hits for the
    /// same id return the same slot's buffer unchanged.
    pub fn fetch_cached(&mut self, page_id: PageId) -> (r: Option<&PageBuffer>)
        requires
            old(self).wf(),
        ensures
            final(self).wf(),
            final(self).buffer_table@ == old(self).buffer_table@,
            final(self).buffer_manager.cache@.len() == old(self).buffer_manager.cache@.len(),
            final(self).buffer_manager.buffer_cursor == old(self).buffer_manager.buffer_cursor,
            ({
                let table = old(self).buffer_table@;
                let cache = old(self).buffer_manager.cache@;
                let hit = spec_hit(table, cache, page_id.0);
                &&& r is Some <==> hit
                &&& (hit ==> *r->Some_0 == spec_cached_buffer(table, cache, page_id.0)
                    && final(self).buffer_manager.cache@ == spec_after_hit(
                    table,
                    cache,
                    page_id.0,
                ))
                &&& (!hit ==> final(self).buffer_manager.cache@ == cache)
            }),
    {
        let buffer_id = match self.buffer_table.get(&page_id.0) {
            Some(id) => BufferId(*id),
            None => {
                return None;
            },
        };
        self.buffer_manager.fetch_page(buffer_id)
    }

    /// Takes in a page image read from disk: verifies its checksum,
    /// installs it in the pool, and records the id-to-slot mapping,
    /// overwriting any stale one. Fails with `CorruptPage` exactly when
    /// the stored checksum differs from the recomputed one, and with
    /// `NoFreeBuffer` exactly when the pool's sweep finds no slot.
    pub fn admit_page(&mut self, page_id: PageId, page: SlottedPage) -> (r: Result<
        BufferId,
        Error,
    >)
        requires
            old(self).wf(),
            page.wf(),
        ensures
            final(self).wf(),
            ({
                let sweep = crate::buffer_manager::spec_sweep(
                    old(self).buffer_manager.cache@,
                    old(self).buffer_manager.buffer_cursor.0 as int,
                    0,
                );
                let intact = spec_check_sum_field(page@) == spec_page_check_sum(page@);
                match r {
                    Ok(id) => {
                        &&& intact
                        &&& sweep matches Ok((swept, victim)) && {
                            &&& id.0 == victim
                            &&& final(self).buffer_manager.cache@ == swept.update(
                                victim,
                                BufferItem {
                                    is_pinned: false,
                                    usage_count: 0,
                                    buffer: PageBuffer { is_dirty: false, page },
                                },
                            )
                            &&& final(self).buffer_table@ == old(self).buffer_table@.insert(
                                page_id.0,
                                id.0,
                            )
                        }
                    },
                    Err(e) => {
                        &&& final(self).buffer_table@ == old(self).buffer_table@
                        &&& (e == Error::CorruptPage <==> !intact)
                        &&& (e == Error::CorruptPage ==> final(self).buffer_manager.cache@ == old(
                            self,
                        ).buffer_manager.cache@)
                        &&& (e == Error::NoFreeBuffer ==> intact && (sweep matches Err(
                            (swept, _),
                        ) && final(self).buffer_manager.cache@ == swept))
                        &&& e != Error::PageNotFound
                    },
                }
            }),
    {
        let stored = page.stored_check_sum();
        let computed = page.check_sum();
        if stored != computed {
            return Err(Error::CorruptPage);
        }
        proof {
            crate::buffer_manager::lemma_sweep_frame(
                self.buffer_manager.cache@,
                self.buffer_manager.buffer_cursor.0 as int,
                0,
            );
        }
        let buffer_id = match self.buffer_manager.add_page(page) {
            Ok(id) => id,
            Err(BufferError::NoFreeBuffer) => {
                return Err(Error::NoFreeBuffer);
            },
        };
        self.buffer_table.insert(page_id.to_u32(), buffer_id.to_u32());
        Ok(buffer_id)
    }
}

} // verus!
