//! A fixed-capacity page cache with clock-sweep replacement.
//!
//! The pool owns a slot array; a slot holds one page buffer together with
//! the pin flag and usage count that the clock sweep consults. The sweep
//! walks the slots from the cursor: a pinned slot is skipped and counted, a
//! slot with a positive usage count has it decremented and is skipped, and
//! the first slot with neither is the eviction target. Once the count of
//! pinned visits reaches the capacity the pool reports itself saturated.

use vstd::prelude::*;

use crate::slotted_page::{spec_is_empty, spec_magic, SlottedPage};

verus! {

/// Index of a slot in the buffer pool.
#[derive(Debug, Clone, Copy, PartialEq, Eq, Hash, Structural)]
pub struct BufferId(pub u32);

impl BufferId {
    pub fn to_usize(&self) -> (r: usize)
        ensures
            r == self.0,
    {
        self.0 as usize
    }

    pub fn to_u32(self) -> (r: u32)
        ensures
            r == self.0,
    {
        self.0
    }

    pub fn to_u64(self) -> (r: u64)
        ensures
            r == self.0,
    {
        self.0 as u64
    }

    pub fn increment_id(self) -> (r: BufferId)
        requires
            self.0 < u32::MAX,
        ensures
            r.0 == self.0 + 1,
    {
        BufferId(self.0 + 1)
    }
}

/// An error that the buffer pool reports.
#[derive(Debug, Clone, Copy, PartialEq, Eq, Structural)]
pub enum BufferError {
    /// Every slot was pinned before the sweep found an eviction target.
    NoFreeBuffer,
}

/// An in-memory cache entry: a page and its dirty flag.
#[derive(Debug)]
pub struct PageBuffer {
    pub is_dirty: bool,
    pub page: SlottedPage,
}

impl PageBuffer {
    /// The held page has the right size.
    pub open spec fn wf(self) -> bool {
        self.page.wf()
    }
}

impl Default for PageBuffer {
    /// A clean buffer holding a page whose magic number 0 marks it empty.
    fn default() -> (r: PageBuffer)
        ensures
            r.wf(),
            !r.is_dirty,
            spec_magic(r.page@) == 0,
            spec_is_empty(r.page@),
    {
        PageBuffer { is_dirty: false, page: SlottedPage::new(0) }
    }
}

/// One slot of the buffer pool.
#[derive(Debug)]
pub struct BufferItem {
    pub is_pinned: bool,
    pub usage_count: u32,
    pub buffer: PageBuffer,
}

impl BufferItem {
    /// The held buffer is well formed.
    pub open spec fn wf(self) -> bool {
        self.buffer.wf()
    }
}

/// The buffer pool: a slot array and the clock-sweep cursor.
pub struct BufferManager {
    pub cache: Vec<BufferItem>,
    pub buffer_cursor: BufferId,
}

/// The total of all usage counts, the part of the sweep's termination
/// measure that decrementing decreases.
pub open spec fn spec_sum_usage(cache: Seq<BufferItem>) -> nat
    decreases cache.len(),
{
    if cache.len() == 0 {
        0
    } else {
        cache[0].usage_count as nat + spec_sum_usage(cache.drop_first())
    }
}

proof fn lemma_sum_usage_update_lt(cache: Seq<BufferItem>, i: int, item: BufferItem)
    requires
        0 <= i < cache.len(),
        item.usage_count < cache[i].usage_count,
    ensures
        spec_sum_usage(cache.update(i, item)) < spec_sum_usage(cache),
    decreases i,
{
    if i == 0 {
        assert(cache.update(0, item).drop_first() =~= cache.drop_first());
    } else {
        assert(cache.update(i, item).drop_first() =~= cache.drop_first().update(i - 1, item));
        lemma_sum_usage_update_lt(cache.drop_first(), i - 1, item);
    }
}

/// The clock sweep, step by step: from `cursor`, having already visited
/// `pinned_count` pinned slots, it either lands on an unpinned slot of
/// usage zero (`Ok`: the cache as decremented so far and the victim slot),
/// or gives up once the pinned visits reach the capacity (`Err`: the cache
/// as decremented so far and the cursor where it stopped).
pub open spec fn spec_sweep(cache: Seq<BufferItem>, cursor: int, pinned_count: int) -> Result<
    (Seq<BufferItem>, int),
    (Seq<BufferItem>, int),
>
    decreases cache.len() - pinned_count, spec_sum_usage(cache),
    via spec_sweep_decreases
{
    if pinned_count >= cache.len() || cursor < 0 || cursor >= cache.len() {
        Err((cache, cursor))
    } else if cache[cursor].is_pinned {
        spec_sweep(cache, (cursor + 1) % (cache.len() as int), pinned_count + 1)
    } else if cache[cursor].usage_count > 0 {
        spec_sweep(
            cache.update(
                cursor,
                BufferItem {
                    is_pinned: cache[cursor].is_pinned,
                    usage_count: (cache[cursor].usage_count - 1) as u32,
                    buffer: cache[cursor].buffer,
                },
            ),
            (cursor + 1) % (cache.len() as int),
            pinned_count,
        )
    } else {
        Ok((cache, cursor))
    }
}

#[via_fn]
proof fn spec_sweep_decreases(cache: Seq<BufferItem>, cursor: int, pinned_count: int) {
    if !(pinned_count >= cache.len() || cursor < 0 || cursor >= cache.len()) {
        if cache[cursor].is_pinned {
        } else if cache[cursor].usage_count > 0 {
            lemma_sum_usage_update_lt(
                cache,
                cursor,
                BufferItem {
                    is_pinned: cache[cursor].is_pinned,
                    usage_count: (cache[cursor].usage_count - 1) as u32,
                    buffer: cache[cursor].buffer,
                },
            );
        }
    }
}

/// What the sweep leaves alone: it never changes the slot count, a pin,
/// or a buffer, and it only ever decrements usage counts. A victim it
/// finds is in range, unpinned, and of usage zero.
pub proof fn lemma_sweep_frame(cache: Seq<BufferItem>, cursor: int, pinned_count: int)
    ensures
        match spec_sweep(cache, cursor, pinned_count) {
            Ok((swept, victim)) => {
                &&& swept.len() == cache.len()
                &&& 0 <= victim < cache.len()
                &&& !swept[victim].is_pinned
                &&& swept[victim].usage_count == 0
                &&& forall|i: int|
                    0 <= i < cache.len() ==> (#[trigger] swept[i]).is_pinned
                        == cache[i].is_pinned && swept[i].buffer == cache[i].buffer
                        && swept[i].usage_count <= cache[i].usage_count
            },
            Err((swept, stopped)) => {
                &&& swept.len() == cache.len()
                &&& forall|i: int|
                    0 <= i < cache.len() ==> (#[trigger] swept[i]).is_pinned
                        == cache[i].is_pinned && swept[i].buffer == cache[i].buffer
                        && swept[i].usage_count <= cache[i].usage_count
            },
        },
    decreases cache.len() - pinned_count, spec_sum_usage(cache),
{
    if pinned_count >= cache.len() || cursor < 0 || cursor >= cache.len() {
    } else if cache[cursor].is_pinned {
        lemma_sweep_frame(cache, (cursor + 1) % (cache.len() as int), pinned_count + 1);
    } else if cache[cursor].usage_count > 0 {
        let updated = cache.update(
            cursor,
            BufferItem {
                is_pinned: cache[cursor].is_pinned,
                usage_count: (cache[cursor].usage_count - 1) as u32,
                buffer: cache[cursor].buffer,
            },
        );
        lemma_sum_usage_update_lt(cache, cursor, updated[cursor]);
        lemma_sweep_frame(updated, (cursor + 1) % (cache.len() as int), pinned_count);
    }
}

/// When every slot is pinned the sweep finds no eviction target: it
/// decrements nothing and gives up, so `add_page` fails with
/// `NoFreeBuffer` and leaves the pool as it stood.
pub proof fn lemma_sweep_all_pinned(cache: Seq<BufferItem>, cursor: int, pinned_count: int)
    requires
        forall|i: int| 0 <= i < cache.len() ==> cache[i].is_pinned,
        0 <= pinned_count,
    ensures
        spec_sweep(cache, cursor, pinned_count) matches Err((swept, _)) && swept == cache,
    decreases cache.len() - pinned_count,
{
    if pinned_count >= cache.len() || cursor < 0 || cursor >= cache.len() {
    } else {
        lemma_sweep_all_pinned(cache, (cursor + 1) % (cache.len() as int), pinned_count + 1);
    }
}

/// When no slot is pinned the sweep always finds an eviction target, so
/// `add_page` succeeds.
pub proof fn lemma_sweep_no_pins(cache: Seq<BufferItem>, cursor: int, pinned_count: int)
    requires
        forall|i: int| 0 <= i < cache.len() ==> !cache[i].is_pinned,
        0 <= cursor < cache.len(),
        0 <= pinned_count < cache.len(),
    ensures
        spec_sweep(cache, cursor, pinned_count) is Ok,
    decreases spec_sum_usage(cache),
{
    if cache[cursor].is_pinned {
    } else if cache[cursor].usage_count > 0 {
        let updated = cache.update(
            cursor,
            BufferItem {
                is_pinned: cache[cursor].is_pinned,
                usage_count: (cache[cursor].usage_count - 1) as u32,
                buffer: cache[cursor].buffer,
            },
        );
        lemma_sum_usage_update_lt(cache, cursor, updated[cursor]);
        lemma_sweep_no_pins(updated, (cursor + 1) % (cache.len() as int), pinned_count);
    }
}

impl BufferManager {
    /// The cursor is in range, the capacity positive and addressable by a
    /// `BufferId`, and every slot holds a full-size page.
    pub open spec fn wf(self) -> bool {
        &&& 0 < self.cache@.len() <= u32::MAX
        &&& self.buffer_cursor.0 < self.cache@.len()
        &&& forall|i: int| 0 <= i < self.cache@.len() ==> self.cache@[i].wf()
    }

    /// A pool of `size` empty, unpinned slots with the cursor at slot 0.
    pub fn new(size: usize) -> (r: BufferManager)
        requires
            1 <= size <= u32::MAX,
        ensures
            r.wf(),
            r.cache@.len() == size,
            r.buffer_cursor.0 == 0,
            forall|i: int|
                0 <= i < size ==> !r.cache@[i].is_pinned && r.cache@[i].usage_count == 0
                    && !r.cache@[i].buffer.is_dirty && spec_is_empty(r.cache@[i].buffer.page@),
    {
        let mut cache: Vec<BufferItem> = Vec::new();
        let mut j: usize = 0;
        while j < size
            invariant
                j <= size,
                cache@.len() == j,
                forall|i: int|
                    0 <= i < j ==> cache@[i].wf() && !cache@[i].is_pinned
                        && cache@[i].usage_count == 0 && !cache@[i].buffer.is_dirty
                        && spec_is_empty(cache@[i].buffer.page@),
            decreases size - j,
        {
            cache.push(
                BufferItem { is_pinned: false, usage_count: 0, buffer: PageBuffer::default() },
            );
            j = j + 1;
        }
        BufferManager { cache, buffer_cursor: BufferId(0) }
    }

    /// Advances the clock-sweep cursor by one slot, wrapping at the
    /// capacity.
    pub fn increment_next_buffer_id(&mut self)
        requires
            old(self).wf(),
        ensures
            final(self).wf(),
            final(self).cache == old(self).cache,
            final(self).buffer_cursor.0 as int == (old(self).buffer_cursor.0 + 1) as int % (
            old(self).cache@.len() as int),
    {
        let next_id = ((self.buffer_cursor.to_usize() + 1) % self.cache.len()) as u32;
        self.buffer_cursor = BufferId(next_id);
    }

    /// Runs the clock sweep from the cursor and installs `page` in the
    /// chosen slot as a clean, unpinned, zero-usage buffer, advancing the
    /// cursor past it. Fails with `NoFreeBuffer`, leaving behind whatever
    /// usage counts the sweep decremented, exactly when the sweep sees as
    /// many pinned visits as the pool has slots.
    pub fn add_page(&mut self, page: SlottedPage) -> (r: Result<BufferId, BufferError>)
        requires
            old(self).wf(),
            page.wf(),
        ensures
            final(self).wf(),
            final(self).cache@.len() == old(self).cache@.len(),
            r matches Ok(id) ==> id.0 < old(self).cache@.len(),
            match spec_sweep(old(self).cache@, old(self).buffer_cursor.0 as int, 0) {
                Ok((swept, victim)) => {
                    &&& r == Ok::<BufferId, BufferError>(BufferId(victim as u32))
                    &&& final(self).cache@ == swept.update(
                        victim,
                        BufferItem {
                            is_pinned: false,
                            usage_count: 0,
                            buffer: PageBuffer { is_dirty: false, page },
                        },
                    )
                    &&& final(self).buffer_cursor.0 as int == (victim + 1) % (
                    old(self).cache@.len() as int)
                },
                Err((swept, stopped)) => {
                    &&& r == Err::<BufferId, BufferError>(BufferError::NoFreeBuffer)
                    &&& final(self).cache@ == swept
                    &&& final(self).buffer_cursor.0 == stopped
                },
            },
    {
        let mut pinned_count: usize = 0;
        loop
            invariant
                self.wf(),
                self.cache@.len() == old(self).cache@.len(),
                pinned_count <= self.cache@.len(),
                spec_sweep(self.cache@, self.buffer_cursor.0 as int, pinned_count as int)
                    == spec_sweep(old(self).cache@, old(self).buffer_cursor.0 as int, 0),
            ensures
                self.wf(),
                self.cache@.len() == old(self).cache@.len(),
                spec_sweep(old(self).cache@, old(self).buffer_cursor.0 as int, 0) == Ok::<
                    (Seq<BufferItem>, int),
                    (Seq<BufferItem>, int),
                >((self.cache@, self.buffer_cursor.0 as int)),
            decreases self.cache@.len() - pinned_count, spec_sum_usage(self.cache@),
        {
            if pinned_count >= self.cache.len() {
                return Err(BufferError::NoFreeBuffer);
            }
            let cursor = self.buffer_cursor.to_usize();
            let ghost pre = self.cache@;
            let ghost pre_cursor = self.buffer_cursor.0 as int;
            if self.cache[cursor].is_pinned {
                pinned_count = pinned_count + 1;
                self.increment_next_buffer_id();
            } else if self.cache[cursor].usage_count > 0 {
                let slot = &mut self.cache[cursor];
                slot.usage_count = slot.usage_count - 1;
                self.increment_next_buffer_id();
                proof {
                    lemma_sum_usage_update_lt(pre, pre_cursor, self.cache@[pre_cursor]);
                    assert(self.cache@ =~= pre.update(
                        pre_cursor,
                        BufferItem {
                            is_pinned: pre[pre_cursor].is_pinned,
                            usage_count: (pre[pre_cursor].usage_count - 1) as u32,
                            buffer: pre[pre_cursor].buffer,
                        },
                    ));
                }
            } else {
                break;
            }
        }
        proof {
            lemma_sweep_frame(old(self).cache@, old(self).buffer_cursor.0 as int, 0);
        }
        let buffer_id = BufferId(self.buffer_cursor.to_u32());
        let index = self.buffer_cursor.to_usize();
        let slot = &mut self.cache[index];
        *slot = BufferItem {
            is_pinned: false,
            usage_count: 0,
            buffer: PageBuffer { is_dirty: false, page },
        };
        self.increment_next_buffer_id();
        Ok(buffer_id)
    }

    /// Looks a slot up by id: nothing if the id is out of range or the
    /// slot still holds an empty page, else the slot's buffer, with the
    /// usage count bumped (saturating) so that the sweep passes it over
    /// once more.
    pub fn fetch_page(&mut self, buffer_id: BufferId) -> (r: Option<&PageBuffer>)
        requires
            old(self).wf(),
        ensures
            final(self).wf(),
            final(self).buffer_cursor == old(self).buffer_cursor,
            final(self).cache@.len() == old(self).cache@.len(),
            ({
                let id = buffer_id.0 as int;
                if id < old(self).cache@.len() && !spec_is_empty(
                    old(self).cache@[id].buffer.page@,
                ) {
                    &&& r is Some
                    &&& *r->Some_0 == old(self).cache@[id].buffer
                    &&& final(self).cache@ == old(self).cache@.update(
                        id,
                        BufferItem {
                            is_pinned: old(self).cache@[id].is_pinned,
                            usage_count: if old(self).cache@[id].usage_count == u32::MAX {
                                u32::MAX
                            } else {
                                (old(self).cache@[id].usage_count + 1) as u32
                            },
                            buffer: old(self).cache@[id].buffer,
                        },
                    )
                } else {
                    &&& r is None
                    &&& final(self).cache@ == old(self).cache@
                }
            }),
    {
        let index = buffer_id.to_usize();
        if index >= self.cache.len() {
            return None;
        }
        let is_empty = self.cache[index].buffer.page.empty();
        if is_empty {
            proof {
                assert(self.cache@ =~= old(self).cache@);
            }
            return None;
        }
        let slot = &mut self.cache[index];
        if slot.usage_count < u32::MAX {
            slot.usage_count = slot.usage_count + 1;
        }
        let r = &self.cache[index].buffer;
        proof {
            assert(self.cache@ =~= old(self).cache@.update(
                index as int,
                self.cache@[index as int],
            ));
        }
        Some(r)
    }

    /// Sets or clears a slot's pin, the marker that keeps the sweep from
    /// evicting it.
    pub fn set_pinned(&mut self, buffer_id: BufferId, pinned: bool)
        requires
            old(self).wf(),
            buffer_id.0 < old(self).cache@.len(),
        ensures
            final(self).wf(),
            final(self).buffer_cursor == old(self).buffer_cursor,
            final(self).cache@ == old(self).cache@.update(
                buffer_id.0 as int,
                BufferItem {
                    is_pinned: pinned,
                    usage_count: old(self).cache@[buffer_id.0 as int].usage_count,
                    buffer: old(self).cache@[buffer_id.0 as int].buffer,
                },
            ),
    {
        let index = buffer_id.to_usize();
        let slot = &mut self.cache[index];
        slot.is_pinned = pinned;
    }

    /// Marks a slot's buffer dirty, so that it is written back before it
    /// is ever dropped.
    pub fn mark_dirty(&mut self, buffer_id: BufferId)
        requires
            old(self).wf(),
            buffer_id.0 < old(self).cache@.len(),
        ensures
            final(self).wf(),
            final(self).buffer_cursor == old(self).buffer_cursor,
            final(self).cache@ == old(self).cache@.update(
                buffer_id.0 as int,
                BufferItem {
                    is_pinned: old(self).cache@[buffer_id.0 as int].is_pinned,
                    usage_count: old(self).cache@[buffer_id.0 as int].usage_count,
                    buffer: PageBuffer {
                        is_dirty: true,
                        page: old(self).cache@[buffer_id.0 as int].buffer.page,
                    },
                },
            ),
    {
        let index = buffer_id.to_usize();
        let slot = &mut self.cache[index];
        slot.buffer.is_dirty = true;
    }
}

} // verus!
