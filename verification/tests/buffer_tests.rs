use pagestore::buffer_manager::{BufferError, BufferId, BufferManager, PageBuffer};
use pagestore::slotted_page::{SlottedPage, MAGIC_NUMBER_LEAF};

#[test]
fn buffer_id_conversions() {
    let id = BufferId(3);
    assert_eq!(id.to_usize(), 3);
    assert_eq!(id.to_u32(), 3);
    assert_eq!(id.to_u64(), 3);
    assert_eq!(id.increment_id(), BufferId(4));
}

#[test]
fn default_page_buffer_is_clean_and_empty() {
    let buffer = PageBuffer::default();
    assert_eq!(buffer.is_dirty, false);
    assert_eq!(buffer.page.empty(), true);
    assert_eq!(buffer.page.magic_number(), 0);
}

#[test]
fn test_increment_next_buffer_id() {
    let mut manager = BufferManager::new(2);
    assert_eq!(manager.buffer_cursor.to_usize(), 0);
    manager.increment_next_buffer_id();
    assert_eq!(manager.buffer_cursor.to_usize(), 1);
    manager.increment_next_buffer_id();
    assert_eq!(manager.buffer_cursor.to_usize(), 0);
}

#[test]
fn buffer_manager_test_increment_next_buffer_id() {
    let mut manager = BufferManager::new(2);
    assert_eq!(manager.buffer_cursor.to_usize(), 0);
    manager.increment_next_buffer_id();
    assert_eq!(manager.buffer_cursor.to_usize(), 1);
    manager.increment_next_buffer_id();
    assert_eq!(manager.buffer_cursor.to_usize(), 0);
}

#[test]
fn test_add_page() {
    let mut manager = BufferManager::new(2);
    assert_eq!(manager.buffer_cursor.to_usize(), 0);

    // Add
    let page = SlottedPage::new(MAGIC_NUMBER_LEAF);
    let result = manager.add_page(page);
    assert_eq!(result.is_ok(), true);
    assert_eq!(result.unwrap().to_usize(), 0);
    assert_eq!(manager.buffer_cursor.to_usize(), 1);

    // Add over the capacity
    let page = SlottedPage::new(MAGIC_NUMBER_LEAF);
    let result = manager.add_page(page);
    assert_eq!(result.is_ok(), true);
    assert_eq!(result.unwrap().to_usize(), 1);
    assert_eq!(manager.buffer_cursor.to_usize(), 0);

    let page = SlottedPage::new(MAGIC_NUMBER_LEAF);
    let result = manager.add_page(page);
    assert_eq!(result.is_ok(), true);
    assert_eq!(result.unwrap().to_usize(), 0);
    assert_eq!(manager.buffer_cursor.to_usize(), 1);
}

#[test]
fn buffer_manager_test_add_page() {
    let mut manager = BufferManager::new(2);
    assert_eq!(manager.buffer_cursor.to_usize(), 0);

    let page = SlottedPage::new(MAGIC_NUMBER_LEAF);
    let result = manager.add_page(page);
    assert_eq!(result.is_ok(), true);
    assert_eq!(result.unwrap().to_usize(), 0);
    assert_eq!(manager.buffer_cursor.to_usize(), 1);

    let page = SlottedPage::new(MAGIC_NUMBER_LEAF);
    let result = manager.add_page(page);
    assert_eq!(result.is_ok(), true);
    assert_eq!(result.unwrap().to_usize(), 1);
    assert_eq!(manager.buffer_cursor.to_usize(), 0);

    let page = SlottedPage::new(MAGIC_NUMBER_LEAF);
    let result = manager.add_page(page);
    assert_eq!(result.is_ok(), true);
    assert_eq!(result.unwrap().to_usize(), 0);
    assert_eq!(manager.buffer_cursor.to_usize(), 1);
}

#[test]
fn test_fetch_page() {
    let buffer_id = BufferId(0);
    let mut manager = BufferManager::new(2);
    let ret = manager.fetch_page(buffer_id);
    assert_eq!(ret.is_none(), true);

    let ret = manager.add_page(SlottedPage::new(MAGIC_NUMBER_LEAF));
    assert_eq!(ret.is_ok(), true);
    assert_eq!(ret.unwrap().to_usize(), 0);

    let ret = manager.fetch_page(buffer_id);
    assert_eq!(ret.is_some(), true);
    let p = ret.unwrap();
    assert_eq!(p.page.empty(), false);
    assert_eq!(p.page.magic_number(), MAGIC_NUMBER_LEAF);
}

#[test]
fn buffer_manager_test_fetch_page() {
    let buffer_id = BufferId(0);
    let mut manager = BufferManager::new(2);
    let ret = manager.fetch_page(buffer_id);
    assert_eq!(ret.is_none(), true);

    let ret = manager.add_page(SlottedPage::new(MAGIC_NUMBER_LEAF));
    assert_eq!(ret.is_ok(), true);
    assert_eq!(ret.unwrap().to_usize(), 0);

    let ret = manager.fetch_page(buffer_id);
    assert_eq!(ret.is_some(), true);
    let p = ret.unwrap();
    assert_eq!(p.page.empty(), false);
    assert_eq!(p.page.magic_number(), MAGIC_NUMBER_LEAF);
    assert_eq!(p.is_dirty, false);
}

#[test]
fn clock_sweep_saturates_when_all_slots_are_pinned() {
    let mut manager = BufferManager::new(2);
    assert_eq!(
        manager
            .add_page(SlottedPage::new(MAGIC_NUMBER_LEAF))
            .unwrap()
            .to_usize(),
        0
    );
    assert_eq!(
        manager
            .add_page(SlottedPage::new(MAGIC_NUMBER_LEAF))
            .unwrap()
            .to_usize(),
        1
    );
    manager.set_pinned(BufferId(0), true);
    manager.set_pinned(BufferId(1), true);
    assert_eq!(
        manager.add_page(SlottedPage::new(MAGIC_NUMBER_LEAF)),
        Err(BufferError::NoFreeBuffer)
    );
    // With no pins, the sweep wraps and reuses slot 0.
    manager.set_pinned(BufferId(0), false);
    manager.set_pinned(BufferId(1), false);
    assert_eq!(
        manager
            .add_page(SlottedPage::new(MAGIC_NUMBER_LEAF))
            .unwrap()
            .to_usize(),
        0
    );
}

#[test]
fn clock_sweep_decrements_usage_before_evicting() {
    let mut manager = BufferManager::new(2);
    manager.add_page(SlottedPage::new(MAGIC_NUMBER_LEAF)).unwrap();
    manager.add_page(SlottedPage::new(MAGIC_NUMBER_LEAF)).unwrap();
    // Bump slot 0's usage count; the sweep then skips it once and takes
    // slot 1 instead.
    assert!(manager.fetch_page(BufferId(0)).is_some());
    let result = manager.add_page(SlottedPage::new(MAGIC_NUMBER_LEAF));
    assert_eq!(result.unwrap().to_usize(), 1);
}
