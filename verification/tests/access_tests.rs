use pagestore::access_manager::{AccessManager, Error};
use pagestore::disk_manager::{page_offset, PageId};
use pagestore::memory_page::{MemoryPage, PageType};
use pagestore::slotted_page::{SlottedPage, HEADER_SIZE, MAGIC_NUMBER_LEAF, PAGE_SIZE};

#[test]
fn initialize_installs_a_fresh_dirty_root_when_disk_has_none() {
    let mut manager = AccessManager::new();
    assert_eq!(manager.initialize(None), Ok(()));
    let buffer = manager.fetch_cached(PageId(0)).unwrap();
    assert_eq!(buffer.page.magic_number(), MAGIC_NUMBER_LEAF);
    assert_eq!(buffer.page.number_of_pointers(), 0);
    assert_eq!(buffer.is_dirty, true);
}

#[test]
fn initialize_installs_the_root_image_read_from_disk() {
    let mut manager = AccessManager::new();
    let mut root = SlottedPage::new(MAGIC_NUMBER_LEAF);
    root.add_cell(0, &[9], &[1, 1]).unwrap();
    let image = root.to_bytes().clone();
    assert_eq!(manager.initialize(Some(root)), Ok(()));
    let buffer = manager.fetch_cached(PageId(0)).unwrap();
    assert_eq!(buffer.page.to_bytes(), &image);
    assert_eq!(buffer.is_dirty, false);
}

#[test]
fn fetch_cached_returns_the_same_buffer_on_consecutive_calls() {
    let mut manager = AccessManager::new();
    manager.initialize(None).unwrap();
    let first = manager.fetch_cached(PageId(0)).unwrap().page.to_bytes().clone();
    let second = manager.fetch_cached(PageId(0)).unwrap().page.to_bytes().clone();
    assert_eq!(first, second);
    assert!(manager.fetch_cached(PageId(1)).is_none());
}

#[test]
fn admit_page_rejects_a_corrupt_image() {
    let mut manager = AccessManager::new();
    let page = SlottedPage::new(MAGIC_NUMBER_LEAF);
    let mut bytes = page.to_bytes().clone();
    bytes[HEADER_SIZE + 100] ^= 0x40;
    let corrupt = SlottedPage::wrap(bytes);
    assert_eq!(manager.admit_page(PageId(3), corrupt), Err(Error::CorruptPage));
    assert!(manager.fetch_cached(PageId(3)).is_none());
}

#[test]
fn admit_page_installs_an_intact_image_and_records_the_mapping() {
    let mut manager = AccessManager::new();
    let mut page = SlottedPage::new(MAGIC_NUMBER_LEAF);
    page.add_cell(0, &[1, 2], &[3]).unwrap();
    let image = page.to_bytes().clone();
    let buffer_id = manager.admit_page(PageId(5), page).unwrap();
    assert_eq!(buffer_id.to_usize(), 0);
    let buffer = manager.fetch_cached(PageId(5)).unwrap();
    assert_eq!(buffer.page.to_bytes(), &image);
}

#[test]
fn fetch_cached_treats_an_empty_slot_as_a_miss() {
    let mut manager = AccessManager::new();
    // An all-zero page carries a freshly stamped checksum, so it is
    // admitted, but its magic number marks it empty: the mapping exists
    // while the slot's contents no longer count as a cached page.
    let empty_page = SlottedPage::new(0);
    let buffer_id = manager.admit_page(PageId(2), empty_page).unwrap();
    assert_eq!(buffer_id.to_usize(), 0);
    assert!(manager.fetch_cached(PageId(2)).is_none());
}

#[test]
fn page_offset_is_the_page_id_times_the_page_size() {
    assert_eq!(page_offset(PageId(0)), 0);
    assert_eq!(page_offset(PageId(1)), PAGE_SIZE as u64);
    assert_eq!(page_offset(PageId(3)), 3 * PAGE_SIZE as u64);
    assert_eq!(PageId(7).to_u32(), 7);
    assert_eq!(PageId(7).to_u64(), 7);
}

#[test]
fn memory_page_decodes_the_pointer_array_and_cell_area() {
    let mut page = SlottedPage::new(MAGIC_NUMBER_LEAF);
    page.add_cell(0, &[1], &[10, 11]).unwrap();
    page.add_cell(1, &[2], &[20]).unwrap();
    let decoded = MemoryPage::from(&page);
    assert_eq!(decoded.page_type, PageType::Leaf);
    assert_eq!(decoded.next_over_flow_page_id, PageId(0));
    assert_eq!(decoded.pointers.len(), 2);
    assert_eq!(decoded.pointers[0].cell_offset, page.pointer_view(0).cell_offset);
    assert_eq!(decoded.pointers[0].cell_length, 7);
    assert_eq!(decoded.pointers[1].cell_length, 6);
    let cell_area_len = PAGE_SIZE - HEADER_SIZE - page.cell_offset() as usize;
    assert_eq!(decoded.cells.len(), cell_area_len);
}
