use pagestore::slotted_page::{
    PageError, SlottedPage, HEADER_SIZE, MAGIC_NUMBER_INTERNAL, MAGIC_NUMBER_LEAF, PAGE_SIZE,
    PAGE_VERSION_V1,
};

#[test]
fn test_new() {
    let page = SlottedPage::new(MAGIC_NUMBER_LEAF);
    assert_eq!(page.magic_number(), MAGIC_NUMBER_LEAF);
    assert_eq!(page.version(), PAGE_VERSION_V1);
    assert_eq!(page.stored_check_sum(), 1997562984);
    assert_eq!(page.next_overflow_page_id(), 0);
    assert_eq!(page.number_of_pointers(), 0);
    assert_eq!(page.cell_offset(), (PAGE_SIZE - HEADER_SIZE) as u16);
}

#[test]
fn test_get_pointer() {
    let page = SlottedPage::new(MAGIC_NUMBER_LEAF);
    let mut bytes = page.to_bytes().clone();
    // number of pointers = 2
    bytes[4] = 0;
    bytes[5] = 2;
    // first pointer entry: cell offset 4, cell length 4
    bytes[HEADER_SIZE] = 0;
    bytes[HEADER_SIZE + 1] = 4;
    bytes[HEADER_SIZE + 2] = 0;
    bytes[HEADER_SIZE + 3] = 4;
    let page = SlottedPage::wrap(bytes);

    let pointer = page.pointer_view(0);
    assert_eq!(pointer.cell_offset, 4);
    assert_eq!(pointer.cell_length, 4);

    let pointer = page.pointer_view(1);
    assert_eq!(pointer.cell_offset, 0);
    assert_eq!(pointer.cell_length, 0);
}

#[test]
fn test_add_cell() {
    let cell_size: usize = 8;
    let number_of_cells: usize = 5;
    let mut page = SlottedPage::new(MAGIC_NUMBER_LEAF);
    for i in 0..number_of_cells {
        let key = ((i + 1) as u16).to_be_bytes();
        let value = ((i * 2) as u16).to_be_bytes();
        page.add_cell(i, &key, &value).unwrap();
    }
    assert_eq!(page.magic_number(), MAGIC_NUMBER_LEAF);
    assert_eq!(page.number_of_pointers(), number_of_cells as u16);
    assert_eq!(
        page.cell_offset(),
        (PAGE_SIZE - HEADER_SIZE - number_of_cells * cell_size) as u16
    );
    for i in 0..number_of_cells {
        assert_eq!(
            page.pointer_view(i).cell_offset,
            (PAGE_SIZE - HEADER_SIZE - cell_size * (i + 1)) as u16
        );
        assert_eq!(page.pointer_view(i).cell_length, 8);
        let key = ((i + 1) as u16).to_be_bytes();
        let value = ((i * 2) as u16).to_be_bytes();
        let (cell_key, cell_value) = page.cell_view(i);
        assert_eq!(cell_key.len(), 2);
        assert_eq!(cell_value.len(), 2);
        assert_eq!(cell_key, key.to_vec());
        assert_eq!(cell_value, value.to_vec());
    }

    // Insert a cell to the head
    let next_cell_offset = page.cell_offset();

    // Check if the new entry is inserted into the head
    page.add_cell(0, &(0 as u16).to_be_bytes(), &(2048 as u16).to_be_bytes())
        .unwrap();
    assert_eq!(page.number_of_pointers(), (number_of_cells + 1) as u16);
    assert_eq!(
        page.cell_offset(),
        (PAGE_SIZE - HEADER_SIZE - (number_of_cells + 1) * cell_size) as u16
    );
    assert_eq!(
        page.pointer_view(0).cell_offset,
        next_cell_offset - cell_size as u16
    );
    assert_eq!(page.pointer_view(0).cell_length, 8);
    let key = (0 as u16).to_be_bytes();
    let value = (2048 as u16).to_be_bytes();
    let (cell_key, cell_value) = page.cell_view(0);
    assert_eq!(cell_key, key.to_vec());
    assert_eq!(cell_value, value.to_vec());

    // Check if the previous pointers are slided by one
    for i in 1..=number_of_cells {
        let key = (i as u16).to_be_bytes();
        let value = (((i - 1) * 2) as u16).to_be_bytes();
        let (cell_key, cell_value) = page.cell_view(i);
        assert_eq!(cell_key, key.to_vec());
        assert_eq!(cell_value, value.to_vec());
    }
}

#[test]
fn new_page_is_not_empty_for_valid_magic_numbers() {
    assert_eq!(SlottedPage::new(MAGIC_NUMBER_LEAF).empty(), false);
    assert_eq!(SlottedPage::new(MAGIC_NUMBER_INTERNAL).empty(), false);
}

#[test]
fn pages_with_other_magic_numbers_are_empty() {
    assert_eq!(SlottedPage::new(0).empty(), true);
    assert_eq!(SlottedPage::new(0xDEADBEEF).empty(), true);
    let zero_filled = SlottedPage::wrap(vec![0u8; PAGE_SIZE]);
    assert_eq!(zero_filled.empty(), true);
}

#[test]
fn check_sum_is_stable_without_mutation() {
    let page = SlottedPage::new(MAGIC_NUMBER_LEAF);
    assert_eq!(page.check_sum(), page.check_sum());
    assert_eq!(page.check_sum(), page.stored_check_sum());
}

#[test]
fn check_sum_changes_on_a_single_bit_flip() {
    let page = SlottedPage::new(MAGIC_NUMBER_LEAF);
    let reference = page.check_sum();
    // Flip one bit in the magic number, one in the body, one in the last
    // byte: each must change the recomputed checksum.
    for position in [0usize, 2048, PAGE_SIZE - 1] {
        let mut bytes = page.to_bytes().clone();
        bytes[position] ^= 0x01;
        let flipped = SlottedPage::wrap(bytes);
        assert_ne!(flipped.check_sum(), reference);
    }
}

#[test]
fn stored_check_sum_matches_crc32_of_zeroed_image() {
    let page = SlottedPage::new(MAGIC_NUMBER_LEAF);
    let mut image = page.to_bytes().clone();
    image[12] = 0;
    image[13] = 0;
    image[14] = 0;
    image[15] = 0;
    assert_eq!(page.stored_check_sum(), crc32fast::hash(&image));
    assert_eq!(page.check_sum(), crc32fast::hash(&image));
}

#[test]
fn add_cell_fails_with_page_full_when_cell_does_not_fit() {
    let mut page = SlottedPage::new(MAGIC_NUMBER_LEAF);
    let key = [1u8; 16];
    let huge_value = [7u8; PAGE_SIZE];
    assert_eq!(
        page.add_cell(0, &key, &huge_value),
        Err(PageError::PageFull)
    );
    // The failed insertion left the page untouched.
    assert_eq!(page.number_of_pointers(), 0);
    assert_eq!(page.stored_check_sum(), 1997562984);
    // A value that just fits still goes in: the free area holds the cell,
    // its two length fields, and one pointer entry.
    let fitting_value = vec![7u8; PAGE_SIZE - HEADER_SIZE - 4 - 4 - 16];
    assert_eq!(page.add_cell(0, &key, &fitting_value), Ok(()));
    assert_eq!(page.number_of_pointers(), 1);
    assert_eq!(page.cell_free_space(), 0);
}

#[test]
fn page_round_trip_preserves_bytes_and_check_sum() {
    let mut page = SlottedPage::new(MAGIC_NUMBER_LEAF);
    page.add_cell(0, &[1, 2], &[3, 4, 5]).unwrap();
    let bytes = page.to_bytes().clone();
    let reread = SlottedPage::wrap(bytes.clone());
    assert_eq!(reread.to_bytes(), &bytes);
    assert_eq!(reread.stored_check_sum(), page.stored_check_sum());
    assert_eq!(reread.check_sum(), page.check_sum());
    assert_eq!(reread.check_sum(), reread.stored_check_sum());
}
