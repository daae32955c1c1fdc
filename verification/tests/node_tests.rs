use pagestore::buffer_manager::PageBuffer;
use pagestore::node::Node;
use pagestore::slotted_page::{SlottedPage, MAGIC_NUMBER_INTERNAL, MAGIC_NUMBER_LEAF};

fn leaf_with_even_keys() -> SlottedPage {
    let number_of_cells: usize = 5;
    let mut page = SlottedPage::new(MAGIC_NUMBER_LEAF);
    for i in 1..=number_of_cells {
        let key = ((i * 2) as u16).to_be_bytes();
        let value = (0xffff as u16).to_be_bytes();
        page.add_cell(i - 1, &key, &value).unwrap();
    }
    page
}

#[test]
fn test_find() {
    let page = leaf_with_even_keys();
    let buffer = PageBuffer { page, is_dirty: false };
    let node = Node::new(&buffer);
    assert_eq!(node.find(&(2 as u16).to_be_bytes()), (0, true));
    assert_eq!(node.find(&(3 as u16).to_be_bytes()), (1, false));
    assert_eq!(node.find(&(9 as u16).to_be_bytes()), (4, false));
    assert_eq!(node.find(&(1 as u16).to_be_bytes()), (0, false));
    assert_eq!(node.find(&(11 as u16).to_be_bytes()), (5, false));
}

#[test]
fn find_on_ascending_keys() {
    // Keys 2, 4, 6, 8, 10 inserted at indices 0 through 4.
    let page = leaf_with_even_keys();
    let buffer = PageBuffer { page, is_dirty: false };
    let node = Node::new(&buffer);
    assert_eq!(node.find(&(3 as u16).to_be_bytes()), (1, false));
    assert_eq!(node.find(&(9 as u16).to_be_bytes()), (4, false));
    assert_eq!(node.find(&(1 as u16).to_be_bytes()), (0, false));
    assert_eq!(node.find(&(11 as u16).to_be_bytes()), (5, false));
    assert_eq!(node.find(&(6 as u16).to_be_bytes()), (2, true));
}

#[test]
fn find_on_an_empty_page_reports_index_zero() {
    let page = SlottedPage::new(MAGIC_NUMBER_LEAF);
    let buffer = PageBuffer { page, is_dirty: false };
    let node = Node::new(&buffer);
    assert_eq!(node.find(&[1, 2, 3]), (0, false));
}

#[test]
fn is_leaf_goes_by_the_magic_number() {
    let leaf_buffer = PageBuffer { page: SlottedPage::new(MAGIC_NUMBER_LEAF), is_dirty: false };
    let leaf = Node::new(&leaf_buffer);
    assert_eq!(leaf.is_leaf(), true);
    let branch_buffer = PageBuffer { page: SlottedPage::new(MAGIC_NUMBER_INTERNAL), is_dirty: false };
    let branch = Node::new(&branch_buffer);
    assert_eq!(branch.is_leaf(), false);
}
