//! A B-tree node: a view over one cached page buffer that classifies the
//! page as leaf or branch and performs ordered search over its cells.
//!
//! Keys are compared as byte strings in lexicographic order; the page
//! keeps its pointers sorted by the keys of the cells they address, so a
//! binary search over the pointer array finds a key, or the index where
//! it belongs, in logarithmic time.

use vstd::prelude::*;

use crate::buffer_manager::PageBuffer;
use crate::slotted_page::{
    spec_add_cell_post, spec_cell_key, spec_magic, spec_num_pointers, spec_valid_layout,
    MAGIC_NUMBER_LEAF,
};

verus! {

/// Strict lexicographic order on byte strings: a proper prefix comes
/// first, otherwise the first differing byte decides.
pub open spec fn spec_key_lt(a: Seq<u8>, b: Seq<u8>) -> bool
    decreases a.len(),
{
    if b.len() == 0 {
        false
    } else if a.len() == 0 {
        true
    } else if a[0] < b[0] {
        true
    } else if a[0] > b[0] {
        false
    } else {
        spec_key_lt(a.drop_first(), b.drop_first())
    }
}

/// Of two byte strings, exactly one holds: the first is smaller, they are
/// equal, or the second is smaller.
pub proof fn lemma_key_lt_trichotomy(a: Seq<u8>, b: Seq<u8>)
    ensures
        spec_key_lt(a, b) || spec_key_lt(b, a) || a == b,
        spec_key_lt(a, b) ==> !spec_key_lt(b, a) && a != b,
        spec_key_lt(b, a) ==> a != b,
    decreases a.len(),
{
    if a.len() > 0 && b.len() > 0 && a[0] == b[0] {
        lemma_key_lt_trichotomy(a.drop_first(), b.drop_first());
        if a.drop_first() == b.drop_first() {
            assert forall|i: int| 0 <= i < a.len() implies a[i] == b[i] by {
                if i > 0 {
                    assert(a[i] == a.drop_first()[i - 1]);
                    assert(b[i] == b.drop_first()[i - 1]);
                }
            }
            assert(a =~= b);
        }
        if a == b {
            assert(a.drop_first() =~= b.drop_first());
        }
    }
}

/// Lexicographic order is transitive.
pub proof fn lemma_key_lt_transitive(a: Seq<u8>, b: Seq<u8>, c: Seq<u8>)
    requires
        spec_key_lt(a, b),
        spec_key_lt(b, c),
    ensures
        spec_key_lt(a, c),
    decreases a.len(),
{
    if a.len() > 0 && b.len() > 0 && c.len() > 0 && a[0] == b[0] && b[0] == c[0] {
        lemma_key_lt_transitive(a.drop_first(), b.drop_first(), c.drop_first());
    }
}

/// A shared prefix does not decide the order: comparison continues past
/// it.
proof fn lemma_key_lt_skip(a: Seq<u8>, b: Seq<u8>, i: int)
    requires
        0 <= i <= a.len(),
        i <= b.len(),
        forall|j: int| 0 <= j < i ==> a[j] == b[j],
    ensures
        spec_key_lt(a, b) == spec_key_lt(a.skip(i), b.skip(i)),
    decreases i,
{
    if i == 0 {
        assert(a.skip(0) =~= a);
        assert(b.skip(0) =~= b);
    } else {
        assert(a.drop_first().skip(i - 1) =~= a.skip(i));
        assert(b.drop_first().skip(i - 1) =~= b.skip(i));
        lemma_key_lt_skip(a.drop_first(), b.drop_first(), i - 1);
    }
}

/// How two keys compare.
#[derive(Debug, Clone, Copy, PartialEq, Eq, Structural)]
pub enum KeyOrdering {
    Less,
    Equal,
    Greater,
}

/// Compares two byte strings in lexicographic order.
pub fn compare_keys(a: &[u8], b: &[u8]) -> (o: KeyOrdering)
    ensures
        (o == KeyOrdering::Less) == spec_key_lt(a@, b@),
        (o == KeyOrdering::Greater) == spec_key_lt(b@, a@),
        (o == KeyOrdering::Equal) == (a@ == b@),
{
    proof {
        lemma_key_lt_trichotomy(a@, b@);
    }
    let a_len = a.len();
    let b_len = b.len();
    let mut i: usize = 0;
    while i < a_len && i < b_len
        invariant
            a_len == a@.len(),
            b_len == b@.len(),
            i <= a_len,
            i <= b_len,
            forall|j: int| 0 <= j < i ==> a@[j] == b@[j],
        decreases a_len - i,
    {
        let x = a[i];
        let y = b[i];
        if x < y {
            proof {
                lemma_key_lt_skip(a@, b@, i as int);
                lemma_key_lt_trichotomy(a@, b@);
            }
            return KeyOrdering::Less;
        }
        if x > y {
            proof {
                lemma_key_lt_skip(b@, a@, i as int);
                lemma_key_lt_trichotomy(a@, b@);
            }
            return KeyOrdering::Greater;
        }
        i = i + 1;
    }
    proof {
        lemma_key_lt_skip(a@, b@, i as int);
        lemma_key_lt_skip(b@, a@, i as int);
        lemma_key_lt_trichotomy(a@, b@);
        if a_len == b_len {
            assert(a@ =~= b@);
        }
    }
    if a_len < b_len {
        KeyOrdering::Less
    } else if a_len > b_len {
        KeyOrdering::Greater
    } else {
        KeyOrdering::Equal
    }
}

/// The page keeps its cells sorted: any earlier pointer's key is strictly
/// below any later pointer's key.
pub open spec fn spec_sorted_keys(d: Seq<u8>) -> bool {
    forall|i: int, j: int|
        0 <= i < j < spec_num_pointers(d) ==> spec_key_lt(
            #[trigger] spec_cell_key(d, i),
            #[trigger] spec_cell_key(d, j),
        )
}

/// Inserting a cell at the position `find` reports for an absent key
/// keeps the page sorted: with every earlier key below the new key and
/// every later key above it, the page after the insertion is sorted
/// again.
pub proof fn lemma_insert_at_found_index_keeps_sorted(
    d0: Seq<u8>,
    d1: Seq<u8>,
    index: int,
    key: Seq<u8>,
    value: Seq<u8>,
)
    requires
        spec_sorted_keys(d0),
        0 <= index <= spec_num_pointers(d0),
        spec_add_cell_post(d0, d1, index, key, value),
        forall|i: int| 0 <= i < index ==> spec_key_lt(#[trigger] spec_cell_key(d0, i), key),
        forall|i: int|
            index <= i < spec_num_pointers(d0) ==> spec_key_lt(
                key,
                #[trigger] spec_cell_key(d0, i),
            ),
    ensures
        spec_sorted_keys(d1),
{
    let n = spec_num_pointers(d0) as int;
    assert forall|i: int, j: int|
        0 <= i < j < spec_num_pointers(d1) implies spec_key_lt(
        #[trigger] spec_cell_key(d1, i),
        #[trigger] spec_cell_key(d1, j),
    ) by {
        if j < index {
            assert(spec_key_lt(spec_cell_key(d0, i), spec_cell_key(d0, j)));
        } else if j == index {
            assert(spec_key_lt(spec_cell_key(d0, i), key));
        } else if i < index {
            assert(spec_key_lt(spec_cell_key(d0, i), spec_cell_key(d0, j - 1)));
        } else if i == index {
            assert(spec_key_lt(key, spec_cell_key(d0, j - 1)));
        } else {
            assert(spec_key_lt(spec_cell_key(d0, i - 1), spec_cell_key(d0, j - 1)));
        }
    }
}

/// A transient view binding one page buffer to B-tree semantics.
pub struct Node<'a> {
    pub page_buffer: &'a PageBuffer,
}

impl<'a> Node<'a> {
    /// The held buffer is well formed.
    pub open spec fn wf(self) -> bool {
        self.page_buffer.wf()
    }

    pub fn new(page_buffer: &'a PageBuffer) -> (r: Node<'a>)
        ensures
            r.page_buffer == page_buffer,
    {
        Node { page_buffer }
    }

    /// True iff the page's magic number marks a leaf.
    pub fn is_leaf(&self) -> (r: bool)
        requires
            self.wf(),
        ensures
            r == (spec_magic(self.page_buffer.page@) == MAGIC_NUMBER_LEAF),
    {
        let magic_number = self.page_buffer.page.magic_number();
        magic_number == MAGIC_NUMBER_LEAF
    }

    /// Binary search over the page's sorted pointer array. Returns
    /// `(index, true)` when the cell at `index` holds exactly `key`, and
    /// otherwise `(index, false)` where `index` is the unique position at
    /// which inserting `key` keeps the page sorted.
    pub fn find(&self, key: &[u8]) -> (r: (u16, bool))
        requires
            self.wf(),
            spec_valid_layout(self.page_buffer.page@),
            spec_sorted_keys(self.page_buffer.page@),
        ensures
            ({
                let d = self.page_buffer.page@;
                let n = spec_num_pointers(d) as int;
                &&& r.1 == exists|i: int| 0 <= i < n && spec_cell_key(d, i) == key@
                &&& r.1 ==> r.0 < n && spec_cell_key(d, r.0 as int) == key@
                &&& !r.1 ==> r.0 <= n && (forall|i: int|
                    0 <= i < r.0 ==> spec_key_lt(#[trigger] spec_cell_key(d, i), key@)) && (
                forall|i: int|
                    r.0 <= i < n ==> spec_key_lt(key@, #[trigger] spec_cell_key(d, i)))
            }),
    {
        let ghost d = self.page_buffer.page@;
        let n = self.page_buffer.page.number_of_pointers();
        let mut start: u16 = 0;
        let mut end: u16 = n;
        while start < end
            invariant
                self.wf(),
                spec_valid_layout(d),
                spec_sorted_keys(d),
                d == self.page_buffer.page@,
                n == spec_num_pointers(d),
                start <= end <= n,
                forall|i: int| 0 <= i < start ==> spec_key_lt(#[trigger] spec_cell_key(d, i), key@),
                forall|i: int| end <= i < n ==> spec_key_lt(key@, #[trigger] spec_cell_key(d, i)),
            decreases end - start,
        {
            let mid = start + (end - start) / 2;
            let (cell_key, _value) = self.page_buffer.page.cell_view(mid as usize);
            match compare_keys(key, cell_key.as_slice()) {
                KeyOrdering::Equal => {
                    return (mid, true);
                },
                KeyOrdering::Less => {
                    proof {
                        assert forall|i: int|
                            mid <= i < n implies spec_key_lt(
                            key@,
                            #[trigger] spec_cell_key(d, i),
                        ) by {
                            if i > mid {
                                lemma_key_lt_transitive(
                                    key@,
                                    spec_cell_key(d, mid as int),
                                    spec_cell_key(d, i),
                                );
                            }
                        }
                    }
                    end = mid;
                },
                KeyOrdering::Greater => {
                    proof {
                        assert forall|i: int|
                            0 <= i < mid + 1 implies spec_key_lt(
                            #[trigger] spec_cell_key(d, i),
                            key@,
                        ) by {
                            if i < mid {
                                lemma_key_lt_transitive(
                                    spec_cell_key(d, i),
                                    spec_cell_key(d, mid as int),
                                    key@,
                                );
                            }
                        }
                    }
                    start = mid + 1;
                },
            }
        }
        proof {
            assert forall|i: int| 0 <= i < n implies spec_cell_key(d, i) != key@ by {
                lemma_key_lt_trichotomy(spec_cell_key(d, i), key@);
            }
        }
        (start, false)
    }
}

} // verus!
