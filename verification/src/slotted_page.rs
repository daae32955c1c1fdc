//! The on-disk page format: a fixed 4096-byte slotted page.
//!
//! Layout (all integers big-endian):
//!
//! | bytes   | field                    |
//! |---------|--------------------------|
//! | 0..4    | magic number             |
//! | 4..6    | number of pointers       |
//! | 6..8    | cell offset              |
//! | 8..12   | next overflow page id    |
//! | 12..16  | checksum (CRC-32)        |
//! | 16      | version                  |
//! | 17..21  | reserved padding         |
//! | 21..    | pointer array, then cells|
//!
//! The pointer array grows upward from the header boundary; the cell area
//! grows downward from the page end. Offsets held in the cell-offset header
//! field and in pointer entries are relative to the body (the region after
//! the header), so a fresh page has cell offset `BODY_SIZE`.

use vstd::prelude::*;

verus! {

/// Size of one page in bytes.
pub const PAGE_SIZE: usize = 4096;

/// Size of the page header in bytes (17 used, 4 reserved).
pub const HEADER_SIZE: usize = 21;

/// Size of the page body: the region after the header.
pub const BODY_SIZE: usize = PAGE_SIZE - HEADER_SIZE;

/// Size of one pointer entry: a 2-byte cell offset and a 2-byte cell length.
pub const POINTER_SIZE: usize = 4;

/// Size of the two length fields that start every cell.
pub const CELL_HEADER_SIZE: usize = 4;

/// Current page format version.
pub const PAGE_VERSION_V1: u8 = 1;

/// Magic number marking a leaf page; 0x32DD is the prefix shared by all pages.
pub const MAGIC_NUMBER_LEAF: u32 = 0x32DD56AA;

/// Magic number marking an internal (branch) page.
pub const MAGIC_NUMBER_INTERNAL: u32 = 0x32DD77AB;

/// The big-endian 16-bit integer held at `d[i]` and `d[i + 1]`.
pub open spec fn spec_u16_be(d: Seq<u8>, i: int) -> u16 {
    (d[i] * 256 + d[i + 1]) as u16
}

/// The big-endian 32-bit integer held at `d[i]` through `d[i + 3]`.
pub open spec fn spec_u32_be(d: Seq<u8>, i: int) -> u32 {
    (d[i] * 0x1000000 + d[i + 1] * 0x10000 + d[i + 2] * 256 + d[i + 3]) as u32
}

/// `d` with a big-endian 16-bit integer stored at `d[i]` and `d[i + 1]`.
pub open spec fn spec_store_u16_be(d: Seq<u8>, i: int, v: u16) -> Seq<u8> {
    d.update(i, (v / 256) as u8).update(i + 1, (v % 256) as u8)
}

/// `d` with a big-endian 32-bit integer stored at `d[i]` through `d[i + 3]`.
pub open spec fn spec_store_u32_be(d: Seq<u8>, i: int, v: u32) -> Seq<u8> {
    d.update(i, (v / 0x1000000) as u8)
        .update(i + 1, ((v / 0x10000) % 256) as u8)
        .update(i + 2, ((v / 256) % 256) as u8)
        .update(i + 3, (v % 256) as u8)
}

/// The magic number of a page image.
pub open spec fn spec_magic(d: Seq<u8>) -> u32 {
    spec_u32_be(d, 0)
}

/// The number of pointers of a page image.
pub open spec fn spec_num_pointers(d: Seq<u8>) -> u16 {
    spec_u16_be(d, 4)
}

/// The cell offset of a page image: the body-relative offset of the
/// lowest-allocated cell.
pub open spec fn spec_cell_offset(d: Seq<u8>) -> u16 {
    spec_u16_be(d, 6)
}

/// The next-overflow-page-id field of a page image; 0 means none.
pub open spec fn spec_next_overflow(d: Seq<u8>) -> u32 {
    spec_u32_be(d, 8)
}

/// The checksum field of a page image.
pub open spec fn spec_check_sum_field(d: Seq<u8>) -> u32 {
    spec_u32_be(d, 12)
}

/// The version byte of a page image.
pub open spec fn spec_version(d: Seq<u8>) -> u8 {
    d[16]
}

/// A page is empty (uninitialized) unless its magic number marks it as a
/// leaf or an internal page.
pub open spec fn spec_is_empty(d: Seq<u8>) -> bool {
    spec_magic(d) != MAGIC_NUMBER_LEAF && spec_magic(d) != MAGIC_NUMBER_INTERNAL
}

/// The CRC-32 (IEEE) checksum of a byte sequence, as `crc32fast` computes it.
pub uninterp spec fn crc32_of(bytes: Seq<u8>) -> u32;

/// `d` with the checksum field zeroed, the form over which the page
/// checksum is computed.
pub open spec fn spec_with_zero_check_sum(d: Seq<u8>) -> Seq<u8> {
    spec_store_u32_be(d, 12, 0)
}

/// The checksum that a page image must carry to be considered intact:
/// the CRC-32 of the image with its checksum field zeroed.
pub open spec fn spec_page_check_sum(d: Seq<u8>) -> u32 {
    crc32_of(spec_with_zero_check_sum(d))
}

/// Relies on `crc32fast::hash`: the CRC-32 (IEEE) checksum of the bytes,
/// a pure function of them alone.
#[verifier::external_body]
fn crc32_hash(bytes: &Vec<u8>) -> (r: u32)
    ensures
        r == crc32_of(bytes@),
{
    crc32fast::hash(bytes.as_slice())
}

fn read_u16_be(d: &Vec<u8>, i: usize) -> (r: u16)
    requires
        i + 2 <= d.len(),
    ensures
        r == spec_u16_be(d@, i as int),
{
    d[i] as u16 * 256 + d[i + 1] as u16
}

fn read_u32_be(d: &Vec<u8>, i: usize) -> (r: u32)
    requires
        i + 4 <= d.len(),
    ensures
        r == spec_u32_be(d@, i as int),
{
    d[i] as u32 * 0x1000000 + d[i + 1] as u32 * 0x10000 + d[i + 2] as u32 * 256 + d[i
        + 3] as u32
}

fn write_u16_be(d: &mut Vec<u8>, i: usize, v: u16)
    requires
        i + 2 <= old(d).len(),
    ensures
        final(d)@ == spec_store_u16_be(old(d)@, i as int, v),
        final(d)@.len() == old(d)@.len(),
        spec_u16_be(final(d)@, i as int) == v,
        forall|j: int| 0 <= j < old(d)@.len() && j != i && j != i + 1 ==> final(d)@[j] == old(
            d,
        )@[j],
{
    d[i] = (v / 256) as u8;
    d[i + 1] = (v % 256) as u8;
}

fn write_u32_be(d: &mut Vec<u8>, i: usize, v: u32)
    requires
        i + 4 <= old(d).len(),
    ensures
        final(d)@ == spec_store_u32_be(old(d)@, i as int, v),
        final(d)@.len() == old(d)@.len(),
        spec_u32_be(final(d)@, i as int) == v,
        forall|j: int|
            0 <= j < old(d)@.len() && !(i <= j < i + 4) ==> final(d)@[j] == old(d)@[j],
{
    d[i] = (v / 0x1000000) as u8;
    d[i + 1] = ((v / 0x10000) % 256) as u8;
    d[i + 2] = ((v / 256) % 256) as u8;
    d[i + 3] = (v % 256) as u8;
}

/// The body-relative offset of pointer entry `i`'s cell.
pub open spec fn spec_pointer_offset(d: Seq<u8>, i: int) -> u16 {
    spec_u16_be(d, HEADER_SIZE + POINTER_SIZE * i)
}

/// The length of pointer entry `i`'s cell.
pub open spec fn spec_pointer_length(d: Seq<u8>, i: int) -> u16 {
    spec_u16_be(d, HEADER_SIZE + POINTER_SIZE * i + 2)
}

/// The page-absolute position where pointer entry `i`'s cell begins.
pub open spec fn spec_cell_base(d: Seq<u8>, i: int) -> int {
    HEADER_SIZE + spec_pointer_offset(d, i)
}

/// The key length field of cell `i`.
pub open spec fn spec_key_length(d: Seq<u8>, i: int) -> u16 {
    spec_u16_be(d, spec_cell_base(d, i))
}

/// The value length field of cell `i`.
pub open spec fn spec_value_length(d: Seq<u8>, i: int) -> u16 {
    spec_u16_be(d, spec_cell_base(d, i) + 2)
}

/// The key bytes of cell `i`.
pub open spec fn spec_cell_key(d: Seq<u8>, i: int) -> Seq<u8> {
    d.subrange(
        spec_cell_base(d, i) + CELL_HEADER_SIZE,
        spec_cell_base(d, i) + CELL_HEADER_SIZE + spec_key_length(d, i),
    )
}

/// The value bytes of cell `i`.
pub open spec fn spec_cell_value(d: Seq<u8>, i: int) -> Seq<u8> {
    d.subrange(
        spec_cell_base(d, i) + CELL_HEADER_SIZE + spec_key_length(d, i),
        spec_cell_base(d, i) + CELL_HEADER_SIZE + spec_key_length(d, i) + spec_value_length(
            d,
            i,
        ),
    )
}

/// Pointer entry `i` is well formed: its cell lies inside the allocated
/// cell area, and the cell's length fields agree with the pointer's length.
pub open spec fn spec_pointer_wf(d: Seq<u8>, i: int) -> bool {
    &&& spec_cell_offset(d) <= spec_pointer_offset(d, i)
    &&& spec_pointer_offset(d, i) + spec_pointer_length(d, i) <= BODY_SIZE
    &&& spec_pointer_length(d, i) >= CELL_HEADER_SIZE
    &&& spec_key_length(d, i) + spec_value_length(d, i) + CELL_HEADER_SIZE == spec_pointer_length(
        d,
        i,
    )
}

/// The layout invariant of a populated page: the pointer array and the cell
/// area never overlap, and every pointer addresses a well-formed cell.
pub open spec fn spec_valid_layout(d: Seq<u8>) -> bool {
    &&& d.len() == PAGE_SIZE
    &&& spec_cell_offset(d) <= BODY_SIZE
    &&& POINTER_SIZE * spec_num_pointers(d) <= spec_cell_offset(d)
    &&& forall|i: int| 0 <= i < spec_num_pointers(d) ==> spec_pointer_wf(d, i)
}

/// One pointer entry: the body-relative offset and the length of a cell.
#[derive(Clone, Copy, Debug, PartialEq, Eq, Structural)]
pub struct CellPointer {
    pub cell_offset: u16,
    pub cell_length: u16,
}

/// An error that a page operation reports.
#[derive(Clone, Copy, Debug, PartialEq, Eq, Structural)]
pub enum PageError {
    /// The free area cannot hold the new pointer and cell.
    PageFull,
}

/// A fixed-size byte buffer holding one slotted page.
#[derive(Debug)]
pub struct SlottedPage {
    data: Vec<u8>,
}

impl View for SlottedPage {
    type V = Seq<u8>;

    closed spec fn view(&self) -> Seq<u8> {
        self.data@
    }
}

/// The image of a freshly constructed page: all zeroes, then the magic
/// number, the cell offset at the page end, the version byte, and the
/// checksum of that image stamped into the checksum field.
pub open spec fn spec_fresh_page(magic_number: u32) -> Seq<u8> {
    let zeros = Seq::<u8>::new(PAGE_SIZE as nat, |i: int| 0u8);
    let with_header = spec_store_u16_be(
        spec_store_u32_be(zeros, 0, magic_number),
        6,
        BODY_SIZE as u16,
    ).update(16, PAGE_VERSION_V1);
    spec_store_u32_be(with_header, 12, spec_page_check_sum(with_header))
}

/// A zero-filled buffer is an empty page: its magic number 0 marks
/// neither a leaf nor an internal page.
pub proof fn lemma_zero_filled_page_is_empty(d: Seq<u8>)
    requires
        d.len() >= 4,
        forall|i: int| 0 <= i < d.len() ==> d[i] == 0,
    ensures
        spec_is_empty(d),
{
}

/// Copies `len` bytes of `d` starting at `start` into a fresh vector.
pub(crate) fn copy_range(d: &Vec<u8>, start: usize, len: usize) -> (r: Vec<u8>)
    requires
        start + len <= d.len(),
    ensures
        r@ == d@.subrange(start as int, start + len),
{
    let mut r: Vec<u8> = Vec::new();
    let mut j: usize = 0;
    while j < len
        invariant
            start + len <= d.len(),
            j <= len,
            r@ == d@.subrange(start as int, start + j),
        decreases len - j,
    {
        r.push(d[start + j]);
        proof {
            assert(r@ =~= d@.subrange(start as int, start + j + 1));
        }
        j = j + 1;
    }
    r
}

impl SlottedPage {
    /// The page holds exactly `PAGE_SIZE` bytes.
    pub open spec fn wf(self) -> bool {
        self@.len() == PAGE_SIZE
    }

    /// A zero-filled page with the header populated: the given magic number,
    /// the current version, the cell offset at the page end, and a checksum
    /// stamped over the fresh image.
    pub fn new(magic_number: u32) -> (p: SlottedPage)
        ensures
            p.wf(),
            p@ == spec_fresh_page(magic_number),
            spec_magic(p@) == magic_number,
            spec_num_pointers(p@) == 0,
            spec_cell_offset(p@) == BODY_SIZE,
            spec_next_overflow(p@) == 0,
            spec_version(p@) == PAGE_VERSION_V1,
            spec_check_sum_field(p@) == spec_page_check_sum(p@),
            spec_valid_layout(p@),
            spec_is_empty(p@) == (magic_number != MAGIC_NUMBER_LEAF && magic_number
                != MAGIC_NUMBER_INTERNAL),
    {
        let mut data: Vec<u8> = Vec::new();
        let mut j: usize = 0;
        while j < PAGE_SIZE
            invariant
                j <= PAGE_SIZE,
                data@.len() == j,
                forall|k: int| 0 <= k < j ==> data@[k] == 0u8,
            decreases PAGE_SIZE - j,
        {
            data.push(0u8);
            j = j + 1;
        }
        proof {
            assert(data@ =~= Seq::<u8>::new(PAGE_SIZE as nat, |i: int| 0u8));
        }
        write_u32_be(&mut data, 0, magic_number);
        write_u16_be(&mut data, 6, BODY_SIZE as u16);
        data[16] = PAGE_VERSION_V1;
        let mut p = SlottedPage { data };
        p.stamp_check_sum();
        p
    }

    /// Reinterprets an exact-size byte buffer as a page, without validation.
    pub fn wrap(data: Vec<u8>) -> (p: SlottedPage)
        requires
            data@.len() == PAGE_SIZE,
        ensures
            p.wf(),
            p@ == data@,
    {
        SlottedPage { data }
    }

    /// The full page image.
    pub fn to_bytes(&self) -> (r: &Vec<u8>)
        ensures
            r@ == self@,
    {
        &self.data
    }

    /// The magic number held in the header.
    pub fn magic_number(&self) -> (r: u32)
        requires
            self.wf(),
        ensures
            r == spec_magic(self@),
    {
        read_u32_be(&self.data, 0)
    }

    /// The number of pointers held in the header.
    pub fn number_of_pointers(&self) -> (r: u16)
        requires
            self.wf(),
        ensures
            r == spec_num_pointers(self@),
    {
        read_u16_be(&self.data, 4)
    }

    /// The cell offset held in the header.
    pub fn cell_offset(&self) -> (r: u16)
        requires
            self.wf(),
        ensures
            r == spec_cell_offset(self@),
    {
        read_u16_be(&self.data, 6)
    }

    /// The next-overflow-page-id held in the header.
    pub fn next_overflow_page_id(&self) -> (r: u32)
        requires
            self.wf(),
        ensures
            r == spec_next_overflow(self@),
    {
        read_u32_be(&self.data, 8)
    }

    /// The checksum held in the header, as distinct from the checksum the
    /// page contents require; the two agree on an intact page.
    pub fn stored_check_sum(&self) -> (r: u32)
        requires
            self.wf(),
        ensures
            r == spec_check_sum_field(self@),
    {
        read_u32_be(&self.data, 12)
    }

    /// The format version held in the header.
    pub fn version(&self) -> (r: u8)
        requires
            self.wf(),
        ensures
            r == spec_version(self@),
    {
        self.data[16]
    }

    /// True iff the magic number marks the page as neither leaf nor internal.
    pub fn empty(&self) -> (r: bool)
        requires
            self.wf(),
        ensures
            r == spec_is_empty(self@),
    {
        let m = self.magic_number();
        m != MAGIC_NUMBER_INTERNAL && m != MAGIC_NUMBER_LEAF
    }

    /// The checksum the page contents require: the CRC-32 of the image with
    /// the checksum field zeroed. Computing it twice without mutation gives
    /// the same value, since it is a function of the page bytes alone.
    pub fn check_sum(&self) -> (r: u32)
        requires
            self.wf(),
        ensures
            r == spec_page_check_sum(self@),
    {
        let mut image = copy_range(&self.data, 0, PAGE_SIZE);
        proof {
            assert(image@ =~= self@);
        }
        write_u32_be(&mut image, 12, 0);
        crc32_hash(&image)
    }

    /// Recomputes the checksum and stores it in the header field.
    fn stamp_check_sum(&mut self)
        requires
            old(self).wf(),
        ensures
            final(self).wf(),
            final(self)@ == spec_store_u32_be(
                old(self)@,
                12,
                spec_page_check_sum(old(self)@),
            ),
            spec_check_sum_field(final(self)@) == spec_page_check_sum(final(self)@),
    {
        let sum = self.check_sum();
        write_u32_be(&mut self.data, 12, sum);
        proof {
            assert(spec_with_zero_check_sum(self@) =~= spec_with_zero_check_sum(old(self)@));
        }
    }

    /// The pointer entry at `index`.
    pub fn pointer_view(&self, index: usize) -> (r: CellPointer)
        requires
            self.wf(),
            spec_valid_layout(self@),
            index < spec_num_pointers(self@),
        ensures
            r.cell_offset == spec_pointer_offset(self@, index as int),
            r.cell_length == spec_pointer_length(self@, index as int),
    {
        let off = read_u16_be(&self.data, HEADER_SIZE + POINTER_SIZE * index);
        let len = read_u16_be(&self.data, HEADER_SIZE + POINTER_SIZE * index + 2);
        CellPointer { cell_offset: off, cell_length: len }
    }

    /// The key and value bytes of the cell that pointer entry `index`
    /// addresses.
    pub fn cell_view(&self, index: usize) -> (r: (Vec<u8>, Vec<u8>))
        requires
            self.wf(),
            spec_valid_layout(self@),
            index < spec_num_pointers(self@),
        ensures
            r.0@ == spec_cell_key(self@, index as int),
            r.1@ == spec_cell_value(self@, index as int),
    {
        let pointer = self.pointer_view(index);
        proof {
            assert(spec_pointer_wf(self@, index as int));
        }
        let base = HEADER_SIZE + pointer.cell_offset as usize;
        let key_length = read_u16_be(&self.data, base) as usize;
        let value_length = read_u16_be(&self.data, base + 2) as usize;
        let key = copy_range(&self.data, base + CELL_HEADER_SIZE, key_length);
        let value = copy_range(&self.data, base + CELL_HEADER_SIZE + key_length, value_length);
        (key, value)
    }

    /// The bytes left between the pointer array and the cell area.
    pub fn cell_free_space(&self) -> (r: usize)
        requires
            self.wf(),
            spec_valid_layout(self@),
        ensures
            r == spec_cell_offset(self@) - POINTER_SIZE * spec_num_pointers(self@),
    {
        let n = self.number_of_pointers() as usize;
        let off = self.cell_offset() as usize;
        off - POINTER_SIZE * n
    }
}

/// A new cell of the given key and value lengths fits in `d`: the free area
/// can take one more pointer entry and the cell itself.
pub open spec fn spec_cell_fits(d: Seq<u8>, key_len: int, value_len: int) -> bool {
    POINTER_SIZE + CELL_HEADER_SIZE + key_len + value_len <= spec_cell_offset(d)
        - POINTER_SIZE * spec_num_pointers(d)
}

/// What a successful insertion at `index` does to a page image: `d1` is `d0`
/// with the pointer array opened up at `index`, the new cell written at the
/// top of the free cell area, the header brought up to date, and a fresh
/// checksum stamped. Pointers before `index` and every existing cell are
/// untouched; pointers at and after `index` move up by one slot.
pub open spec fn spec_add_cell_post(
    d0: Seq<u8>,
    d1: Seq<u8>,
    index: int,
    key: Seq<u8>,
    value: Seq<u8>,
) -> bool {
    let n = spec_num_pointers(d0) as int;
    let cell_size = CELL_HEADER_SIZE + key.len() + value.len();
    let cell_start = spec_cell_offset(d0) - cell_size;
    &&& d1.len() == PAGE_SIZE
    &&& spec_valid_layout(d1)
    &&& spec_magic(d1) == spec_magic(d0)
    &&& spec_version(d1) == spec_version(d0)
    &&& spec_next_overflow(d1) == spec_next_overflow(d0)
    &&& spec_num_pointers(d1) == n + 1
    &&& spec_cell_offset(d1) == cell_start
    &&& forall|t: int|
        0 <= t < index ==> spec_pointer_offset(d1, t) == spec_pointer_offset(d0, t)
            && spec_pointer_length(d1, t) == spec_pointer_length(d0, t)
    &&& spec_pointer_offset(d1, index) == cell_start
    &&& spec_pointer_length(d1, index) == cell_size
    &&& forall|t: int|
        index < t <= n ==> spec_pointer_offset(d1, t) == spec_pointer_offset(d0, t - 1)
            && spec_pointer_length(d1, t) == spec_pointer_length(d0, t - 1)
    &&& spec_cell_key(d1, index) == key
    &&& spec_cell_value(d1, index) == value
    &&& forall|t: int|
        0 <= t < index ==> spec_cell_key(d1, t) == spec_cell_key(d0, t) && spec_cell_value(
            d1,
            t,
        ) == spec_cell_value(d0, t)
    &&& forall|t: int|
        index < t <= n ==> spec_cell_key(d1, t) == spec_cell_key(d0, t - 1)
            && spec_cell_value(d1, t) == spec_cell_value(d0, t - 1)
    &&& spec_check_sum_field(d1) == spec_page_check_sum(d1)
}

/// Copies `src` into `d` starting at `start`.
fn write_bytes(d: &mut Vec<u8>, start: usize, src: &[u8])
    requires
        start + src@.len() <= old(d).len(),
    ensures
        final(d)@.len() == old(d)@.len(),
        forall|t: int| 0 <= t < src@.len() ==> final(d)@[start + t] == src@[t],
        forall|k: int|
            0 <= k < old(d)@.len() && !(start <= k < start + src@.len()) ==> final(d)@[k]
                == old(d)@[k],
{
    let mut t: usize = 0;
    while t < src.len()
        invariant
            start + src@.len() <= d.len(),
            d@.len() == old(d)@.len(),
            t <= src@.len(),
            forall|u: int| 0 <= u < t ==> d@[start + u] == src@[u],
            forall|k: int|
                0 <= k < old(d)@.len() && !(start <= k < start + src@.len()) ==> d@[k] == old(
                    d,
                )@[k],
        decreases src@.len() - t,
    {
        d[start + t] = src[t];
        t = t + 1;
    }
}

impl SlottedPage {
    /// Inserts a cell holding `key` and `value` so that its pointer stands
    /// at `index`, shifting every pointer at or after `index` up by one
    /// slot. Fails with `PageFull`, leaving the page untouched, exactly
    /// when the free area cannot hold the new pointer and cell.
    #[verifier::rlimit(60)]
    pub fn add_cell(&mut self, index: usize, key: &[u8], value: &[u8]) -> (r: Result<
        (),
        PageError,
    >)
        requires
            old(self).wf(),
            spec_valid_layout(old(self)@),
            index <= spec_num_pointers(old(self)@),
        ensures
            final(self).wf(),
            r is Ok <==> spec_cell_fits(old(self)@, key@.len() as int, value@.len() as int),
            r is Err ==> r == Err::<(), PageError>(PageError::PageFull) && final(self)@ == old(
                self,
            )@,
            r is Ok ==> spec_add_cell_post(
                old(self)@,
                final(self)@,
                index as int,
                key@,
                value@,
            ),
    {
        let ghost d0 = self@;
        let n = self.number_of_pointers() as usize;
        let cell_offset = self.cell_offset() as usize;
        if key.len() >= PAGE_SIZE || value.len() >= PAGE_SIZE {
            return Err(PageError::PageFull);
        }
        let key_size = key.len();
        let value_size = value.len();
        let cell_size = CELL_HEADER_SIZE + key_size + value_size;
        let free = self.cell_free_space();
        if free < POINTER_SIZE + cell_size {
            return Err(PageError::PageFull);
        }
        let cell_start = cell_offset - cell_size;

        // Open a pointer slot at `index`: move each entry up by one,
        // starting from the highest so that no entry is overwritten
        // before it is read.
        let mut j: usize = n;
        while j > index
            invariant
                index <= j <= n,
                self@.len() == PAGE_SIZE,
                n == spec_num_pointers(d0),
                d0.len() == PAGE_SIZE,
                POINTER_SIZE * (n + 1) <= spec_cell_offset(d0),
                spec_cell_offset(d0) <= BODY_SIZE,
                forall|k: int|
                    0 <= k < PAGE_SIZE && !(HEADER_SIZE + POINTER_SIZE * (j + 1) <= k
                        < HEADER_SIZE + POINTER_SIZE * (n + 1)) ==> self@[k] == d0[k],
                forall|t: int|
                    j < t <= n ==> spec_pointer_offset(self@, t) == spec_pointer_offset(
                        d0,
                        t - 1,
                    ) && spec_pointer_length(self@, t) == spec_pointer_length(d0, t - 1),
            decreases j,
        {
            let ghost d_pre = self@;
            let off = read_u16_be(&self.data, HEADER_SIZE + POINTER_SIZE * (j - 1));
            let len = read_u16_be(&self.data, HEADER_SIZE + POINTER_SIZE * (j - 1) + 2);
            write_u16_be(&mut self.data, HEADER_SIZE + POINTER_SIZE * j, off);
            write_u16_be(&mut self.data, HEADER_SIZE + POINTER_SIZE * j + 2, len);
            proof {
                assert forall|t: int|
                    j - 1 < t <= n implies spec_pointer_offset(self@, t) == spec_pointer_offset(
                    d0,
                    t - 1,
                ) && spec_pointer_length(self@, t) == spec_pointer_length(d0, t - 1) by {
                    if t == j {
                        assert(off == spec_pointer_offset(d_pre, j - 1));
                        assert(len == spec_pointer_length(d_pre, j - 1));
                        assert(spec_pointer_offset(d_pre, j - 1) == spec_pointer_offset(
                            d0,
                            j - 1,
                        ));
                        assert(spec_pointer_length(d_pre, j - 1) == spec_pointer_length(
                            d0,
                            j - 1,
                        ));
                    } else {
                        assert(spec_pointer_offset(self@, t) == spec_pointer_offset(d_pre, t));
                        assert(spec_pointer_length(self@, t) == spec_pointer_length(d_pre, t));
                    }
                }
            }
            j = j - 1;
        }

        // The new pointer entry at `index`.
        let ghost d_shift = self@;
        write_u16_be(&mut self.data, HEADER_SIZE + POINTER_SIZE * index, cell_start as u16);
        write_u16_be(
            &mut self.data,
            HEADER_SIZE + POINTER_SIZE * index + 2,
            cell_size as u16,
        );
        let ghost d_ptr = self@;
        proof {
            assert forall|t: int|
                index < t <= n implies spec_pointer_offset(d_ptr, t) == spec_pointer_offset(
                d0,
                t - 1,
            ) && spec_pointer_length(d_ptr, t) == spec_pointer_length(d0, t - 1) by {
                assert(HEADER_SIZE + POINTER_SIZE * t >= HEADER_SIZE + POINTER_SIZE * index + 4);
                assert(spec_pointer_offset(d_ptr, t) == spec_pointer_offset(d_shift, t));
                assert(spec_pointer_length(d_ptr, t) == spec_pointer_length(d_shift, t));
            }
            assert forall|k: int|
                0 <= k < PAGE_SIZE && !(HEADER_SIZE + POINTER_SIZE * index <= k < HEADER_SIZE
                    + POINTER_SIZE * (n + 1)) implies d_ptr[k] == d0[k] by {
                assert(d_shift[k] == d0[k]);
            }
        }

        // The cell itself, at the new top of the cell area.
        let base = HEADER_SIZE + cell_start;
        write_u16_be(&mut self.data, base, key_size as u16);
        write_u16_be(&mut self.data, base + 2, value_size as u16);
        write_bytes(&mut self.data, base + CELL_HEADER_SIZE, key);
        write_bytes(&mut self.data, base + CELL_HEADER_SIZE + key_size, value);
        let ghost d_cell = self@;

        // Bring the header up to date and stamp a fresh checksum.
        write_u16_be(&mut self.data, 6, cell_start as u16);
        write_u16_be(&mut self.data, 4, (n + 1) as u16);
        let ghost d_hdr = self@;
        self.stamp_check_sum();

        proof {
            let idx = index as int;
            let n_i = n as int;
            let cs = CELL_HEADER_SIZE + key@.len() + value@.len();
            let cstart = spec_cell_offset(d0) - cs;
            let base_i = HEADER_SIZE + cstart;
            let d1 = self@;
            assert(cs == cell_size && cstart == cell_start && base_i == base);

            // Bytes below the new pointer entry, and bytes at or above the
            // old cell area, are untouched end to end.
            assert(forall|k: int|
                0 <= k < HEADER_SIZE + POINTER_SIZE * idx && !(4 <= k < 8) && !(12 <= k < 16)
                    ==> d1[k] == d0[k]);
            assert(forall|k: int|
                base_i + cs <= k < PAGE_SIZE ==> d1[k] == d0[k]);
            // The pointer array between the new entry and the cell area is
            // whatever the shift and the two entry writes left there.
            assert(forall|k: int|
                HEADER_SIZE + POINTER_SIZE * idx <= k < base_i ==> d1[k] == d_ptr[k]);
            // The cell bytes are whatever the cell writes left there.
            assert(forall|k: int| base_i <= k < base_i + cs ==> d1[k] == d_cell[k]);

            assert(spec_num_pointers(d1) == n_i + 1);
            assert(spec_cell_offset(d1) == cstart);
            assert(spec_magic(d1) == spec_magic(d0));
            assert(spec_version(d1) == spec_version(d0));
            assert(spec_next_overflow(d1) == spec_next_overflow(d0));

            assert forall|t: int| 0 <= t < idx implies spec_pointer_offset(d1, t)
                == spec_pointer_offset(d0, t) && spec_pointer_length(d1, t)
                == spec_pointer_length(d0, t) by {
                assert(HEADER_SIZE + POINTER_SIZE * t + 4 <= HEADER_SIZE + POINTER_SIZE * idx);
            }
            assert(spec_pointer_offset(d1, idx) == cstart);
            assert(spec_pointer_length(d1, idx) == cs);
            assert forall|t: int| idx < t <= n_i implies spec_pointer_offset(d1, t)
                == spec_pointer_offset(d0, t - 1) && spec_pointer_length(d1, t)
                == spec_pointer_length(d0, t - 1) by {
                assert(spec_pointer_offset(d_ptr, t) == spec_pointer_offset(d0, t - 1));
                assert(spec_pointer_length(d_ptr, t) == spec_pointer_length(d0, t - 1));
            }

            // The new cell reads back as the inserted key and value.
            assert(spec_cell_base(d1, idx) == base_i);
            assert(spec_key_length(d1, idx) == key@.len());
            assert(spec_value_length(d1, idx) == value@.len());
            assert(spec_cell_key(d1, idx) =~= key@);
            assert(spec_cell_value(d1, idx) =~= value@);

            // Every pre-existing cell lies at or above the old cell area,
            // whose bytes are untouched.
            assert forall|t: int| 0 <= t < idx implies spec_cell_key(d1, t) == spec_cell_key(
                d0,
                t,
            ) && spec_cell_value(d1, t) == spec_cell_value(d0, t) by {
                assert(spec_pointer_wf(d0, t));
                assert(spec_cell_base(d1, t) == spec_cell_base(d0, t));
                assert(spec_key_length(d1, t) == spec_key_length(d0, t));
                assert(spec_value_length(d1, t) == spec_value_length(d0, t));
                assert(spec_cell_key(d1, t) =~= spec_cell_key(d0, t));
                assert(spec_cell_value(d1, t) =~= spec_cell_value(d0, t));
            }
            assert forall|t: int| idx < t <= n_i implies spec_cell_key(d1, t) == spec_cell_key(
                d0,
                t - 1,
            ) && spec_cell_value(d1, t) == spec_cell_value(d0, t - 1) by {
                assert(spec_pointer_wf(d0, t - 1));
                assert(spec_cell_base(d1, t) == spec_cell_base(d0, t - 1));
                assert(spec_key_length(d1, t) == spec_key_length(d0, t - 1));
                assert(spec_value_length(d1, t) == spec_value_length(d0, t - 1));
                assert(spec_cell_key(d1, t) =~= spec_cell_key(d0, t - 1));
                assert(spec_cell_value(d1, t) =~= spec_cell_value(d0, t - 1));
            }

            // The layout invariant carries over to the new image.
            assert forall|t: int| 0 <= t < n_i + 1 implies spec_pointer_wf(d1, t) by {
                if t < idx {
                    assert(spec_pointer_wf(d0, t));
                } else if t == idx {
                } else {
                    assert(spec_pointer_wf(d0, t - 1));
                }
            }
            assert(spec_valid_layout(d1));
        }
        Ok(())
    }
}

} // verus!
