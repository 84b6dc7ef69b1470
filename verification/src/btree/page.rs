//! B-tree page headers and cell pointer arrays.
//!
//! A page starts with an 8-byte header (12 bytes for interior pages, which
//! add a right-child pointer), followed by `cell_count` big-endian 16-bit
//! cell pointers. Page 1 carries the 100-byte database header first.

use vstd::prelude::*;

use crate::bytes::be16;
use crate::bytes::be32;
use crate::bytes::read_be16;
use crate::bytes::read_be32;
use crate::error::WalValidatorError;

verus! {

/// B-tree page types.
#[derive(Debug, Clone, Copy, PartialEq, Eq, Structural)]
pub enum BTreePageType {
    /// Interior page of a table B-tree (0x05).
    TableInterior,
    /// Leaf page of a table B-tree (0x0D).
    TableLeaf,
    /// Interior page of an index B-tree (0x02).
    IndexInterior,
    /// Leaf page of an index B-tree (0x0A).
    IndexLeaf,
}

/// The page type denoted by a type byte, if any.
pub open spec fn page_type_of(b: int) -> Option<BTreePageType> {
    if b == 0x02 {
        Some(BTreePageType::IndexInterior)
    } else if b == 0x05 {
        Some(BTreePageType::TableInterior)
    } else if b == 0x0A {
        Some(BTreePageType::IndexLeaf)
    } else if b == 0x0D {
        Some(BTreePageType::TableLeaf)
    } else {
        None
    }
}

impl BTreePageType {
    /// True on the two interior (non-leaf) page types.
    pub open spec fn spec_is_interior(self) -> bool {
        self == BTreePageType::TableInterior || self == BTreePageType::IndexInterior
    }

    /// True on the two table (non-index) page types.
    pub open spec fn spec_is_table(self) -> bool {
        self == BTreePageType::TableInterior || self == BTreePageType::TableLeaf
    }

    /// Parse a page type byte.
    pub fn from_byte(byte: u8) -> (r: Option<Self>)
        ensures
            r == page_type_of(byte as int),
    {
        match byte {
            0x02 => Some(BTreePageType::IndexInterior),
            0x05 => Some(BTreePageType::TableInterior),
            0x0A => Some(BTreePageType::IndexLeaf),
            0x0D => Some(BTreePageType::TableLeaf),
            _ => None,
        }
    }

    /// Returns true if this is an interior (non-leaf) page.
    pub fn is_interior(&self) -> (r: bool)
        ensures
            r == self.spec_is_interior(),
    {
        matches!(self, BTreePageType::TableInterior | BTreePageType::IndexInterior)
    }

    /// Returns true if this is a table (not index) page.
    pub fn is_table(&self) -> (r: bool)
        ensures
            r == self.spec_is_table(),
    {
        matches!(self, BTreePageType::TableInterior | BTreePageType::TableLeaf)
    }
}

/// The offset of the B-tree header within a page: 100 on page 1, which
/// starts with the database header, and 0 elsewhere.
pub open spec fn page_header_offset(page_num: u32) -> int {
    if page_num == 1 {
        100
    } else {
        0
    }
}

/// B-tree page header.
#[derive(Debug, Clone)]
pub struct BTreePageHeader {
    /// Page type.
    pub page_type: BTreePageType,
    /// Offset to first freeblock (0 if none).
    pub first_freeblock: u16,
    /// Number of cells on this page.
    pub cell_count: u16,
    /// Offset to start of cell content area.
    pub cell_content_offset: u16,
    /// Number of fragmented free bytes.
    pub fragmented_bytes: u8,
    /// Right-most child pointer (only for interior pages).
    pub right_child: Option<u32>,
}

/// The header that parsing the page bytes yields: `UnexpectedEof` when the
/// header is truncated, `InvalidPageType` on an unknown type byte, and the
/// decoded fields otherwise.
pub open spec fn spec_parse_header(data: Seq<u8>, page_num: u32) -> Result<
    BTreePageHeader,
    WalValidatorError,
> {
    let off = page_header_offset(page_num);
    if data.len() < off + 8 {
        Err(WalValidatorError::UnexpectedEof)
    } else {
        match page_type_of(data[off] as int) {
            None => Err(WalValidatorError::InvalidPageType(data[off], page_num)),
            Some(t) => {
                if t.spec_is_interior() && data.len() < off + 12 {
                    Err(WalValidatorError::UnexpectedEof)
                } else {
                    Ok(
                        BTreePageHeader {
                            page_type: t,
                            first_freeblock: be16(data, off + 1),
                            cell_count: be16(data, off + 3),
                            cell_content_offset: be16(data, off + 5),
                            fragmented_bytes: data[off + 7],
                            right_child: if t.spec_is_interior() {
                                Some(be32(data, off + 8))
                            } else {
                                None
                            },
                        },
                    )
                }
            },
        }
    }
}

impl BTreePageHeader {
    /// The header parsed from `data` describes the bytes exactly.
    pub open spec fn matches(self, data: Seq<u8>, page_num: u32) -> bool {
        let off = page_header_offset(page_num);
        &&& data.len() >= off + 8
        &&& page_type_of(data[off] as int) == Some(self.page_type)
        &&& self.first_freeblock == be16(data, off + 1)
        &&& self.cell_count == be16(data, off + 3)
        &&& self.cell_content_offset == be16(data, off + 5)
        &&& self.fragmented_bytes == data[off + 7]
        &&& if self.page_type.spec_is_interior() {
            &&& data.len() >= off + 12
            &&& self.right_child == Some(be32(data, off + 8))
        } else {
            self.right_child is None
        }
    }

    /// Parse a B-tree page header; `page_num` selects the 100-byte database
    /// header offset on page 1. Returns the header and the offset just past
    /// it.
    pub fn parse(data: &[u8], page_num: u32) -> (r: Result<
        (Self, usize),
        WalValidatorError,
    >)
        ensures
            match r {
                Ok((h, hsize)) => {
                    &&& spec_parse_header(data@, page_num) == Ok::<
                        BTreePageHeader,
                        WalValidatorError,
                    >(h)
                    &&& h.matches(data@, page_num)
                    &&& hsize as int == page_header_offset(page_num) + (
                    if h.page_type.spec_is_interior() {
                        12int
                    } else {
                        8int
                    })
                },
                Err(e) => spec_parse_header(data@, page_num) == Err::<
                    BTreePageHeader,
                    WalValidatorError,
                >(e),
            },
    {
        let offset: usize = if page_num == 1 {
            100
        } else {
            0
        };

        if data.len() < offset + 8 {
            return Err(WalValidatorError::UnexpectedEof);
        }

        let page_type_byte = data[offset];
        let page_type = match BTreePageType::from_byte(page_type_byte) {
            Some(t) => t,
            None => {
                return Err(WalValidatorError::InvalidPageType(page_type_byte, page_num));
            },
        };

        let first_freeblock = read_be16(data, offset + 1);
        let cell_count = read_be16(data, offset + 3);
        let cell_content_offset = read_be16(data, offset + 5);
        let fragmented_bytes = data[offset + 7];

        let (right_child, header_size) = if page_type.is_interior() {
            if data.len() < offset + 12 {
                return Err(WalValidatorError::UnexpectedEof);
            }
            let right_child = read_be32(data, offset + 8);
            (Some(right_child), offset + 12)
        } else {
            (None, offset + 8)
        };

        Ok((
            BTreePageHeader {
                page_type,
                first_freeblock,
                cell_count,
                cell_content_offset,
                fragmented_bytes,
                right_child,
            },
            header_size,
        ))
    }

    /// The cell pointer array of a page whose header is `self`: `cell_count`
    /// big-endian 16-bit offsets right after the header.
    pub open spec fn spec_cell_pointers(self, data: Seq<u8>, page_num: u32) -> Seq<u16> {
        let start = page_header_offset(page_num) + (if self.page_type.spec_is_interior() {
            12int
        } else {
            8int
        });
        Seq::new(self.cell_count as nat, |i: int| be16(data, start + 2 * i))
    }

    /// The cell pointer array, or the out-of-bounds error when it does not
    /// fit in the page.
    pub open spec fn spec_cell_pointers_res(self, data: Seq<u8>, page_num: u32) -> Result<
        Seq<u16>,
        WalValidatorError,
    > {
        let start = page_header_offset(page_num) + (if self.page_type.spec_is_interior() {
            12int
        } else {
            8int
        });
        if self.cell_count > 0 && start + 2 * self.cell_count > data.len() {
            Err(WalValidatorError::CellPointerOutOfBounds { page_num })
        } else {
            Ok(self.spec_cell_pointers(data, page_num))
        }
    }

    /// Read the cell pointer array from the page.
    pub fn get_cell_pointers(&self, data: &[u8], page_num: u32) -> (r: Result<
        Vec<u16>,
        WalValidatorError,
    >)
        ensures
            match r {
                Ok(ptrs) => self.spec_cell_pointers_res(data@, page_num) == Ok::<
                    Seq<u16>,
                    WalValidatorError,
                >(ptrs@),
                Err(e) => self.spec_cell_pointers_res(data@, page_num) == Err::<
                    Seq<u16>,
                    WalValidatorError,
                >(e),
            },
            ({
                let start = page_header_offset(page_num) + (
                if self.page_type.spec_is_interior() {
                    12int
                } else {
                    8int
                });
                match r {
                    Ok(ptrs) => {
                        &&& self.cell_count > 0 ==> start + 2 * self.cell_count
                            <= data@.len()
                        &&& ptrs@ == self.spec_cell_pointers(data@, page_num)
                    },
                    Err(e) => {
                        &&& self.cell_count > 0
                        &&& start + 2 * self.cell_count > data@.len()
                        &&& e == (WalValidatorError::CellPointerOutOfBounds { page_num })
                    },
                }
            }),
    {
        let header_offset: usize = if page_num == 1 {
            100
        } else {
            0
        };
        let header_size: usize = if self.page_type.is_interior() {
            12
        } else {
            8
        };
        let pointers_start = header_offset + header_size;
        let count = self.cell_count as usize;

        if count > 0 && (data.len() < pointers_start || (data.len() - pointers_start) / 2
            < count) {
            return Err(WalValidatorError::CellPointerOutOfBounds { page_num });
        }

        let mut pointers: Vec<u16> = Vec::new();
        let mut i: usize = 0;
        while i < count
            invariant
                i <= count,
                count == self.cell_count,
                pointers_start <= 112,
                pointers_start + 2 * count <= data@.len() || count == 0,
                pointers@.len() == i,
                forall|k: int|
                    0 <= k < i ==> pointers@[k] == be16(data@, pointers_start + 2 * k),
            decreases count - i,
        {
            let ptr = read_be16(data, pointers_start + i * 2);
            pointers.push(ptr);
            i = i + 1;
        }
        proof {
            assert(pointers@ =~= self.spec_cell_pointers(data@, page_num));
        }
        Ok(pointers)
    }
}

} // verus!
