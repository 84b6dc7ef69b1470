//! Fixed-size page reads over the base database image.

use vstd::prelude::*;
use vstd::slice::slice_subrange;
use vstd::slice::slice_to_vec;

use crate::error::WalValidatorError;

verus! {

/// Serves fixed-size pages out of the base database image by page number.
///
/// A page number beyond the end of the image is reported as missing rather
/// than an error: the page may exist only in the log.
#[derive(Debug)]
pub struct PageReader {
    /// The raw bytes of the base database file.
    data: Vec<u8>,
    /// Page size in bytes.
    page_size: u32,
    /// Declared page count from the database header.
    page_count: u32,
}

impl PageReader {
    /// The base image this reader serves.
    pub closed spec fn spec_data(&self) -> Seq<u8> {
        self.data@
    }

    /// The page size this reader was created with.
    pub closed spec fn spec_page_size(&self) -> u32 {
        self.page_size
    }

    /// The declared page count this reader was created with.
    pub closed spec fn spec_page_count(&self) -> u32 {
        self.page_count
    }

    /// Page `page_num` (1-indexed) exists in the base image when its whole
    /// extent lies within the file.
    pub open spec fn page_in_file(&self, page_num: u32) -> bool {
        page_num >= 1 && page_num * self.spec_page_size() <= self.spec_data().len()
    }

    /// The bytes of page `page_num` within the base image.
    pub open spec fn spec_page(&self, page_num: u32) -> Seq<u8> {
        self.spec_data().subrange(
            (page_num - 1) * self.spec_page_size(),
            page_num * self.spec_page_size(),
        )
    }

    /// Create a new page reader over the given database image.
    pub fn new(data: Vec<u8>, page_size: u32, page_count: u32) -> (r: Self)
        ensures
            r.spec_data() == data@,
            r.spec_page_size() == page_size,
            r.spec_page_count() == page_count,
    {
        PageReader { data, page_size, page_count }
    }

    /// Read a page from the database image (1-indexed). Reports
    /// `PageNotFound` for page number zero and for pages beyond the end of
    /// the image, which may exist only in the log.
    pub fn read_page(&self, page_num: u32) -> (r: Result<Vec<u8>, WalValidatorError>)
        ensures
            match r {
                Ok(page) => {
                    &&& self.page_in_file(page_num)
                    &&& page@ == self.spec_page(page_num)
                    &&& page@.len() == self.spec_page_size()
                },
                Err(e) => {
                    &&& !self.page_in_file(page_num)
                    &&& e == (WalValidatorError::PageNotFound { page_num })
                },
            },
    {
        if page_num == 0 {
            return Err(WalValidatorError::PageNotFound { page_num });
        }

        proof {
            assert((page_num - 1) * self.page_size + self.page_size
                < 0x10000000000000000) by (nonlinear_arith)
                requires
                    1 <= page_num <= 0xFFFFFFFFu32,
                    self.page_size <= 0xFFFFFFFFu32,
            ;
        }
        let offset = (page_num as u64 - 1) * self.page_size as u64;
        let end_offset = offset + self.page_size as u64;
        proof {
            assert(page_num * self.page_size == (page_num - 1) * self.page_size
                + self.page_size) by (nonlinear_arith);
        }

        if end_offset > self.data.len() as u64 {
            return Err(WalValidatorError::PageNotFound { page_num });
        }

        let page = slice_to_vec(
            slice_subrange(self.data.as_slice(), offset as usize, end_offset as usize),
        );
        Ok(page)
    }

    /// Get the page size.
    pub fn page_size(&self) -> (r: u32)
        ensures
            r == self.spec_page_size(),
    {
        self.page_size
    }

    /// Get the declared page count.
    pub fn page_count(&self) -> (r: u32)
        ensures
            r == self.spec_page_count(),
    {
        self.page_count
    }
}

} // verus!
