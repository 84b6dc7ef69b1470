//! Error taxonomy for database, log and B-tree decoding.

use vstd::prelude::*;

verus! {

/// Everything that can go wrong while decoding the base file, the log, or a
/// B-tree page.
///
/// Format and integrity errors during log iteration are fatal to a run;
/// format errors during page traversal end the current validator pass.
#[derive(Debug, Clone, PartialEq, Eq, Structural)]
pub enum WalValidatorError {
    /// The first 16 bytes of the database file are not the expected magic.
    InvalidDbMagic,
    /// The database page size is not a power of two in [512, 65536].
    InvalidPageSize(u32),
    /// The log header magic is neither of the two known words.
    InvalidWalMagic(u32),
    /// The database and the log disagree on the page size.
    PageSizeMismatch { db_size: u32, wal_size: u32 },
    /// A frame's rolling checksum does not match the stored one.
    ChecksumMismatch { frame_index: u64 },
    /// A page's type byte is none of the four B-tree page kinds.
    InvalidPageType(u8, u32),
    /// A page was requested that the base file cannot serve.
    PageNotFound { page_num: u32 },
    /// A cell pointer array runs past the end of its page.
    CellPointerOutOfBounds { page_num: u32 },
    /// The data ended in the middle of a structure.
    UnexpectedEof,
}

} // verus!
