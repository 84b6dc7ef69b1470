//! Log frame headers: 24 bytes before each page-sized payload.

use vstd::prelude::*;

use crate::bytes::be32;
use crate::bytes::read_be32;
use crate::error::WalValidatorError;

verus! {

/// Log frame header (24 bytes).
#[derive(Debug, Clone, PartialEq, Eq, Structural)]
pub struct FrameHeader {
    /// Page number (1-indexed).
    pub page_number: u32,
    /// Database size after commit (0 if not a commit frame).
    pub db_size_after_commit: u32,
    /// Salt value 1 (must match the log header).
    pub salt1: u32,
    /// Salt value 2 (must match the log header).
    pub salt2: u32,
    /// Checksum part 1.
    pub checksum1: u32,
    /// Checksum part 2.
    pub checksum2: u32,
}

/// The frame header described by 24 bytes starting at offset `i` of `data`.
pub open spec fn frame_header_at(data: Seq<u8>, i: int) -> FrameHeader {
    FrameHeader {
        page_number: be32(data, i),
        db_size_after_commit: be32(data, i + 4),
        salt1: be32(data, i + 8),
        salt2: be32(data, i + 12),
        checksum1: be32(data, i + 16),
        checksum2: be32(data, i + 20),
    }
}

impl FrameHeader {
    /// Parse a frame header from bytes.
    pub fn parse(data: &[u8]) -> (r: Result<Self, WalValidatorError>)
        ensures
            match r {
                Ok(h) => data@.len() >= 24 && h == frame_header_at(data@, 0),
                Err(e) => data@.len() < 24 && e == WalValidatorError::UnexpectedEof,
            },
    {
        if data.len() < 24 {
            return Err(WalValidatorError::UnexpectedEof);
        }

        Ok(FrameHeader {
            page_number: read_be32(data, 0),
            db_size_after_commit: read_be32(data, 4),
            salt1: read_be32(data, 8),
            salt2: read_be32(data, 12),
            checksum1: read_be32(data, 16),
            checksum2: read_be32(data, 20),
        })
    }

    /// Returns true if this frame marks a commit boundary.
    pub fn is_commit(&self) -> (r: bool)
        ensures
            r == (self.db_size_after_commit != 0),
    {
        self.db_size_after_commit != 0
    }
}

/// A complete log frame with header and page data.
#[derive(Debug, Clone)]
pub struct Frame {
    /// Frame header.
    pub header: FrameHeader,
    /// Page data.
    pub page_data: Vec<u8>,
    /// Frame index in the log file (0-indexed).
    pub frame_index: u64,
}

} // verus!
