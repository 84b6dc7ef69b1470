//! The 32-byte log header and the rolling checksum function.

use vstd::prelude::*;

use crate::bytes::be32;
use crate::bytes::le32;
use crate::bytes::read_be32;
use crate::bytes::read_le32;
use crate::error::WalValidatorError;

verus! {

/// Log magic number selecting big-endian checksum chunking.
pub const WAL_MAGIC_BE: u32 = 0x377f0682;

/// Log magic number selecting little-endian checksum chunking.
pub const WAL_MAGIC_LE: u32 = 0x377f0683;

/// Log file header (32 bytes).
#[derive(Debug, Clone, PartialEq, Eq, Structural)]
pub struct WalHeader {
    /// Magic number (determines checksum byte order).
    pub magic: u32,
    /// Log format version.
    pub format_version: u32,
    /// Database page size.
    pub page_size: u32,
    /// Checkpoint sequence number.
    pub checkpoint_seq: u32,
    /// Salt value 1.
    pub salt1: u32,
    /// Salt value 2.
    pub salt2: u32,
    /// Checksum part 1.
    pub checksum1: u32,
    /// Checksum part 2.
    pub checksum2: u32,
    /// Whether checksums use big-endian byte order.
    pub big_endian_checksums: bool,
}

/// The rolling log checksum: fold `s0 <- s0 + v0 + s1; s1 <- s1 + v1 + s0`
/// over each full 8-byte chunk of `data`, in wrapping 32-bit arithmetic,
/// where `(v0, v1)` are the chunk's two 32-bit words in the chosen
/// endianness. A trailing partial chunk is ignored.
pub open spec fn wal_checksum(be: bool, s0: u32, s1: u32, data: Seq<u8>) -> (u32, u32)
    decreases data.len(),
{
    if data.len() < 8 {
        (s0, s1)
    } else {
        let v0 = if be {
            be32(data, 0)
        } else {
            le32(data, 0)
        };
        let v1 = if be {
            be32(data, 4)
        } else {
            le32(data, 4)
        };
        let t0 = ((s0 + v0 + s1) % 0x100000000) as u32;
        let t1 = ((s1 + v1 + t0) % 0x100000000) as u32;
        wal_checksum(be, t0, t1, data.skip(8))
    }
}

/// The log header described by the first 32 bytes of `data`.
pub open spec fn wal_header_at(data: Seq<u8>) -> WalHeader {
    WalHeader {
        magic: be32(data, 0),
        format_version: be32(data, 4),
        page_size: be32(data, 8),
        checkpoint_seq: be32(data, 12),
        salt1: be32(data, 16),
        salt2: be32(data, 20),
        checksum1: be32(data, 24),
        checksum2: be32(data, 28),
        big_endian_checksums: be32(data, 0) == WAL_MAGIC_BE,
    }
}

impl WalHeader {
    /// Parse the log header from bytes. The magic word picks the checksum
    /// endianness; every other field is big-endian regardless.
    pub fn parse(data: &[u8]) -> (r: Result<Self, WalValidatorError>)
        ensures
            match r {
                Ok(h) => {
                    &&& data@.len() >= 32
                    &&& (be32(data@, 0) == WAL_MAGIC_BE || be32(data@, 0) == WAL_MAGIC_LE)
                    &&& h == wal_header_at(data@)
                },
                Err(e) => {
                    if data@.len() < 32 {
                        e == WalValidatorError::UnexpectedEof
                    } else {
                        &&& be32(data@, 0) != WAL_MAGIC_BE
                        &&& be32(data@, 0) != WAL_MAGIC_LE
                        &&& e == WalValidatorError::InvalidWalMagic(be32(data@, 0))
                    }
                },
            },
    {
        if data.len() < 32 {
            return Err(WalValidatorError::UnexpectedEof);
        }

        let magic = read_be32(data, 0);
        let big_endian_checksums = if magic == WAL_MAGIC_BE {
            true
        } else if magic == WAL_MAGIC_LE {
            false
        } else {
            return Err(WalValidatorError::InvalidWalMagic(magic));
        };

        Ok(WalHeader {
            magic,
            format_version: read_be32(data, 4),
            page_size: read_be32(data, 8),
            checkpoint_seq: read_be32(data, 12),
            salt1: read_be32(data, 16),
            salt2: read_be32(data, 20),
            checksum1: read_be32(data, 24),
            checksum2: read_be32(data, 28),
            big_endian_checksums,
        })
    }

    /// Calculate the rolling checksum of `data` from the `initial` pair.
    /// The result is a pure function of the endianness, the initial pair
    /// and the bytes.
    pub fn checksum(&self, data: &[u8], initial: (u32, u32)) -> (r: (u32, u32))
        ensures
            r == wal_checksum(self.big_endian_checksums, initial.0, initial.1, data@),
    {
        let mut s0 = initial.0;
        let mut s1 = initial.1;
        let mut i: usize = 0;
        let len = data.len();
        proof {
            assert(data@.skip(0) =~= data@);
        }
        while len - i >= 8
            invariant
                i <= data@.len(),
                len == data@.len(),
                wal_checksum(self.big_endian_checksums, initial.0, initial.1, data@)
                    == wal_checksum(self.big_endian_checksums, s0, s1, data@.skip(i as int)),
            decreases len - i,
        {
            let v0 = if self.big_endian_checksums {
                read_be32(data, i)
            } else {
                read_le32(data, i)
            };
            let v1 = if self.big_endian_checksums {
                read_be32(data, i + 4)
            } else {
                read_le32(data, i + 4)
            };
            let t0 = ((s0 as u64 + v0 as u64 + s1 as u64) % 0x100000000) as u32;
            let t1 = ((s1 as u64 + v1 as u64 + t0 as u64) % 0x100000000) as u32;
            proof {
                let rest = data@.skip(i as int);
                assert(rest.len() >= 8);
                assert(be32(rest, 0) == be32(data@, i as int));
                assert(le32(rest, 0) == le32(data@, i as int));
                assert(be32(rest, 4) == be32(data@, i + 4));
                assert(le32(rest, 4) == le32(data@, i + 4));
                assert(rest.skip(8) =~= data@.skip(i + 8));
            }
            s0 = t0;
            s1 = t1;
            i = i + 8;
        }
        proof {
            assert(data@.skip(i as int).len() < 8);
        }
        (s0, s1)
    }
}

} // verus!
