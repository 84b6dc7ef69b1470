//! The database file header: the first 100 bytes of page 1.

use vstd::prelude::*;

use crate::bytes::be16;
use crate::bytes::be32;
use crate::bytes::read_be16;
use crate::bytes::read_be32;
use crate::error::WalValidatorError;

verus! {

/// Database file header fields this tool decodes.
#[derive(Debug, Clone, PartialEq, Eq, Structural)]
pub struct DbHeader {
    /// Database page size in bytes.
    pub page_size: u32,
    /// Size of the database in pages.
    pub page_count: u32,
    /// Schema cookie (incremented on schema changes).
    pub schema_cookie: u32,
    /// Text encoding (1=UTF-8, 2=UTF-16le, 3=UTF-16be).
    pub text_encoding: u32,
}

/// The sixteen magic bytes that open every database file: the ASCII text
/// of the format name followed by a NUL.
pub open spec fn db_magic() -> Seq<u8> {
    seq![
        0x53u8, 0x51u8, 0x4Cu8, 0x69u8, 0x74u8, 0x65u8, 0x20u8, 0x66u8, 0x6Fu8, 0x72u8,
        0x6Du8, 0x61u8, 0x74u8, 0x20u8, 0x33u8, 0x00u8,
    ]
}

/// The declared page size: the 16-bit field at offset 16, where the value 1
/// denotes 65536.
pub open spec fn decoded_page_size(data: Seq<u8>) -> int {
    if be16(data, 16) == 1 {
        65536
    } else {
        be16(data, 16) as int
    }
}

/// A page size is valid when it is a power of two in [512, 65536].
pub open spec fn valid_page_size(ps: int) -> bool {
    ps == 512 || ps == 1024 || ps == 2048 || ps == 4096 || ps == 8192 || ps == 16384
        || ps == 32768 || ps == 65536
}

impl DbHeader {
    /// Parse the database header from the first 100 bytes of the file.
    pub fn parse(data: &[u8]) -> (r: Result<Self, WalValidatorError>)
        ensures
            match r {
                Ok(h) => {
                    &&& data@.len() >= 100
                    &&& data@.subrange(0, 16) == db_magic()
                    &&& valid_page_size(decoded_page_size(data@))
                    &&& h.page_size as int == decoded_page_size(data@)
                    &&& h.page_count == be32(data@, 28)
                    &&& h.schema_cookie == be32(data@, 40)
                    &&& h.text_encoding == be32(data@, 56)
                },
                Err(e) => {
                    if data@.len() < 100 {
                        e == WalValidatorError::UnexpectedEof
                    } else if data@.subrange(0, 16) != db_magic() {
                        e == WalValidatorError::InvalidDbMagic
                    } else {
                        &&& !valid_page_size(decoded_page_size(data@))
                        &&& e == WalValidatorError::InvalidPageSize(
                            decoded_page_size(data@) as u32,
                        )
                    }
                },
            },
    {
        if data.len() < 100 {
            return Err(WalValidatorError::UnexpectedEof);
        }

        // Magic bytes: the format name, checked byte for byte.
        let magic_ok = data[0] == 0x53 && data[1] == 0x51 && data[2] == 0x4C && data[3]
            == 0x69 && data[4] == 0x74 && data[5] == 0x65 && data[6] == 0x20 && data[7]
            == 0x66 && data[8] == 0x6F && data[9] == 0x72 && data[10] == 0x6D && data[11]
            == 0x61 && data[12] == 0x74 && data[13] == 0x20 && data[14] == 0x33
            && data[15] == 0x00;
        proof {
            if magic_ok {
                assert(data@.subrange(0, 16) =~= db_magic());
            } else {
                assert(data@.subrange(0, 16) != db_magic()) by {
                    if data@.subrange(0, 16) == db_magic() {
                        assert(forall|i: int|
                            0 <= i < 16 ==> data@[i] == db_magic()[i]);
                    }
                };
            }
        }
        if !magic_ok {
            return Err(WalValidatorError::InvalidDbMagic);
        }

        // Page size at offset 16-17, big-endian; the value 1 means 65536.
        let raw_page_size = read_be16(data, 16) as u32;
        let page_size: u32 = if raw_page_size == 1 {
            65536
        } else {
            raw_page_size
        };

        // A valid page size is a power of two between 512 and 65536.
        if !(page_size == 512 || page_size == 1024 || page_size == 2048 || page_size
            == 4096 || page_size == 8192 || page_size == 16384 || page_size == 32768
            || page_size == 65536) {
            return Err(WalValidatorError::InvalidPageSize(page_size));
        }

        let page_count = read_be32(data, 28);
        let schema_cookie = read_be32(data, 40);
        let text_encoding = read_be32(data, 56);

        Ok(DbHeader { page_size, page_count, schema_cookie, text_encoding })
    }
}

} // verus!
