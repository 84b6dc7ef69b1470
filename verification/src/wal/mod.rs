//! Write-ahead log layer: header, frames, checksum, and the commit iterator.

pub mod frame;
pub mod header;

pub mod iterator;

pub use frame::Frame;
pub use frame::FrameHeader;
pub use header::WalHeader;
pub use iterator::Commit;
pub use iterator::CommitIterator;
