//! Base database file layer: the 100-byte header and the page reader.

pub mod header;
pub mod page;

pub use header::DbHeader;
pub use page::PageReader;
