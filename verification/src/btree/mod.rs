//! B-tree layer: cell codecs, page headers, and the scanner.

pub mod cell;
pub mod page;
pub mod scanner;

pub use cell::IndexKey;
pub use cell::extract_index_key;
pub use cell::extract_index_rowid;
pub use cell::parse_varint;
pub use page::BTreePageHeader;
pub use page::BTreePageType;
pub use scanner::BTreeInfo;
pub use scanner::BTreeScanner;
pub use scanner::RowidLocation;
