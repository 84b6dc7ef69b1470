//! Shared validator infrastructure: the page cache and duplicate grouping.

pub mod duplicate;
pub mod page_cache;

pub use duplicate::DuplicateEntry;
pub use duplicate::DuplicateReport;
pub use duplicate::DuplicateType;
pub use duplicate::find_duplicates;
pub use page_cache::PageCache;
