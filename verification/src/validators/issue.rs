//! Validation issue types for reporting problems found by validators.

use vstd::prelude::*;

use crate::btree::cell::IndexKey;
use crate::btree::scanner::RowidLocation;
use crate::text::dec_u64;
use crate::text::format_u64;
use crate::text::push_bytes;

verus! {

/// Severity of a validation issue.
#[derive(Debug, Clone, Copy, PartialEq, Eq, Structural)]
pub enum Severity {
    /// Critical issue that indicates corruption.
    Error,
    /// Potential issue that may indicate problems.
    Warning,
    /// Informational message.
    Info,
}

/// Location where an issue was found.
#[derive(Debug, Clone)]
pub enum IssueLocation {
    /// Issue in a table B-tree.
    Table { name: Option<Vec<u8>>, root_page: u32 },
    /// Issue in an index B-tree.
    Index { name: Option<Vec<u8>>, root_page: u32 },
    /// Issue at a specific page.
    Page { page_number: u32 },
    /// Global database issue.
    Database,
}

/// The mathematical shadow of [`IssueLocation`].
pub enum IssueLocationV {
    /// Issue in a table B-tree.
    Table { name: Option<Seq<u8>>, root_page: u32 },
    /// Issue in an index B-tree.
    Index { name: Option<Seq<u8>>, root_page: u32 },
    /// Issue at a specific page.
    Page { page_number: u32 },
    /// Global database issue.
    Database,
}

impl View for IssueLocation {
    type V = IssueLocationV;

    open spec fn view(&self) -> IssueLocationV {
        match self {
            IssueLocation::Table { name, root_page } => IssueLocationV::Table {
                name: match name {
                    Some(n) => Some(n@),
                    None => None,
                },
                root_page: *root_page,
            },
            IssueLocation::Index { name, root_page } => IssueLocationV::Index {
                name: match name {
                    Some(n) => Some(n@),
                    None => None,
                },
                root_page: *root_page,
            },
            IssueLocation::Page { page_number } => IssueLocationV::Page {
                page_number: *page_number,
            },
            IssueLocation::Database => IssueLocationV::Database,
        }
    }
}

/// A single duplicate entry: one rowid or key that appears several times.
#[derive(Debug, Clone)]
pub struct DuplicateEntry<K> {
    /// The duplicated key or rowid.
    pub key: K,
    /// All locations where this key appears.
    pub locations: Vec<RowidLocation>,
}

impl<K> DuplicateEntry<K> {
    /// All occurrences lie on one page, and there are at least two of them.
    pub open spec fn spec_is_intra_page(&self) -> bool {
        self.locations@.len() >= 2 && forall|i: int|
            0 <= i < self.locations@.len()
                ==> (#[trigger] self.locations@[i]).page_number
                == self.locations@[0].page_number
    }

    /// Returns true if all occurrences are on the same page.
    pub fn is_intra_page(&self) -> (r: bool)
        ensures
            r == self.spec_is_intra_page(),
    {
        if self.locations.len() < 2 {
            return false;
        }
        let first_page = self.locations[0].page_number;
        let mut i: usize = 1;
        while i < self.locations.len()
            invariant
                1 <= i <= self.locations@.len(),
                first_page == self.locations@[0].page_number,
                forall|k: int|
                    0 <= k < i ==> (#[trigger] self.locations@[k]).page_number
                        == first_page,
            decreases self.locations@.len() - i,
        {
            if self.locations[i].page_number != first_page {
                return false;
            }
            i = i + 1;
        }
        true
    }
}

/// Details about a duplicate issue.
#[derive(Debug, Clone)]
pub enum DuplicateDetails {
    /// Duplicate rowids in a table.
    Rowid(Vec<DuplicateEntry<i64>>),
    /// Duplicate keys in an index.
    IndexKey(Vec<DuplicateEntry<IndexKey>>),
}

/// The mathematical shadow of [`DuplicateDetails`]: keys with the ordered
/// locations at which each occurs.
pub enum DuplicateDetailsV {
    /// Duplicate rowids in a table.
    Rowid(Seq<(i64, Seq<RowidLocation>)>),
    /// Duplicate keys in an index, each key as its raw bytes.
    IndexKey(Seq<(Seq<u8>, Seq<RowidLocation>)>),
}

impl View for DuplicateDetails {
    type V = DuplicateDetailsV;

    open spec fn view(&self) -> DuplicateDetailsV {
        match self {
            DuplicateDetails::Rowid(d) => DuplicateDetailsV::Rowid(
                d@.map_values(|e: DuplicateEntry<i64>| (e.key, e.locations@)),
            ),
            DuplicateDetails::IndexKey(d) => DuplicateDetailsV::IndexKey(
                d@.map_values(|e: DuplicateEntry<IndexKey>| (e.key.raw@, e.locations@)),
            ),
        }
    }
}

/// Structured payload of an index-integrity issue: the rowids a table has
/// that its index lacks, and the rowids the index references that the table
/// lacks.
#[derive(Debug, Clone)]
pub struct IntegrityDetails {
    /// Rowids present in the table but missing from the index.
    pub missing: Vec<i64>,
    /// Rowids referenced by the index but absent from the table.
    pub dangling: Vec<i64>,
}

/// The mathematical shadow of [`IntegrityDetails`].
pub struct IntegrityDetailsV {
    /// Rowids present in the table but missing from the index.
    pub missing: Seq<i64>,
    /// Rowids referenced by the index but absent from the table.
    pub dangling: Seq<i64>,
}

impl View for IntegrityDetails {
    type V = IntegrityDetailsV;

    open spec fn view(&self) -> IntegrityDetailsV {
        IntegrityDetailsV { missing: self.missing@, dangling: self.dangling@ }
    }
}

/// The message of a duplicate-rowid issue, stating how many rowids were
/// duplicated.
pub open spec fn rowid_dup_message(count: int) -> Seq<u8> {
    seq![0x46u8, 0x6Fu8, 0x75u8, 0x6Eu8, 0x64u8, 0x20u8] + dec_u64(count) + seq![0x20u8, 0x64u8, 0x75u8, 0x70u8, 0x6Cu8, 0x69u8, 0x63u8, 0x61u8, 0x74u8, 0x65u8, 0x20u8, 0x72u8, 0x6Fu8, 0x77u8, 0x69u8, 0x64u8, 0x28u8, 0x73u8, 0x29u8]
}

/// The message of a duplicate-key issue, stating how many keys were
/// duplicated.
pub open spec fn index_key_dup_message(count: int) -> Seq<u8> {
    seq![0x46u8, 0x6Fu8, 0x75u8, 0x6Eu8, 0x64u8, 0x20u8] + dec_u64(count) + seq![0x20u8, 0x64u8, 0x75u8, 0x70u8, 0x6Cu8, 0x69u8, 0x63u8, 0x61u8, 0x74u8, 0x65u8, 0x20u8, 0x6Bu8, 0x65u8, 0x79u8, 0x28u8, 0x73u8, 0x29u8]
}

/// A validation issue found by a validator.
#[derive(Debug, Clone)]
pub struct ValidationIssue {
    /// Name of the validator that found this issue.
    pub validator: &'static str,
    /// Severity of the issue.
    pub severity: Severity,
    /// Human-readable description, as ASCII bytes.
    pub message: Vec<u8>,
    /// Location where the issue was found.
    pub location: IssueLocation,
    /// Commit index where detected (`None` = base database).
    pub commit_index: Option<u64>,
    /// Additional details for duplicate issues.
    pub duplicate_details: Option<DuplicateDetails>,
    /// Additional details for index-integrity issues.
    pub integrity_details: Option<IntegrityDetails>,
}

/// The mathematical shadow of [`ValidationIssue`].
pub struct ValidationIssueV {
    /// Name of the validator that found this issue.
    pub validator: Seq<char>,
    /// Severity of the issue.
    pub severity: Severity,
    /// Human-readable description bytes.
    pub message: Seq<u8>,
    /// Location where the issue was found.
    pub location: IssueLocationV,
    /// Commit index where detected.
    pub commit_index: Option<u64>,
    /// Additional details for duplicate issues.
    pub duplicate_details: Option<DuplicateDetailsV>,
    /// Additional details for index-integrity issues.
    pub integrity_details: Option<IntegrityDetailsV>,
}

impl View for ValidationIssue {
    type V = ValidationIssueV;

    open spec fn view(&self) -> ValidationIssueV {
        ValidationIssueV {
            validator: self.validator@,
            severity: self.severity,
            message: self.message@,
            location: self.location@,
            commit_index: self.commit_index,
            duplicate_details: match self.duplicate_details {
                Some(ref d) => Some(d@),
                None => None,
            },
            integrity_details: match self.integrity_details {
                Some(ref d) => Some(d@),
                None => None,
            },
        }
    }
}

impl ValidationIssue {
    /// Create a new validation issue with no structured details.
    pub fn new(
        validator: &'static str,
        severity: Severity,
        message: Vec<u8>,
        location: IssueLocation,
        commit_index: Option<u64>,
    ) -> (r: Self)
        ensures
            r.validator == validator,
            r.severity == severity,
            r.message == message,
            r.location == location,
            r.commit_index == commit_index,
            r.duplicate_details is None,
            r.integrity_details is None,
    {
        Self {
            validator,
            severity,
            message,
            location,
            commit_index,
            duplicate_details: None,
            integrity_details: None,
        }
    }

    /// Create a new issue for duplicate rowids in a table.
    pub fn duplicate_rowids(
        validator: &'static str,
        name: Option<Vec<u8>>,
        root_page: u32,
        commit_index: Option<u64>,
        duplicates: Vec<DuplicateEntry<i64>>,
    ) -> (r: Self)
        ensures
            r.validator == validator,
            r.severity == Severity::Error,
            r.location@ == (IssueLocationV::Table {
                name: match name {
                    Some(n) => Some(n@),
                    None => None,
                },
                root_page,
            }),
            r.commit_index == commit_index,
            r.duplicate_details matches Some(DuplicateDetails::Rowid(d)) && d == duplicates,
            r.integrity_details is None,
            r.message@ == rowid_dup_message(duplicates@.len() as int),
    {
        let mut message: Vec<u8> = vec![0x46u8, 0x6Fu8, 0x75u8, 0x6Eu8, 0x64u8, 0x20u8];
        let mut count = format_u64(duplicates.len() as u64);
        message.append(&mut count);
        let suffix: Vec<u8> = vec![0x20u8, 0x64u8, 0x75u8, 0x70u8, 0x6Cu8, 0x69u8, 0x63u8, 0x61u8, 0x74u8, 0x65u8, 0x20u8, 0x72u8, 0x6Fu8, 0x77u8, 0x69u8, 0x64u8, 0x28u8, 0x73u8, 0x29u8];
        push_bytes(&mut message, suffix.as_slice());
        proof {
            assert(message@ =~= rowid_dup_message(duplicates@.len() as int));
        }
        Self {
            validator,
            severity: Severity::Error,
            message,
            location: IssueLocation::Table { name, root_page },
            commit_index,
            duplicate_details: Some(DuplicateDetails::Rowid(duplicates)),
            integrity_details: None,
        }
    }

    /// Create a new issue for duplicate keys in a unique index.
    pub fn duplicate_index_keys(
        validator: &'static str,
        name: Option<Vec<u8>>,
        root_page: u32,
        commit_index: Option<u64>,
        duplicates: Vec<DuplicateEntry<IndexKey>>,
    ) -> (r: Self)
        ensures
            r.validator == validator,
            r.severity == Severity::Error,
            r.location@ == (IssueLocationV::Index {
                name: match name {
                    Some(n) => Some(n@),
                    None => None,
                },
                root_page,
            }),
            r.commit_index == commit_index,
            r.duplicate_details matches Some(DuplicateDetails::IndexKey(d)) && d
                == duplicates,
            r.integrity_details is None,
            r.message@ == index_key_dup_message(duplicates@.len() as int),
    {
        let mut message: Vec<u8> = vec![0x46u8, 0x6Fu8, 0x75u8, 0x6Eu8, 0x64u8, 0x20u8];
        let mut count = format_u64(duplicates.len() as u64);
        message.append(&mut count);
        let suffix: Vec<u8> = vec![0x20u8, 0x64u8, 0x75u8, 0x70u8, 0x6Cu8, 0x69u8, 0x63u8, 0x61u8, 0x74u8, 0x65u8, 0x20u8, 0x6Bu8, 0x65u8, 0x79u8, 0x28u8, 0x73u8, 0x29u8];
        push_bytes(&mut message, suffix.as_slice());
        proof {
            assert(message@ =~= index_key_dup_message(duplicates@.len() as int));
        }
        Self {
            validator,
            severity: Severity::Error,
            message,
            location: IssueLocation::Index { name, root_page },
            commit_index,
            duplicate_details: Some(DuplicateDetails::IndexKey(duplicates)),
            integrity_details: None,
        }
    }

    /// Returns true if this is a duplicate issue.
    pub fn is_duplicate(&self) -> (r: bool)
        ensures
            r == (self.duplicate_details is Some),
    {
        self.duplicate_details.is_some()
    }

    /// Returns the total count of duplicates (for duplicate issues).
    pub fn duplicate_count(&self) -> (r: usize)
        ensures
            r as int == (match self.duplicate_details {
                Some(DuplicateDetails::Rowid(ref d)) => d@.len(),
                Some(DuplicateDetails::IndexKey(ref d)) => d@.len(),
                None => 0,
            }),
    {
        match &self.duplicate_details {
            Some(DuplicateDetails::Rowid(dups)) => dups.len(),
            Some(DuplicateDetails::IndexKey(dups)) => dups.len(),
            None => 0,
        }
    }
}

} // verus!
