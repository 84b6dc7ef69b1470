//! Validator framework: context, configuration, the validator trait, and
//! the concrete validators.
//!
//! Each validator is a self-contained module implementing the `Validator`
//! trait; the driver instantiates the default set once per run and invokes
//! each at the base state and after each commit.

pub mod duplicate_index_key;
pub mod duplicate_rowid;
pub mod index_integrity;
pub mod issue;

pub use duplicate_index_key::DuplicateIndexKeyValidator;
pub use duplicate_rowid::DuplicateRowidValidator;
pub use index_integrity::IndexIntegrityValidator;
pub use issue::DuplicateDetails;
pub use issue::DuplicateEntry;
pub use issue::IssueLocation;
pub use issue::Severity;
pub use issue::ValidationIssue;

use vstd::prelude::*;

use crate::btree::scanner::BTreeScanner;
use crate::error::WalValidatorError;
use crate::validator::page_cache::PageCache;
use crate::validators::duplicate_index_key::check_duplicate_index_keys;
use crate::validators::duplicate_index_key::spec_index_key_validator;
use crate::validators::duplicate_rowid::check_duplicate_rowids;
use crate::validators::duplicate_rowid::spec_rowid_validator;
use crate::validators::index_integrity::check_index_integrity;
use crate::validators::index_integrity::spec_integrity_validator;
use crate::validators::issue::ValidationIssueV;

verus! {

/// Configuration for validators.
#[derive(Debug, Clone, Copy)]
pub struct ValidatorConfig {
    /// Whether to check index B-trees for duplicate keys.
    pub check_indexes: bool,
}

impl Default for ValidatorConfig {
    /// The default configuration leaves index checking off.
    fn default() -> (r: Self)
        ensures
            !r.check_indexes,
    {
        ValidatorConfig { check_indexes: false }
    }
}

/// Context provided to validators during validation: the current database
/// state (base or after a log commit) and the configuration.
pub struct ValidationContext {
    /// Page cache for reading pages (base database + log overlay).
    pub page_cache: PageCache,
    /// Current commit index (`None` = base database state).
    pub commit_index: Option<u64>,
    /// Validator configuration.
    pub config: ValidatorConfig,
}

impl ValidationContext {
    /// Create a new validation context.
    pub fn new(page_cache: PageCache, commit_index: Option<u64>, config: ValidatorConfig)
        -> (r: Self)
        ensures
            r.page_cache == page_cache,
            r.commit_index == commit_index,
            r.config == config,
    {
        Self { page_cache, commit_index, config }
    }

    /// Create a B-tree scanner for this context.
    pub fn scanner(&self) -> (r: BTreeScanner<'_>)
        ensures
            r.spec_cache() == self.page_cache,
    {
        BTreeScanner::new(&self.page_cache)
    }
}

/// Trait for implementing validators. Each validator checks one aspect of
/// the database state and reports the issues it finds; the exact meaning
/// of each concrete validator's report is stated on its own checking
/// function.
pub trait Validator {
    /// Returns the unique name of this validator.
    fn name(&self) -> &'static str;

    /// Validate the current database state and return any issues found.
    fn validate(&mut self, ctx: &ValidationContext) -> Result<
        Vec<ValidationIssue>,
        WalValidatorError,
    >
        requires
            ctx.page_cache.wf(),
    ;

    /// Returns whether this validator is enabled for the given
    /// configuration.
    fn is_enabled(&self, config: &ValidatorConfig) -> bool {
        true
    }
}

/// The default validator set, as a closed enumeration the driver can
/// dispatch on with a stated contract.
pub enum ValidatorKind {
    /// Checks table B-trees for duplicate rowids.
    DuplicateRowid(DuplicateRowidValidator),
    /// Checks unique-index B-trees for duplicate keys.
    DuplicateIndexKey(DuplicateIndexKeyValidator),
    /// Cross-checks each table's rowid set against its indexes.
    IndexIntegrity(IndexIntegrityValidator),
}

/// What one pass of the given validator reports over the given state.
pub open spec fn spec_kind_issues(
    k: ValidatorKind,
    cache: PageCache,
    ci: Option<u64>,
) -> Result<Seq<ValidationIssueV>, WalValidatorError> {
    match k {
        ValidatorKind::DuplicateRowid(_) => spec_rowid_validator(cache, ci),
        ValidatorKind::DuplicateIndexKey(_) => spec_index_key_validator(cache, ci),
        ValidatorKind::IndexIntegrity(_) => spec_integrity_validator(cache, ci),
    }
}

impl ValidatorKind {
    /// Run one pass of this validator over the context's current state.
    pub fn run(&self, ctx: &ValidationContext) -> (r: Result<
        Vec<ValidationIssue>,
        WalValidatorError,
    >)
        requires
            ctx.page_cache.wf(),
        ensures
            match r {
                Ok(v) => spec_kind_issues(*self, ctx.page_cache, ctx.commit_index)
                    == Ok::<Seq<ValidationIssueV>, WalValidatorError>(
                    v@.map_values(|i: ValidationIssue| i@),
                ),
                Err(e) => spec_kind_issues(*self, ctx.page_cache, ctx.commit_index)
                    == Err::<Seq<ValidationIssueV>, WalValidatorError>(e),
            },
    {
        match self {
            ValidatorKind::DuplicateRowid(_) => check_duplicate_rowids(ctx),
            ValidatorKind::DuplicateIndexKey(_) => check_duplicate_index_keys(ctx),
            ValidatorKind::IndexIntegrity(_) => check_index_integrity(ctx),
        }
    }
}

/// Returns the default set of validators, in the order they run: the
/// duplicate-rowid check, the duplicate-unique-index-key check, and the
/// table-index cross-check.
pub fn default_validators() -> (r: Vec<ValidatorKind>)
    ensures
        r@.len() == 3,
        r@[0] is DuplicateRowid,
        r@[1] is DuplicateIndexKey,
        r@[2] is IndexIntegrity,
{
    let mut v: Vec<ValidatorKind> = Vec::new();
    v.push(ValidatorKind::DuplicateRowid(DuplicateRowidValidator::new()));
    v.push(ValidatorKind::DuplicateIndexKey(DuplicateIndexKeyValidator::new()));
    v.push(ValidatorKind::IndexIntegrity(IndexIntegrityValidator::new()));
    v
}

/// Returns all enabled validators for the given configuration; the default
/// validators are enabled under every configuration.
pub fn enabled_validators(config: &ValidatorConfig) -> (r: Vec<ValidatorKind>)
    ensures
        r@.len() == 3,
        r@[0] is DuplicateRowid,
        r@[1] is DuplicateIndexKey,
        r@[2] is IndexIntegrity,
{
    default_validators()
}

} // verus!
