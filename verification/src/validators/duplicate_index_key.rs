//! Validator for detecting duplicate keys in unique index B-trees.
//!
//! Duplicate keys in a unique index indicate corruption; duplicates are
//! legal in non-unique indexes, which are skipped.

use vstd::prelude::*;

use crate::btree::cell::IndexKey;
use crate::btree::scanner::BTreeInfoV;
use crate::btree::scanner::RowidLocation;
use crate::btree::scanner::spec_collect_index_keys;
use crate::btree::scanner::spec_discover_btrees;
use crate::error::WalValidatorError;
use crate::validator::duplicate::entries_distinct;
use crate::validator::duplicate::find_duplicates;
use crate::validator::duplicate::lemma_distinct_keys_no_duplicates;
use crate::validator::duplicate::spec_duplicates;
use crate::validator::page_cache::PageCache;
use crate::validators::ValidationContext;
use crate::validators::Validator;
use crate::validators::issue::DuplicateDetailsV;
use crate::validators::issue::DuplicateEntry;
use crate::validators::issue::IssueLocationV;
use crate::validators::issue::Severity;
use crate::validators::issue::index_key_dup_message;
use crate::validators::issue::ValidationIssue;
use crate::validators::issue::ValidationIssueV;

verus! {

/// Validator that detects duplicate keys in unique index B-trees.
pub struct DuplicateIndexKeyValidator;

/// The issue a unique index with duplicate keys produces.
pub open spec fn index_key_issue(
    b: BTreeInfoV,
    ci: Option<u64>,
    dups: Seq<(Seq<u8>, Seq<RowidLocation>)>,
) -> ValidationIssueV {
    ValidationIssueV {
        validator: "duplicate-index-key"@,
        severity: Severity::Error,
        message: index_key_dup_message(dups.len() as int),
        location: IssueLocationV::Index { name: b.name, root_page: b.root_page },
        commit_index: ci,
        duplicate_details: Some(DuplicateDetailsV::IndexKey(dups)),
        integrity_details: None,
    }
}

/// The issues the duplicate-index-key validator reports for the discovered
/// B-trees from position `i` on: one issue per unique index whose
/// collected keys contain a duplicate; a failed collection aborts the
/// pass. Tables and non-unique indexes are skipped.
pub open spec fn index_key_validator_issues(
    cache: PageCache,
    bts: Seq<BTreeInfoV>,
    ci: Option<u64>,
    i: int,
) -> Result<Seq<ValidationIssueV>, WalValidatorError>
    decreases bts.len() - i,
{
    if i < 0 || i >= bts.len() {
        Ok(Seq::empty())
    } else {
        let b = bts[i];
        if b.is_table || !b.is_unique {
            index_key_validator_issues(cache, bts, ci, i + 1)
        } else {
            match spec_collect_index_keys(cache, b.root_page) {
                Err(e) => Err(e),
                Ok(keys) => {
                    let dups = spec_duplicates(keys, 0);
                    match index_key_validator_issues(cache, bts, ci, i + 1) {
                        Err(e) => Err(e),
                        Ok(rest) => {
                            if dups.len() == 0 {
                                Ok(rest)
                            } else {
                                Ok(seq![index_key_issue(b, ci, dups)] + rest)
                            }
                        },
                    }
                },
            }
        }
    }
}

/// What one whole pass of the duplicate-index-key validator reports.
pub open spec fn spec_index_key_validator(cache: PageCache, ci: Option<u64>) -> Result<
    Seq<ValidationIssueV>,
    WalValidatorError,
> {
    match spec_discover_btrees(cache) {
        Err(e) => Err(e),
        Ok(bts) => index_key_validator_issues(cache, bts, ci, 0),
    }
}


/// On a clean state - every unique index's collected keys pairwise
/// distinct - the duplicate-index-key validator reports no issues at all.
pub proof fn lemma_distinct_keys_no_issues(
    cache: PageCache,
    bts: Seq<BTreeInfoV>,
    ci: Option<u64>,
    i: int,
)
    requires
        0 <= i,
        forall|k: int|
            0 <= k < bts.len() && !(#[trigger] bts[k]).is_table && bts[k].is_unique
                ==> {
                &&& spec_collect_index_keys(cache, bts[k].root_page) is Ok
                &&& entries_distinct(
                    spec_collect_index_keys(cache, bts[k].root_page).unwrap(),
                )
            },
    ensures
        index_key_validator_issues(cache, bts, ci, i) == Ok::<
            Seq<ValidationIssueV>,
            WalValidatorError,
        >(Seq::empty()),
    decreases bts.len() - i,
{
    if i < bts.len() {
        lemma_distinct_keys_no_issues(cache, bts, ci, i + 1);
        if !bts[i].is_table && bts[i].is_unique {
            let keys = spec_collect_index_keys(cache, bts[i].root_page).unwrap();
            lemma_distinct_keys_no_duplicates(keys);
        }
    }
}

impl DuplicateIndexKeyValidator {
    /// Create a new duplicate index key validator.
    pub fn new() -> (r: Self) {
        Self
    }
}

impl Validator for DuplicateIndexKeyValidator {
    fn name(&self) -> &'static str {
        "duplicate-index-key"
    }

    fn validate(&mut self, ctx: &ValidationContext) -> Result<
        Vec<ValidationIssue>,
        WalValidatorError,
    > {
        check_duplicate_index_keys(ctx)
    }
}

/// Run one duplicate-index-key pass over the current state.
pub fn check_duplicate_index_keys(ctx: &ValidationContext) -> (r: Result<
    Vec<ValidationIssue>,
    WalValidatorError,
>)
    requires
        ctx.page_cache.wf(),
    ensures
        match r {
            Ok(v) => spec_index_key_validator(ctx.page_cache, ctx.commit_index) == Ok::<
                Seq<ValidationIssueV>,
                WalValidatorError,
            >(v@.map_values(|i: ValidationIssue| i@)),
            Err(e) => spec_index_key_validator(ctx.page_cache, ctx.commit_index)
                == Err::<Seq<ValidationIssueV>, WalValidatorError>(e),
        },
{
    let ghost cache = ctx.page_cache;
    let commit_index = ctx.commit_index;
    let scanner = ctx.scanner();

    let btrees = match scanner.discover_btrees() {
        Ok(b) => b,
        Err(e) => {
            return Err(e);
        },
    };
    let ghost bts = btrees@.map_values(|b: crate::btree::scanner::BTreeInfo| b@);

    let mut issues: Vec<ValidationIssue> = Vec::new();
    proof {
        assert(issues@.map_values(|i: ValidationIssue| i@) =~= Seq::<
            ValidationIssueV,
        >::empty());
        match index_key_validator_issues(cache, bts, commit_index, 0) {
            Ok(all) => {
                assert(Seq::<ValidationIssueV>::empty() + all =~= all);
            },
            Err(_) => {},
        }
    }
    let mut i: usize = 0;
    while i < btrees.len()
        invariant
            cache == ctx.page_cache,
            cache.wf(),
            scanner.spec_cache() == cache,
            commit_index == ctx.commit_index,
            bts == btrees@.map_values(|b: crate::btree::scanner::BTreeInfo| b@),
            spec_discover_btrees(cache) == Ok::<
                Seq<BTreeInfoV>,
                WalValidatorError,
            >(bts),
            i <= btrees@.len(),
            match index_key_validator_issues(cache, bts, commit_index, i as int) {
                Ok(rest) => index_key_validator_issues(cache, bts, commit_index, 0)
                    == Ok::<Seq<ValidationIssueV>, WalValidatorError>(
                    issues@.map_values(|x: ValidationIssue| x@) + rest,
                ),
                Err(e) => index_key_validator_issues(cache, bts, commit_index, 0)
                    == Err::<Seq<ValidationIssueV>, WalValidatorError>(e),
            },
        decreases btrees@.len() - i,
    {
        let ghost issuesv = issues@.map_values(|x: ValidationIssue| x@);
        let btree = &btrees[i];
        proof {
            assert(bts[i as int] == btree@);
        }
        if !btree.is_table && btree.is_unique {
            let keys = match scanner.collect_index_keys(btree.root_page) {
                Ok(ks) => ks,
                Err(e) => {
                    proof {
                        assert(index_key_validator_issues(
                            cache,
                            bts,
                            commit_index,
                            i as int,
                        ) == Err::<Seq<ValidationIssueV>, WalValidatorError>(e));
                    }
                    return Err(e);
                },
            };
            let duplicates = find_duplicates(&keys);
            proof {
                assert(duplicates@.map_values(
                    |d: DuplicateEntry<IndexKey>| (d.key.raw@, d.locations@),
                ) == spec_duplicates(
                    keys@.map_values(|e: (IndexKey, RowidLocation)| (e.0.raw@, e.1)),
                    0,
                ));
            }
            if duplicates.len() > 0 {
                let name = match &btree.name {
                    Some(n) => Some(vstd::slice::slice_to_vec(n.as_slice())),
                    None => None,
                };
                let issue = ValidationIssue::duplicate_index_keys(
                    "duplicate-index-key",
                    name,
                    btree.root_page,
                    commit_index,
                    duplicates,
                );
                let ghost iv = issue@;
                proof {
                    assert(iv == index_key_issue(
                        bts[i as int],
                        commit_index,
                        spec_duplicates(
                            keys@.map_values(
                                |e: (IndexKey, RowidLocation)| (e.0.raw@, e.1),
                            ),
                            0,
                        ),
                    ));
                }
                issues.push(issue);
                proof {
                    assert(issues@.map_values(|x: ValidationIssue| x@) =~= issuesv.push(
                        iv,
                    ));
                    match index_key_validator_issues(cache, bts, commit_index, i + 1) {
                        Ok(rest) => {
                            assert((issuesv + (seq![iv] + rest)) =~= (issuesv.push(iv)
                                + rest));
                        },
                        Err(_) => {},
                    }
                }
            }
        }
        i = i + 1;
    }
    proof {
        assert(index_key_validator_issues(cache, bts, commit_index, btrees@.len() as int)
            == Ok::<Seq<ValidationIssueV>, WalValidatorError>(Seq::empty()));
        let issuesv = issues@.map_values(|x: ValidationIssue| x@);
        assert(issuesv + Seq::<ValidationIssueV>::empty() =~= issuesv);
    }
    Ok(issues)
}

} // verus!
