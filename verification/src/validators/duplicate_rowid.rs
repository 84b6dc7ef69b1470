//! Validator for detecting duplicate rowids in table B-trees.
//!
//! Duplicate rowids indicate B-tree corruption: each rowid should be
//! unique within a table.

use vstd::prelude::*;

use crate::btree::scanner::BTreeInfoV;
use crate::btree::scanner::RowidLocation;
use crate::btree::scanner::spec_collect_table_rowids;
use crate::btree::scanner::spec_discover_btrees;
use crate::error::WalValidatorError;
use crate::validator::duplicate::entries_distinct;
use crate::validator::duplicate::lemma_distinct_keys_no_duplicates;
use crate::validator::duplicate::occ_locs;
use crate::validator::duplicate::spec_duplicates;
use crate::validator::page_cache::PageCache;
use crate::validators::ValidationContext;
use crate::validators::Validator;
use crate::validators::issue::DuplicateDetailsV;
use crate::validators::issue::DuplicateEntry;
use crate::validators::issue::IssueLocationV;
use crate::validators::issue::Severity;
use crate::validators::issue::rowid_dup_message;
use crate::validators::issue::ValidationIssue;
use crate::validators::issue::ValidationIssueV;

verus! {

/// Validator that detects duplicate rowids in table B-trees.
pub struct DuplicateRowidValidator;

/// The issue a table with duplicate rowids produces.
pub open spec fn rowid_issue(
    b: BTreeInfoV,
    ci: Option<u64>,
    dups: Seq<(i64, Seq<RowidLocation>)>,
) -> ValidationIssueV {
    ValidationIssueV {
        validator: "duplicate-rowid"@,
        severity: Severity::Error,
        message: rowid_dup_message(dups.len() as int),
        location: IssueLocationV::Table { name: b.name, root_page: b.root_page },
        commit_index: ci,
        duplicate_details: Some(DuplicateDetailsV::Rowid(dups)),
        integrity_details: None,
    }
}

/// The issues the duplicate-rowid validator reports for the discovered
/// B-trees from position `i` on: one issue per table whose collected
/// rowids contain a duplicate; a failed collection aborts the pass.
pub open spec fn rowid_validator_issues(
    cache: PageCache,
    bts: Seq<BTreeInfoV>,
    ci: Option<u64>,
    i: int,
) -> Result<Seq<ValidationIssueV>, WalValidatorError>
    decreases bts.len() - i,
{
    if i < 0 || i >= bts.len() {
        Ok(Seq::empty())
    } else {
        let b = bts[i];
        if !b.is_table {
            rowid_validator_issues(cache, bts, ci, i + 1)
        } else {
            match spec_collect_table_rowids(cache, b.root_page) {
                Err(e) => Err(e),
                Ok(rows) => {
                    let dups = spec_duplicates(rows, 0);
                    match rowid_validator_issues(cache, bts, ci, i + 1) {
                        Err(e) => Err(e),
                        Ok(rest) => {
                            if dups.len() == 0 {
                                Ok(rest)
                            } else {
                                Ok(seq![rowid_issue(b, ci, dups)] + rest)
                            }
                        },
                    }
                },
            }
        }
    }
}

/// What one whole pass of the duplicate-rowid validator reports.
pub open spec fn spec_rowid_validator(cache: PageCache, ci: Option<u64>) -> Result<
    Seq<ValidationIssueV>,
    WalValidatorError,
> {
    match spec_discover_btrees(cache) {
        Err(e) => Err(e),
        Ok(bts) => rowid_validator_issues(cache, bts, ci, 0),
    }
}


/// On a clean state - every table's collected rowids pairwise distinct -
/// the duplicate-rowid validator reports no issues at all.
pub proof fn lemma_distinct_rowids_no_issues(
    cache: PageCache,
    bts: Seq<BTreeInfoV>,
    ci: Option<u64>,
    i: int,
)
    requires
        0 <= i,
        forall|k: int|
            0 <= k < bts.len() && (#[trigger] bts[k]).is_table ==> {
                &&& spec_collect_table_rowids(cache, bts[k].root_page) is Ok
                &&& entries_distinct(
                    spec_collect_table_rowids(cache, bts[k].root_page).unwrap(),
                )
            },
    ensures
        rowid_validator_issues(cache, bts, ci, i) == Ok::<
            Seq<ValidationIssueV>,
            WalValidatorError,
        >(Seq::empty()),
    decreases bts.len() - i,
{
    if i < bts.len() {
        lemma_distinct_rowids_no_issues(cache, bts, ci, i + 1);
        if bts[i].is_table {
            let rows = spec_collect_table_rowids(cache, bts[i].root_page).unwrap();
            lemma_distinct_keys_no_duplicates(rows);
        }
    }
}

impl DuplicateRowidValidator {
    /// Create a new duplicate rowid validator.
    pub fn new() -> (r: Self) {
        Self
    }
}

impl Validator for DuplicateRowidValidator {
    fn name(&self) -> &'static str {
        "duplicate-rowid"
    }

    fn validate(&mut self, ctx: &ValidationContext) -> Result<
        Vec<ValidationIssue>,
        WalValidatorError,
    > {
        check_duplicate_rowids(ctx)
    }
}

/// Run one duplicate-rowid pass over the current state.
pub fn check_duplicate_rowids(ctx: &ValidationContext) -> (r: Result<
    Vec<ValidationIssue>,
    WalValidatorError,
>)
    requires
        ctx.page_cache.wf(),
    ensures
        match r {
            Ok(v) => spec_rowid_validator(ctx.page_cache, ctx.commit_index) == Ok::<
                Seq<ValidationIssueV>,
                WalValidatorError,
            >(v@.map_values(|i: ValidationIssue| i@)),
            Err(e) => spec_rowid_validator(ctx.page_cache, ctx.commit_index) == Err::<
                Seq<ValidationIssueV>,
                WalValidatorError,
            >(e),
        },
{
    let ghost cache = ctx.page_cache;
    let commit_index = ctx.commit_index;
    let scanner = ctx.scanner();

    let btrees = match scanner.discover_btrees() {
        Ok(b) => b,
        Err(e) => {
            return Err(e);
        },
    };
    let ghost bts = btrees@.map_values(|b: crate::btree::scanner::BTreeInfo| b@);

    let mut issues: Vec<ValidationIssue> = Vec::new();
    proof {
        assert(issues@.map_values(|i: ValidationIssue| i@) =~= Seq::<
            ValidationIssueV,
        >::empty());
        assert(Seq::<ValidationIssueV>::empty() + (match rowid_validator_issues(
            cache,
            bts,
            commit_index,
            0,
        ) {
            Ok(s) => s,
            Err(_) => Seq::empty(),
        }) =~= (match rowid_validator_issues(cache, bts, commit_index, 0) {
            Ok(s) => s,
            Err(_) => Seq::empty(),
        }));
    }
    let mut i: usize = 0;
    while i < btrees.len()
        invariant
            cache == ctx.page_cache,
            cache.wf(),
            scanner.spec_cache() == cache,
            commit_index == ctx.commit_index,
            bts == btrees@.map_values(|b: crate::btree::scanner::BTreeInfo| b@),
            spec_discover_btrees(cache) == Ok::<
                Seq<BTreeInfoV>,
                WalValidatorError,
            >(bts),
            i <= btrees@.len(),
            match rowid_validator_issues(cache, bts, commit_index, i as int) {
                Ok(rest) => rowid_validator_issues(cache, bts, commit_index, 0) == Ok::<
                    Seq<ValidationIssueV>,
                    WalValidatorError,
                >(issues@.map_values(|x: ValidationIssue| x@) + rest),
                Err(e) => rowid_validator_issues(cache, bts, commit_index, 0) == Err::<
                    Seq<ValidationIssueV>,
                    WalValidatorError,
                >(e),
            },
        decreases btrees@.len() - i,
    {
        let ghost issuesv = issues@.map_values(|x: ValidationIssue| x@);
        let btree = &btrees[i];
        proof {
            assert(bts[i as int] == btree@);
        }
        if btree.is_table {
            let rowids = match scanner.collect_table_rowids(btree.root_page) {
                Ok(rws) => rws,
                Err(e) => {
                    proof {
                        assert(rowid_validator_issues(cache, bts, commit_index, i as int)
                            == Err::<Seq<ValidationIssueV>, WalValidatorError>(e));
                    }
                    return Err(e);
                },
            };
            let duplicates = find_duplicates(&rowids);
            proof {
                assert(duplicates@.map_values(
                    |d: DuplicateEntry<i64>| (d.key, d.locations@),
                ) == spec_duplicates(rowids@, 0));
            }
            if duplicates.len() > 0 {
                let name = match &btree.name {
                    Some(n) => Some(vstd::slice::slice_to_vec(n.as_slice())),
                    None => None,
                };
                let issue = ValidationIssue::duplicate_rowids(
                    "duplicate-rowid",
                    name,
                    btree.root_page,
                    commit_index,
                    duplicates,
                );
                let ghost iv = issue@;
                proof {
                    assert(iv == rowid_issue(bts[i as int], commit_index, spec_duplicates(
                        rowids@,
                        0,
                    )));
                }
                issues.push(issue);
                proof {
                    assert(issues@.map_values(|x: ValidationIssue| x@) =~= issuesv.push(
                        iv,
                    ));
                    match rowid_validator_issues(cache, bts, commit_index, i + 1) {
                        Ok(rest) => {
                            assert((issuesv + (seq![iv] + rest)) =~= (issuesv.push(iv)
                                + rest));
                        },
                        Err(_) => {},
                    }
                }
            }
        }
        i = i + 1;
    }
    proof {
        assert(rowid_validator_issues(cache, bts, commit_index, btrees@.len() as int)
            == Ok::<Seq<ValidationIssueV>, WalValidatorError>(Seq::empty()));
        let issuesv = issues@.map_values(|x: ValidationIssue| x@);
        assert(issuesv + Seq::<ValidationIssueV>::empty() =~= issuesv);
    }
    Ok(issues)
}

/// Group rowid entries by value and keep the rowids that occur more than
/// once, each with every location it occupies.
pub fn find_duplicates(entries: &Vec<(i64, RowidLocation)>) -> (r: Vec<
    DuplicateEntry<i64>,
>)
    ensures
        r@.map_values(|d: DuplicateEntry<i64>| (d.key, d.locations@)) == spec_duplicates(
            entries@,
            0,
        ),
{
    let ghost ev = entries@;
    let mut out: Vec<DuplicateEntry<i64>> = Vec::new();
    let n = entries.len();
    proof {
        assert(out@.map_values(|d: DuplicateEntry<i64>| (d.key, d.locations@)) =~= Seq::<
            (i64, Seq<RowidLocation>),
        >::empty());
        assert(Seq::<(i64, Seq<RowidLocation>)>::empty() + spec_duplicates(ev, 0)
            =~= spec_duplicates(ev, 0));
    }
    let mut idx: usize = 0;
    while idx < n
        invariant
            n == entries@.len(),
            ev == entries@,
            idx <= n,
            spec_duplicates(ev, 0) == out@.map_values(
                |d: DuplicateEntry<i64>| (d.key, d.locations@),
            ) + spec_duplicates(ev, idx as int),
        decreases n - idx,
    {
        let ghost outv = out@.map_values(|d: DuplicateEntry<i64>| (d.key, d.locations@));
        let key = entries[idx].0;

        // Count earlier occurrences of this rowid: only a first occurrence
        // opens a group.
        let mut cnt: usize = 0;
        let mut m: usize = 0;
        proof {
            assert(ev.take(0) =~= Seq::<(i64, RowidLocation)>::empty());
        }
        while m < idx
            invariant
                n == entries@.len(),
                ev == entries@,
                idx < n,
                m <= idx,
                cnt <= m,
                key == ev[idx as int].0,
                cnt == occ_locs(ev.take(m as int), key).len(),
            decreases idx - m,
        {
            proof {
                assert(ev.take(m + 1).drop_last() =~= ev.take(m as int));
                assert(ev.take(m + 1).last() == ev[m as int]);
            }
            if entries[m].0 == key {
                cnt = cnt + 1;
            }
            m = m + 1;
        }

        if cnt == 0 {
            // First occurrence: gather every location of this rowid.
            let mut locs: Vec<RowidLocation> = Vec::new();
            let mut j: usize = 0;
            proof {
                assert(locs@ =~= occ_locs(ev.take(0), key));
            }
            while j < n
                invariant
                    n == entries@.len(),
                    ev == entries@,
                    j <= n,
                    idx < n,
                    key == ev[idx as int].0,
                    locs@ == occ_locs(ev.take(j as int), key),
                decreases n - j,
            {
                proof {
                    assert(ev.take(j + 1).drop_last() =~= ev.take(j as int));
                    assert(ev.take(j + 1).last() == ev[j as int]);
                }
                if entries[j].0 == key {
                    locs.push(entries[j].1);
                    proof {
                        assert(locs@ =~= occ_locs(ev.take(j + 1), key));
                    }
                }
                j = j + 1;
            }
            proof {
                assert(ev.take(n as int) =~= ev);
                assert(locs@ == occ_locs(ev, key));
            }

            if locs.len() >= 2 {
                let entry = DuplicateEntry { key, locations: locs };
                let ghost entv = (entry.key, entry.locations@);
                out.push(entry);
                proof {
                    let outv2 = out@.map_values(
                        |d: DuplicateEntry<i64>| (d.key, d.locations@),
                    );
                    assert(outv2 =~= outv.push(entv));
                    assert(spec_duplicates(ev, idx as int) == seq![
                        (key, occ_locs(ev, key)),
                    ] + spec_duplicates(ev, idx + 1));
                    assert((outv + seq![(key, occ_locs(ev, key))]) + spec_duplicates(
                        ev,
                        idx + 1,
                    ) =~= outv + (seq![(key, occ_locs(ev, key))] + spec_duplicates(
                        ev,
                        idx + 1,
                    )));
                    assert(outv.push(entv) =~= outv + seq![(key, occ_locs(ev, key))]);
                }
            } else {
                proof {
                    assert(spec_duplicates(ev, idx as int) == spec_duplicates(
                        ev,
                        idx + 1,
                    ));
                }
            }
        } else {
            proof {
                assert(occ_locs(ev.take(idx as int), key).len() > 0);
                assert(spec_duplicates(ev, idx as int) == spec_duplicates(ev, idx + 1));
            }
        }
        idx = idx + 1;
    }
    proof {
        assert(spec_duplicates(ev, n as int) =~= Seq::<(i64, Seq<RowidLocation>)>::empty());
        let outv = out@.map_values(|d: DuplicateEntry<i64>| (d.key, d.locations@));
        assert(outv + Seq::<(i64, Seq<RowidLocation>)>::empty() =~= outv);
    }
    out
}

} // verus!
