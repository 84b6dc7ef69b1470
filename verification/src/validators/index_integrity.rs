//! Validator for checking index integrity against tables.
//!
//! An index is checked only when it is reliably checkable: partial indexes
//! (a WHERE clause in their SQL) and expression indexes (doubled opening
//! parentheses or one of a fixed list of function names) are skipped, since
//! they legitimately cover a subset or transformation of the table's rows.
//! For the rest, the table's rowid set must equal the set of rowids the
//! index references; rows only in the table are "missing" from the index,
//! rowids only in the index are "dangling".

use vstd::prelude::*;
use vstd::slice::slice_to_vec;

use crate::btree::scanner::BTreeInfo;
use crate::btree::scanner::BTreeInfoV;
use crate::btree::scanner::RowidLocation;
use crate::btree::scanner::bytes_equal;
use crate::btree::scanner::contains_seq;
use crate::btree::scanner::spec_collect_index_rowids;
use crate::btree::scanner::spec_collect_table_rowids;
use crate::btree::scanner::spec_discover_btrees;
use crate::btree::scanner::upper_contains;
use crate::btree::scanner::upper_seq;
use crate::error::WalValidatorError;
use crate::text::dec_u64;
use crate::text::format_u64;
use crate::text::format_i64_list;
use crate::text::list_bytes;
use crate::text::push_bytes;
use crate::text::sample_values;
use crate::text::spec_sample;
use crate::validator::page_cache::PageCache;
use crate::validators::ValidationContext;
use crate::validators::Validator;
use crate::validators::issue::IntegrityDetails;
use crate::validators::issue::IntegrityDetailsV;
use crate::validators::issue::IssueLocationV;
use crate::validators::issue::Severity;
use crate::validators::issue::ValidationIssue;
use crate::validators::issue::ValidationIssueV;
use crate::validators::issue::IssueLocation;

verus! {

/// Validator that checks index integrity against tables.
pub struct IndexIntegrityValidator;

/// The byte pattern `WHERE` (with surrounding spaces) looked for in an index's SQL.
pub open spec fn pat_where() -> Seq<u8> {
    seq![0x20u8, 0x57u8, 0x48u8, 0x45u8, 0x52u8, 0x45u8, 0x20u8]
}

/// The byte pattern `((` looked for in an index's SQL.
pub open spec fn pat_double_paren() -> Seq<u8> {
    seq![0x28u8, 0x28u8]
}

/// The byte pattern `LOWER(` looked for in an index's SQL.
pub open spec fn pat_lower() -> Seq<u8> {
    seq![0x4Cu8, 0x4Fu8, 0x57u8, 0x45u8, 0x52u8, 0x28u8]
}

/// The byte pattern `UPPER(` looked for in an index's SQL.
pub open spec fn pat_upper() -> Seq<u8> {
    seq![0x55u8, 0x50u8, 0x50u8, 0x45u8, 0x52u8, 0x28u8]
}

/// The byte pattern `SUBSTR(` looked for in an index's SQL.
pub open spec fn pat_substr() -> Seq<u8> {
    seq![0x53u8, 0x55u8, 0x42u8, 0x53u8, 0x54u8, 0x52u8, 0x28u8]
}

/// The byte pattern `LENGTH(` looked for in an index's SQL.
pub open spec fn pat_length() -> Seq<u8> {
    seq![0x4Cu8, 0x45u8, 0x4Eu8, 0x47u8, 0x54u8, 0x48u8, 0x28u8]
}

/// The byte pattern `ABS(` looked for in an index's SQL.
pub open spec fn pat_abs() -> Seq<u8> {
    seq![0x41u8, 0x42u8, 0x53u8, 0x28u8]
}

/// The byte pattern `COALESCE(` looked for in an index's SQL.
pub open spec fn pat_coalesce() -> Seq<u8> {
    seq![0x43u8, 0x4Fu8, 0x41u8, 0x4Cu8, 0x45u8, 0x53u8, 0x43u8, 0x45u8, 0x28u8]
}

/// The byte pattern `IFNULL(` looked for in an index's SQL.
pub open spec fn pat_ifnull() -> Seq<u8> {
    seq![0x49u8, 0x46u8, 0x4Eu8, 0x55u8, 0x4Cu8, 0x4Cu8, 0x28u8]
}

/// The byte pattern `NULLIF(` looked for in an index's SQL.
pub open spec fn pat_nullif() -> Seq<u8> {
    seq![0x4Eu8, 0x55u8, 0x4Cu8, 0x4Cu8, 0x49u8, 0x46u8, 0x28u8]
}

/// The byte pattern `TYPEOF(` looked for in an index's SQL.
pub open spec fn pat_typeof() -> Seq<u8> {
    seq![0x54u8, 0x59u8, 0x50u8, 0x45u8, 0x4Fu8, 0x46u8, 0x28u8]
}

/// The byte pattern `CAST(` looked for in an index's SQL.
pub open spec fn pat_cast() -> Seq<u8> {
    seq![0x43u8, 0x41u8, 0x53u8, 0x54u8, 0x28u8]
}

/// The byte pattern `DATE(` looked for in an index's SQL.
pub open spec fn pat_date() -> Seq<u8> {
    seq![0x44u8, 0x41u8, 0x54u8, 0x45u8, 0x28u8]
}

/// The byte pattern `TIME(` looked for in an index's SQL.
pub open spec fn pat_time() -> Seq<u8> {
    seq![0x54u8, 0x49u8, 0x4Du8, 0x45u8, 0x28u8]
}

/// The byte pattern `DATETIME(` looked for in an index's SQL.
pub open spec fn pat_datetime() -> Seq<u8> {
    seq![0x44u8, 0x41u8, 0x54u8, 0x45u8, 0x54u8, 0x49u8, 0x4Du8, 0x45u8, 0x28u8]
}

/// The byte pattern `JULIANDAY(` looked for in an index's SQL.
pub open spec fn pat_julianday() -> Seq<u8> {
    seq![0x4Au8, 0x55u8, 0x4Cu8, 0x49u8, 0x41u8, 0x4Eu8, 0x44u8, 0x41u8, 0x59u8, 0x28u8]
}

/// The byte pattern `JSON_EXTRACT(` looked for in an index's SQL.
pub open spec fn pat_json_extract() -> Seq<u8> {
    seq![0x4Au8, 0x53u8, 0x4Fu8, 0x4Eu8, 0x5Fu8, 0x45u8, 0x58u8, 0x54u8, 0x52u8, 0x41u8, 0x43u8, 0x54u8, 0x28u8]
}

/// The byte pattern `JSON(` looked for in an index's SQL.
pub open spec fn pat_json() -> Seq<u8> {
    seq![0x4Au8, 0x53u8, 0x4Fu8, 0x4Eu8, 0x28u8]
}

/// An index is skipped when its SQL marks it partial or expression-based.
/// Automatic indexes carry no SQL and are checked.
pub open spec fn spec_should_skip(sql: Option<Seq<u8>>) -> bool {
    match sql {
        None => false,
        Some(s) => {
            let u = upper_seq(s);
            contains_seq(u, pat_where()) || contains_seq(u, pat_double_paren()) || contains_seq(u, pat_lower()) || contains_seq(u, pat_upper()) || contains_seq(u, pat_substr()) || contains_seq(u, pat_length()) || contains_seq(u, pat_abs()) || contains_seq(u, pat_coalesce()) || contains_seq(u, pat_ifnull()) || contains_seq(u, pat_nullif()) || contains_seq(u, pat_typeof()) || contains_seq(u, pat_cast()) || contains_seq(u, pat_date()) || contains_seq(u, pat_time()) || contains_seq(u, pat_datetime()) || contains_seq(u, pat_julianday()) || contains_seq(u, pat_json_extract()) || contains_seq(u, pat_json())
        },
    }
}

/// The root page of the last table in `bts` (from position `i` on) whose
/// name is `name`, mirroring a name-keyed map filled in catalog order.
pub open spec fn table_root_for(bts: Seq<BTreeInfoV>, name: Seq<u8>, i: int) -> Option<
    u32,
>
    decreases bts.len() - i,
{
    if i < 0 || i >= bts.len() {
        None
    } else {
        let rest = table_root_for(bts, name, i + 1);
        if rest is Some {
            rest
        } else if bts[i].is_table && bts[i].name == Some(name) {
            Some(bts[i].root_page)
        } else {
            None
        }
    }
}

/// `v` occurs somewhere in `s`.
pub open spec fn contains_val(s: Seq<i64>, v: i64) -> bool {
    exists|k: int| 0 <= k < s.len() && #[trigger] s[k] == v
}

/// The distinct values of `a` (in order of first occurrence) that do not
/// occur in `b`, from position `i` on.
pub open spec fn spec_diff(a: Seq<i64>, b: Seq<i64>, i: int) -> Seq<i64>
    decreases a.len() - i,
{
    if i < 0 || i >= a.len() {
        Seq::empty()
    } else {
        let rest = spec_diff(a, b, i + 1);
        if !contains_val(b, a[i]) && !contains_val(a.take(i), a[i]) {
            seq![a[i]] + rest
        } else {
            rest
        }
    }
}


/// When every value of `a` also occurs in `b`, the difference is empty
/// from any position.
proof fn lemma_diff_empty_when_subset(a: Seq<i64>, b: Seq<i64>, i: int)
    requires
        0 <= i,
        forall|v: i64| contains_val(a, v) ==> contains_val(b, v),
    ensures
        spec_diff(a, b, i).len() == 0,
    decreases a.len() - i,
{
    if i < a.len() {
        assert(contains_val(a, a[i]));
        lemma_diff_empty_when_subset(a, b, i + 1);
    }
}

/// A value of `a` missing from `b` appears in the difference, provided it
/// has not already occurred before position `i`.
proof fn lemma_diff_catches(a: Seq<i64>, b: Seq<i64>, v: i64, i: int)
    requires
        0 <= i <= a.len(),
        contains_val(a.skip(i), v),
        !contains_val(a.take(i), v),
        !contains_val(b, v),
    ensures
        contains_val(spec_diff(a, b, i), v),
    decreases a.len() - i,
{
    let k = choose|k: int| 0 <= k < a.skip(i).len() && #[trigger] a.skip(i)[k] == v;
    assert(a.skip(i).len() == a.len() - i);
    assert(i < a.len());
    assert(a.skip(i)[k] == a[i + k]);
    assert(a[i + k] == v);
    if a[i] == v {
        assert(spec_diff(a, b, i) == seq![v] + spec_diff(a, b, i + 1));
        assert(spec_diff(a, b, i)[0] == v);
    } else {
        assert(!contains_val(a.take(i + 1), v)) by {
            if contains_val(a.take(i + 1), v) {
                let m = choose|m: int|
                    0 <= m < a.take(i + 1).len() && #[trigger] a.take(i + 1)[m] == v;
                assert(a.take(i as int)[m] == v || m == i);
            }
        };
        assert(contains_val(a.skip(i + 1), v)) by {
            assert(a.skip(i + 1)[i + k - (i + 1)] == v);
        };
        lemma_diff_catches(a, b, v, i + 1);
        let rest = spec_diff(a, b, i + 1);
        let m = choose|m: int| 0 <= m < rest.len() && #[trigger] rest[m] == v;
        if spec_diff(a, b, i).len() > rest.len() {
            assert(spec_diff(a, b, i)[m + 1] == v);
        } else {
            assert(spec_diff(a, b, i) == rest);
            assert(spec_diff(a, b, i)[m] == v);
        }
    }
}

/// The difference of `a` against `b` is empty exactly when every value of
/// `a` also occurs in `b`.
pub proof fn lemma_diff_empty_iff_subset(a: Seq<i64>, b: Seq<i64>)
    ensures
        spec_diff(a, b, 0).len() == 0 <==> (forall|v: i64|
            contains_val(a, v) ==> contains_val(b, v)),
{
    if forall|v: i64| contains_val(a, v) ==> contains_val(b, v) {
        lemma_diff_empty_when_subset(a, b, 0);
    }
    if spec_diff(a, b, 0).len() == 0 {
        assert forall|v: i64| contains_val(a, v) implies contains_val(b, v) by {
            if !contains_val(b, v) {
                assert(a.skip(0) =~= a);
                assert(a.take(0) =~= Seq::<i64>::empty());
                lemma_diff_catches(a, b, v, 0);
            }
        }
    }
}

/// The two differences the integrity check computes are both empty exactly
/// when the table's rowid set and the index's referenced-rowid set are
/// equal: the check flags a pair if and only if the sets diverge.
pub proof fn lemma_integrity_exact(tvals: Seq<i64>, irows: Seq<i64>)
    ensures
        (spec_diff(tvals, irows, 0).len() == 0 && spec_diff(irows, tvals, 0).len() == 0)
            <==> (forall|v: i64| contains_val(tvals, v) <==> contains_val(irows, v)),
{
    lemma_diff_empty_iff_subset(tvals, irows);
    lemma_diff_empty_iff_subset(irows, tvals);
}

/// The message of a missing-rows issue: the count, the owning table's
/// name, and at most ten sample rowids with a truncation marker.
pub open spec fn missing_message(missing: Seq<i64>, tbl: Seq<u8>) -> Seq<u8> {
    seq![0x49u8, 0x6Eu8, 0x64u8, 0x65u8, 0x78u8, 0x20u8, 0x69u8, 0x73u8, 0x20u8, 0x6Du8, 0x69u8, 0x73u8, 0x73u8, 0x69u8, 0x6Eu8, 0x67u8, 0x20u8] + dec_u64(missing.len() as int) + seq![0x20u8, 0x72u8, 0x6Fu8, 0x77u8, 0x28u8, 0x73u8, 0x29u8, 0x20u8, 0x74u8, 0x68u8, 0x61u8, 0x74u8, 0x20u8, 0x65u8, 0x78u8, 0x69u8, 0x73u8, 0x74u8, 0x20u8, 0x69u8, 0x6Eu8, 0x20u8, 0x74u8, 0x61u8, 0x62u8, 0x6Cu8, 0x65u8, 0x20u8, 0x27u8]
        + tbl + seq![0x27u8, 0x3Au8, 0x20u8] + list_bytes(spec_sample(missing))
}

/// The message of a dangling-entries issue: the count and at most ten
/// sample rowids with a truncation marker.
pub open spec fn dangling_message(dangling: Seq<i64>) -> Seq<u8> {
    seq![0x49u8, 0x6Eu8, 0x64u8, 0x65u8, 0x78u8, 0x20u8, 0x68u8, 0x61u8, 0x73u8, 0x20u8] + dec_u64(dangling.len() as int) + seq![0x20u8, 0x64u8, 0x61u8, 0x6Eu8, 0x67u8, 0x6Cu8, 0x69u8, 0x6Eu8, 0x67u8, 0x20u8, 0x65u8, 0x6Eu8, 0x74u8, 0x72u8, 0x79u8, 0x28u8, 0x69u8, 0x65u8, 0x73u8, 0x29u8, 0x20u8, 0x72u8, 0x65u8, 0x66u8, 0x65u8, 0x72u8, 0x65u8, 0x6Eu8, 0x63u8, 0x69u8, 0x6Eu8, 0x67u8, 0x20u8, 0x6Eu8, 0x6Fu8, 0x6Eu8, 0x2Du8, 0x65u8, 0x78u8, 0x69u8, 0x73u8, 0x74u8, 0x65u8, 0x6Eu8, 0x74u8, 0x20u8, 0x72u8, 0x6Fu8, 0x77u8, 0x73u8, 0x3Au8, 0x20u8]
        + list_bytes(spec_sample(dangling))
}

/// The issue reported when a table holds rows its index lacks.
pub open spec fn missing_issue(b: BTreeInfoV, ci: Option<u64>, missing: Seq<i64>)
    -> ValidationIssueV {
    ValidationIssueV {
        validator: "index-integrity"@,
        severity: Severity::Error,
        message: missing_message(missing, b.tbl_name.unwrap()),
        location: IssueLocationV::Index { name: b.name, root_page: b.root_page },
        commit_index: ci,
        duplicate_details: None,
        integrity_details: Some(
            IntegrityDetailsV { missing, dangling: Seq::empty() },
        ),
    }
}

/// The issue reported when an index references rows its table lacks.
pub open spec fn dangling_issue(b: BTreeInfoV, ci: Option<u64>, dangling: Seq<i64>)
    -> ValidationIssueV {
    ValidationIssueV {
        validator: "index-integrity"@,
        severity: Severity::Error,
        message: dangling_message(dangling),
        location: IssueLocationV::Index { name: b.name, root_page: b.root_page },
        commit_index: ci,
        duplicate_details: None,
        integrity_details: Some(
            IntegrityDetailsV { missing: Seq::empty(), dangling },
        ),
    }
}

/// The issues the index-integrity validator reports for the discovered
/// B-trees from position `i` on: for each checkable index, a missing-rows
/// issue and a dangling-rows issue as applicable; a failed collection
/// aborts the pass.
pub open spec fn integrity_validator_issues(
    cache: PageCache,
    bts: Seq<BTreeInfoV>,
    ci: Option<u64>,
    i: int,
) -> Result<Seq<ValidationIssueV>, WalValidatorError>
    decreases bts.len() - i,
{
    if i < 0 || i >= bts.len() {
        Ok(Seq::empty())
    } else {
        let b = bts[i];
        if b.is_table || spec_should_skip(b.sql) || b.tbl_name is None
            || table_root_for(bts, b.tbl_name.unwrap(), 0) is None {
            integrity_validator_issues(cache, bts, ci, i + 1)
        } else {
            let troot = table_root_for(bts, b.tbl_name.unwrap(), 0).unwrap();
            match spec_collect_table_rowids(cache, troot) {
                Err(e) => Err(e),
                Ok(rows) => match spec_collect_index_rowids(cache, b.root_page) {
                    Err(e) => Err(e),
                    Ok(irows) => {
                        let tvals = rows.map_values(|e: (i64, RowidLocation)| e.0);
                        let missing = spec_diff(tvals, irows, 0);
                        let dangling = spec_diff(irows, tvals, 0);
                        match integrity_validator_issues(cache, bts, ci, i + 1) {
                            Err(e) => Err(e),
                            Ok(rest) => Ok(
                                (if missing.len() > 0 {
                                    seq![missing_issue(b, ci, missing)]
                                } else {
                                    Seq::empty()
                                }) + (if dangling.len() > 0 {
                                    seq![dangling_issue(b, ci, dangling)]
                                } else {
                                    Seq::empty()
                                }) + rest,
                            ),
                        }
                    },
                },
            }
        }
    }
}

/// What one whole pass of the index-integrity validator reports.
pub open spec fn spec_integrity_validator(cache: PageCache, ci: Option<u64>) -> Result<
    Seq<ValidationIssueV>,
    WalValidatorError,
> {
    match spec_discover_btrees(cache) {
        Err(e) => Err(e),
        Ok(bts) => integrity_validator_issues(cache, bts, ci, 0),
    }
}


/// On a clean state - every checkable index referencing exactly its
/// table's rowid set - the index-integrity validator reports no issues.
pub proof fn lemma_matching_sets_no_issues(
    cache: PageCache,
    bts: Seq<BTreeInfoV>,
    ci: Option<u64>,
    i: int,
)
    requires
        0 <= i,
        forall|k: int|
            0 <= k < bts.len() && !(#[trigger] bts[k]).is_table && !spec_should_skip(
                bts[k].sql,
            ) && bts[k].tbl_name is Some && table_root_for(
                bts,
                bts[k].tbl_name.unwrap(),
                0,
            ) is Some ==> {
                let troot = table_root_for(bts, bts[k].tbl_name.unwrap(), 0).unwrap();
                &&& spec_collect_table_rowids(cache, troot) is Ok
                &&& spec_collect_index_rowids(cache, bts[k].root_page) is Ok
                &&& forall|v: i64|
                    contains_val(
                        spec_collect_table_rowids(cache, troot).unwrap().map_values(
                            |e: (i64, RowidLocation)| e.0,
                        ),
                        v,
                    ) <==> contains_val(
                        spec_collect_index_rowids(cache, bts[k].root_page).unwrap(),
                        v,
                    )
            },
    ensures
        integrity_validator_issues(cache, bts, ci, i) == Ok::<
            Seq<ValidationIssueV>,
            WalValidatorError,
        >(Seq::empty()),
    decreases bts.len() - i,
{
    if i < bts.len() {
        lemma_matching_sets_no_issues(cache, bts, ci, i + 1);
        let b = bts[i];
        if !b.is_table && !spec_should_skip(b.sql) && b.tbl_name is Some
            && table_root_for(bts, b.tbl_name.unwrap(), 0) is Some {
            let troot = table_root_for(bts, b.tbl_name.unwrap(), 0).unwrap();
            let tvals = spec_collect_table_rowids(cache, troot).unwrap().map_values(
                |e: (i64, RowidLocation)| e.0,
            );
            let irows = spec_collect_index_rowids(cache, b.root_page).unwrap();
            lemma_integrity_exact(tvals, irows);
            assert(Seq::<ValidationIssueV>::empty() + Seq::<
                ValidationIssueV,
            >::empty() + Seq::<ValidationIssueV>::empty() =~= Seq::<
                ValidationIssueV,
            >::empty());
        }
    }
}

impl IndexIntegrityValidator {
    /// Create a new index integrity validator.
    pub fn new() -> (r: Self) {
        Self
    }

    /// Check if an index should be skipped (partial or expression index).
    pub fn should_skip_index(index: &BTreeInfo) -> (r: bool)
        ensures
            r == spec_should_skip(index@.sql),
    {
        let sql = match &index.sql {
            Some(s) => s,
            None => {
                // Automatic indexes have no SQL; they are always checked.
                return false;
            },
        };
        let kw_pat_where: Vec<u8> = vec![0x20u8, 0x57u8, 0x48u8, 0x45u8, 0x52u8, 0x45u8, 0x20u8];
        proof {
            assert(kw_pat_where@ =~= pat_where());
        }
        if upper_contains(sql.as_slice(), kw_pat_where.as_slice()) {
            return true;
        }
        let kw_pat_double_paren: Vec<u8> = vec![0x28u8, 0x28u8];
        proof {
            assert(kw_pat_double_paren@ =~= pat_double_paren());
        }
        if upper_contains(sql.as_slice(), kw_pat_double_paren.as_slice()) {
            return true;
        }
        let kw_pat_lower: Vec<u8> = vec![0x4Cu8, 0x4Fu8, 0x57u8, 0x45u8, 0x52u8, 0x28u8];
        proof {
            assert(kw_pat_lower@ =~= pat_lower());
        }
        if upper_contains(sql.as_slice(), kw_pat_lower.as_slice()) {
            return true;
        }
        let kw_pat_upper: Vec<u8> = vec![0x55u8, 0x50u8, 0x50u8, 0x45u8, 0x52u8, 0x28u8];
        proof {
            assert(kw_pat_upper@ =~= pat_upper());
        }
        if upper_contains(sql.as_slice(), kw_pat_upper.as_slice()) {
            return true;
        }
        let kw_pat_substr: Vec<u8> = vec![0x53u8, 0x55u8, 0x42u8, 0x53u8, 0x54u8, 0x52u8, 0x28u8];
        proof {
            assert(kw_pat_substr@ =~= pat_substr());
        }
        if upper_contains(sql.as_slice(), kw_pat_substr.as_slice()) {
            return true;
        }
        let kw_pat_length: Vec<u8> = vec![0x4Cu8, 0x45u8, 0x4Eu8, 0x47u8, 0x54u8, 0x48u8, 0x28u8];
        proof {
            assert(kw_pat_length@ =~= pat_length());
        }
        if upper_contains(sql.as_slice(), kw_pat_length.as_slice()) {
            return true;
        }
        let kw_pat_abs: Vec<u8> = vec![0x41u8, 0x42u8, 0x53u8, 0x28u8];
        proof {
            assert(kw_pat_abs@ =~= pat_abs());
        }
        if upper_contains(sql.as_slice(), kw_pat_abs.as_slice()) {
            return true;
        }
        let kw_pat_coalesce: Vec<u8> = vec![0x43u8, 0x4Fu8, 0x41u8, 0x4Cu8, 0x45u8, 0x53u8, 0x43u8, 0x45u8, 0x28u8];
        proof {
            assert(kw_pat_coalesce@ =~= pat_coalesce());
        }
        if upper_contains(sql.as_slice(), kw_pat_coalesce.as_slice()) {
            return true;
        }
        let kw_pat_ifnull: Vec<u8> = vec![0x49u8, 0x46u8, 0x4Eu8, 0x55u8, 0x4Cu8, 0x4Cu8, 0x28u8];
        proof {
            assert(kw_pat_ifnull@ =~= pat_ifnull());
        }
        if upper_contains(sql.as_slice(), kw_pat_ifnull.as_slice()) {
            return true;
        }
        let kw_pat_nullif: Vec<u8> = vec![0x4Eu8, 0x55u8, 0x4Cu8, 0x4Cu8, 0x49u8, 0x46u8, 0x28u8];
        proof {
            assert(kw_pat_nullif@ =~= pat_nullif());
        }
        if upper_contains(sql.as_slice(), kw_pat_nullif.as_slice()) {
            return true;
        }
        let kw_pat_typeof: Vec<u8> = vec![0x54u8, 0x59u8, 0x50u8, 0x45u8, 0x4Fu8, 0x46u8, 0x28u8];
        proof {
            assert(kw_pat_typeof@ =~= pat_typeof());
        }
        if upper_contains(sql.as_slice(), kw_pat_typeof.as_slice()) {
            return true;
        }
        let kw_pat_cast: Vec<u8> = vec![0x43u8, 0x41u8, 0x53u8, 0x54u8, 0x28u8];
        proof {
            assert(kw_pat_cast@ =~= pat_cast());
        }
        if upper_contains(sql.as_slice(), kw_pat_cast.as_slice()) {
            return true;
        }
        let kw_pat_date: Vec<u8> = vec![0x44u8, 0x41u8, 0x54u8, 0x45u8, 0x28u8];
        proof {
            assert(kw_pat_date@ =~= pat_date());
        }
        if upper_contains(sql.as_slice(), kw_pat_date.as_slice()) {
            return true;
        }
        let kw_pat_time: Vec<u8> = vec![0x54u8, 0x49u8, 0x4Du8, 0x45u8, 0x28u8];
        proof {
            assert(kw_pat_time@ =~= pat_time());
        }
        if upper_contains(sql.as_slice(), kw_pat_time.as_slice()) {
            return true;
        }
        let kw_pat_datetime: Vec<u8> = vec![0x44u8, 0x41u8, 0x54u8, 0x45u8, 0x54u8, 0x49u8, 0x4Du8, 0x45u8, 0x28u8];
        proof {
            assert(kw_pat_datetime@ =~= pat_datetime());
        }
        if upper_contains(sql.as_slice(), kw_pat_datetime.as_slice()) {
            return true;
        }
        let kw_pat_julianday: Vec<u8> = vec![0x4Au8, 0x55u8, 0x4Cu8, 0x49u8, 0x41u8, 0x4Eu8, 0x44u8, 0x41u8, 0x59u8, 0x28u8];
        proof {
            assert(kw_pat_julianday@ =~= pat_julianday());
        }
        if upper_contains(sql.as_slice(), kw_pat_julianday.as_slice()) {
            return true;
        }
        let kw_pat_json_extract: Vec<u8> = vec![0x4Au8, 0x53u8, 0x4Fu8, 0x4Eu8, 0x5Fu8, 0x45u8, 0x58u8, 0x54u8, 0x52u8, 0x41u8, 0x43u8, 0x54u8, 0x28u8];
        proof {
            assert(kw_pat_json_extract@ =~= pat_json_extract());
        }
        if upper_contains(sql.as_slice(), kw_pat_json_extract.as_slice()) {
            return true;
        }
        let kw_pat_json: Vec<u8> = vec![0x4Au8, 0x53u8, 0x4Fu8, 0x4Eu8, 0x28u8];
        proof {
            assert(kw_pat_json@ =~= pat_json());
        }
        if upper_contains(sql.as_slice(), kw_pat_json.as_slice()) {
            return true;
        }
        false
    }
}

impl Validator for IndexIntegrityValidator {
    fn name(&self) -> &'static str {
        "index-integrity"
    }

    fn validate(&mut self, ctx: &ValidationContext) -> Result<
        Vec<ValidationIssue>,
        WalValidatorError,
    > {
        check_index_integrity(ctx)
    }
}

/// Find the root page of the last table in `btrees` carrying `name`.
fn find_table_root(btrees: &Vec<BTreeInfo>, name: &Vec<u8>) -> (r: Option<u32>)
    ensures
        r == table_root_for(
            btrees@.map_values(|b: BTreeInfo| b@),
            name@,
            0,
        ),
{
    let ghost bts = btrees@.map_values(|b: BTreeInfo| b@);
    let mut found: Option<u32> = None;
    let mut j: usize = 0;
    while j < btrees.len()
        invariant
            bts == btrees@.map_values(|b: BTreeInfo| b@),
            j <= btrees@.len(),
            table_root_for(bts, name@, 0) == (match table_root_for(bts, name@, j as int) {
                Some(root) => Some(root),
                None => found,
            }),
        decreases btrees@.len() - j,
    {
        let b = &btrees[j];
        proof {
            assert(bts[j as int] == b@);
        }
        if b.is_table {
            if let Some(ref n) = b.name {
                if bytes_equal(n.as_slice(), name.as_slice()) {
                    found = Some(b.root_page);
                }
            }
        }
        j = j + 1;
    }
    found
}

/// Whether `x` occurs in `v`.
fn contains_i64(v: &Vec<i64>, x: i64) -> (r: bool)
    ensures
        r == contains_val(v@, x),
{
    let mut m: usize = 0;
    while m < v.len()
        invariant
            m <= v@.len(),
            forall|k: int| 0 <= k < m ==> v@[k] != x,
        decreases v@.len() - m,
    {
        if v[m] == x {
            return true;
        }
        m = m + 1;
    }
    false
}

/// The distinct values of `a` that do not occur in `b`, in order of first
/// occurrence.
fn diff_values(a: &Vec<i64>, b: &Vec<i64>) -> (r: Vec<i64>)
    ensures
        r@ == spec_diff(a@, b@, 0),
{
    let mut out: Vec<i64> = Vec::new();
    let n = a.len();
    proof {
        assert(out@ =~= Seq::<i64>::empty());
        assert(Seq::<i64>::empty() + spec_diff(a@, b@, 0) =~= spec_diff(a@, b@, 0));
    }
    let mut i: usize = 0;
    while i < n
        invariant
            n == a@.len(),
            i <= n,
            spec_diff(a@, b@, 0) == out@ + spec_diff(a@, b@, i as int),
        decreases n - i,
    {
        let ghost outv = out@;
        let x = a[i];
        let in_b = contains_i64(b, x);
        // A value seen earlier in `a` was already handled.
        let mut seen = false;
        let mut m: usize = 0;
        while m < i
            invariant
                n == a@.len(),
                i < n,
                m <= i,
                x == a@[i as int],
                seen == (exists|k: int| 0 <= k < m && #[trigger] a@[k] == x),
            decreases i - m,
        {
            if a[m] == x {
                seen = true;
            }
            m = m + 1;
        }
        proof {
            assert(seen == contains_val(a@.take(i as int), x)) by {
                if seen {
                    let k = choose|k: int| 0 <= k < i && #[trigger] a@[k] == x;
                    assert(a@.take(i as int)[k] == x);
                }
                if contains_val(a@.take(i as int), x) {
                    let k = choose|k: int|
                        0 <= k < a@.take(i as int).len() && #[trigger] a@.take(
                            i as int,
                        )[k] == x;
                    assert(a@[k] == x);
                }
            };
        }
        if !in_b && !seen {
            out.push(x);
            proof {
                assert(spec_diff(a@, b@, i as int) == seq![x] + spec_diff(
                    a@,
                    b@,
                    i + 1,
                ));
                assert(out@ =~= outv + seq![x]);
                assert((outv + seq![x]) + spec_diff(a@, b@, i + 1) =~= outv + (seq![x]
                    + spec_diff(a@, b@, i + 1)));
            }
        } else {
            proof {
                assert(spec_diff(a@, b@, i as int) == spec_diff(a@, b@, i + 1));
            }
        }
        i = i + 1;
    }
    proof {
        assert(spec_diff(a@, b@, n as int) =~= Seq::<i64>::empty());
        assert(out@ + Seq::<i64>::empty() =~= out@);
    }
    out
}

/// Run one index-integrity pass over the current state.
pub fn check_index_integrity(ctx: &ValidationContext) -> (r: Result<
    Vec<ValidationIssue>,
    WalValidatorError,
>)
    requires
        ctx.page_cache.wf(),
    ensures
        match r {
            Ok(v) => spec_integrity_validator(ctx.page_cache, ctx.commit_index) == Ok::<
                Seq<ValidationIssueV>,
                WalValidatorError,
            >(v@.map_values(|i: ValidationIssue| i@)),
            Err(e) => spec_integrity_validator(ctx.page_cache, ctx.commit_index)
                == Err::<Seq<ValidationIssueV>, WalValidatorError>(e),
        },
{
    let ghost cache = ctx.page_cache;
    let commit_index = ctx.commit_index;
    let scanner = ctx.scanner();

    let btrees = match scanner.discover_btrees() {
        Ok(b) => b,
        Err(e) => {
            return Err(e);
        },
    };
    let ghost bts = btrees@.map_values(|b: BTreeInfo| b@);

    let mut issues: Vec<ValidationIssue> = Vec::new();
    proof {
        assert(issues@.map_values(|i: ValidationIssue| i@) =~= Seq::<
            ValidationIssueV,
        >::empty());
        match integrity_validator_issues(cache, bts, commit_index, 0) {
            Ok(all) => {
                assert(Seq::<ValidationIssueV>::empty() + all =~= all);
            },
            Err(_) => {},
        }
    }
    let mut i: usize = 0;
    while i < btrees.len()
        invariant
            cache == ctx.page_cache,
            cache.wf(),
            scanner.spec_cache() == cache,
            commit_index == ctx.commit_index,
            bts == btrees@.map_values(|b: BTreeInfo| b@),
            spec_discover_btrees(cache) == Ok::<
                Seq<BTreeInfoV>,
                WalValidatorError,
            >(bts),
            i <= btrees@.len(),
            match integrity_validator_issues(cache, bts, commit_index, i as int) {
                Ok(rest) => integrity_validator_issues(cache, bts, commit_index, 0)
                    == Ok::<Seq<ValidationIssueV>, WalValidatorError>(
                    issues@.map_values(|x: ValidationIssue| x@) + rest,
                ),
                Err(e) => integrity_validator_issues(cache, bts, commit_index, 0)
                    == Err::<Seq<ValidationIssueV>, WalValidatorError>(e),
            },
        decreases btrees@.len() - i,
    {
        let ghost issuesv = issues@.map_values(|x: ValidationIssue| x@);
        let index = &btrees[i];
        proof {
            assert(bts[i as int] == index@);
        }
        let skip = index.is_table || IndexIntegrityValidator::should_skip_index(index);
        if !skip {
            let tbl_name = match &index.tbl_name {
                Some(n) => Some(slice_to_vec(n.as_slice())),
                None => None,
            };
            if let Some(tbl_name) = tbl_name {
                if let Some(table_root) = find_table_root(&btrees, &tbl_name) {
                    let table_rows = match scanner.collect_table_rowids(table_root) {
                        Ok(rws) => rws,
                        Err(e) => {
                            proof {
                                assert(integrity_validator_issues(
                                    cache,
                                    bts,
                                    commit_index,
                                    i as int,
                                ) == Err::<Seq<ValidationIssueV>, WalValidatorError>(e));
                            }
                            return Err(e);
                        },
                    };
                    let index_rowids = match scanner.collect_index_rowids(
                        index.root_page,
                    ) {
                        Ok(rws) => rws,
                        Err(e) => {
                            proof {
                                assert(integrity_validator_issues(
                                    cache,
                                    bts,
                                    commit_index,
                                    i as int,
                                ) == Err::<Seq<ValidationIssueV>, WalValidatorError>(e));
                            }
                            return Err(e);
                        },
                    };

                    // Project the table entries to their rowid values.
                    let mut table_vals: Vec<i64> = Vec::new();
                    let mut t: usize = 0;
                    while t < table_rows.len()
                        invariant
                            t <= table_rows@.len(),
                            table_vals@ == table_rows@.take(t as int).map_values(
                                |e: (i64, RowidLocation)| e.0,
                            ),
                        decreases table_rows@.len() - t,
                    {
                        table_vals.push(table_rows[t].0);
                        proof {
                            assert(table_rows@.take(t + 1).map_values(
                                |e: (i64, RowidLocation)| e.0,
                            ) =~= table_rows@.take(t as int).map_values(
                                |e: (i64, RowidLocation)| e.0,
                            ).push(table_rows@[t as int].0));
                        }
                        t = t + 1;
                    }
                    proof {
                        assert(table_rows@.take(table_rows@.len() as int)
                            =~= table_rows@);
                    }

                    let missing = diff_values(&table_vals, &index_rowids);
                    let dangling = diff_values(&index_rowids, &table_vals);
                    let ghost newly = (if missing@.len() > 0 {
                        seq![missing_issue(bts[i as int], commit_index, missing@)]
                    } else {
                        Seq::<ValidationIssueV>::empty()
                    }) + (if dangling@.len() > 0 {
                        seq![dangling_issue(bts[i as int], commit_index, dangling@)]
                    } else {
                        Seq::<ValidationIssueV>::empty()
                    });

                    if missing.len() > 0 {
                        let name = match &index.name {
                            Some(n) => Some(slice_to_vec(n.as_slice())),
                            None => None,
                        };
                        let mut message: Vec<u8> = vec![0x49u8, 0x6Eu8, 0x64u8, 0x65u8, 0x78u8, 0x20u8, 0x69u8, 0x73u8, 0x20u8, 0x6Du8, 0x69u8, 0x73u8, 0x73u8, 0x69u8, 0x6Eu8, 0x67u8, 0x20u8];
                        let mut count = format_u64(missing.len() as u64);
                        message.append(&mut count);
                        let mid: Vec<u8> = vec![0x20u8, 0x72u8, 0x6Fu8, 0x77u8, 0x28u8, 0x73u8, 0x29u8, 0x20u8, 0x74u8, 0x68u8, 0x61u8, 0x74u8, 0x20u8, 0x65u8, 0x78u8, 0x69u8, 0x73u8, 0x74u8, 0x20u8, 0x69u8, 0x6Eu8, 0x20u8, 0x74u8, 0x61u8, 0x62u8, 0x6Cu8, 0x65u8, 0x20u8, 0x27u8];
                        push_bytes(&mut message, mid.as_slice());
                        push_bytes(&mut message, tbl_name.as_slice());
                        let sep: Vec<u8> = vec![0x27u8, 0x3Au8, 0x20u8];
                        push_bytes(&mut message, sep.as_slice());
                        let samples = sample_values(&missing);
                        let mut listed = format_i64_list(&samples);
                        message.append(&mut listed);
                        proof {
                            assert(message@ =~= missing_message(
                                missing@,
                                bts[i as int].tbl_name.unwrap(),
                            ));
                        }
                        let issue = ValidationIssue {
                            validator: "index-integrity",
                            severity: Severity::Error,
                            message,
                            location: IssueLocation::Index {
                                name,
                                root_page: index.root_page,
                            },
                            commit_index,
                            duplicate_details: None,
                            integrity_details: Some(
                                IntegrityDetails { missing, dangling: Vec::new() },
                            ),
                        };
                        proof {
                            assert(issue@ == missing_issue(
                                bts[i as int],
                                commit_index,
                                issue.integrity_details.unwrap().missing@,
                            ));
                        }
                        issues.push(issue);
                    }
                    if dangling.len() > 0 {
                        let name = match &index.name {
                            Some(n) => Some(slice_to_vec(n.as_slice())),
                            None => None,
                        };
                        let mut message: Vec<u8> = vec![0x49u8, 0x6Eu8, 0x64u8, 0x65u8, 0x78u8, 0x20u8, 0x68u8, 0x61u8, 0x73u8, 0x20u8];
                        let mut count = format_u64(dangling.len() as u64);
                        message.append(&mut count);
                        let mid: Vec<u8> = vec![0x20u8, 0x64u8, 0x61u8, 0x6Eu8, 0x67u8, 0x6Cu8, 0x69u8, 0x6Eu8, 0x67u8, 0x20u8, 0x65u8, 0x6Eu8, 0x74u8, 0x72u8, 0x79u8, 0x28u8, 0x69u8, 0x65u8, 0x73u8, 0x29u8, 0x20u8, 0x72u8, 0x65u8, 0x66u8, 0x65u8, 0x72u8, 0x65u8, 0x6Eu8, 0x63u8, 0x69u8, 0x6Eu8, 0x67u8, 0x20u8, 0x6Eu8, 0x6Fu8, 0x6Eu8, 0x2Du8, 0x65u8, 0x78u8, 0x69u8, 0x73u8, 0x74u8, 0x65u8, 0x6Eu8, 0x74u8, 0x20u8, 0x72u8, 0x6Fu8, 0x77u8, 0x73u8, 0x3Au8, 0x20u8];
                        push_bytes(&mut message, mid.as_slice());
                        let samples = sample_values(&dangling);
                        let mut listed = format_i64_list(&samples);
                        message.append(&mut listed);
                        proof {
                            assert(message@ =~= dangling_message(dangling@));
                        }
                        let issue = ValidationIssue {
                            validator: "index-integrity",
                            severity: Severity::Error,
                            message,
                            location: IssueLocation::Index {
                                name,
                                root_page: index.root_page,
                            },
                            commit_index,
                            duplicate_details: None,
                            integrity_details: Some(
                                IntegrityDetails { missing: Vec::new(), dangling },
                            ),
                        };
                        proof {
                            assert(issue@ == dangling_issue(
                                bts[i as int],
                                commit_index,
                                issue.integrity_details.unwrap().dangling@,
                            ));
                        }
                        issues.push(issue);
                    }
                    proof {
                        assert(issues@.map_values(|x: ValidationIssue| x@) =~= issuesv
                            + newly);
                        match integrity_validator_issues(cache, bts, commit_index, i + 1) {
                            Ok(rest) => {
                                assert((issuesv + newly) + rest =~= issuesv + (newly
                                    + rest));
                            },
                            Err(_) => {},
                        }
                    }
                }
            }
        }
        i = i + 1;
    }
    proof {
        assert(integrity_validator_issues(cache, bts, commit_index, btrees@.len() as int)
            == Ok::<Seq<ValidationIssueV>, WalValidatorError>(Seq::empty()));
        let issuesv = issues@.map_values(|x: ValidationIssue| x@);
        assert(issuesv + Seq::<ValidationIssueV>::empty() =~= issuesv);
    }
    Ok(issues)
}

} // verus!
