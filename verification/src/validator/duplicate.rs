//! Grouping of collected rowids and keys into duplicate reports.

use vstd::prelude::*;
use vstd::assert_by_contradiction;
use vstd::slice::slice_to_vec;

use crate::btree::cell::IndexKey;
use crate::btree::scanner::RowidLocation;
pub use crate::validators::issue::DuplicateEntry;

verus! {

/// Type of duplicate (table rowid or index key).
#[derive(Debug, Clone)]
pub enum DuplicateType {
    /// Duplicate rowid in a table B-tree.
    TableRowid,
    /// Duplicate key in an index B-tree.
    IndexKey,
}

/// The locations at which `key` occurs in `entries`, in entry order.
pub open spec fn occ_locs<K>(entries: Seq<(K, RowidLocation)>, key: K) -> Seq<
    RowidLocation,
>
    decreases entries.len(),
{
    if entries.len() == 0 {
        Seq::empty()
    } else {
        occ_locs(entries.drop_last(), key) + (if entries.last().0 == key {
            seq![entries.last().1]
        } else {
            Seq::empty()
        })
    }
}

/// The duplicate groups of `entries` from position `i` on: for each key
/// whose first occurrence is at or after `i` and which occurs at least
/// twice overall, the key together with every location it occupies, in
/// order of first occurrence.
pub open spec fn spec_duplicates<K>(entries: Seq<(K, RowidLocation)>, i: int) -> Seq<
    (K, Seq<RowidLocation>),
>
    decreases entries.len() - i,
{
    if i < 0 || i >= entries.len() {
        Seq::empty()
    } else {
        let k = entries[i].0;
        let rest = spec_duplicates(entries, i + 1);
        if occ_locs(entries.take(i), k).len() == 0 && occ_locs(entries, k).len() >= 2 {
            seq![(k, occ_locs(entries, k))] + rest
        } else {
            rest
        }
    }
}


/// A key that matches no entry occurs nowhere.
proof fn lemma_occ_none<K>(entries: Seq<(K, RowidLocation)>, key: K)
    requires
        forall|i: int| 0 <= i < entries.len() ==> (#[trigger] entries[i]).0 != key,
    ensures
        occ_locs(entries, key).len() == 0,
    decreases entries.len(),
{
    if entries.len() > 0 {
        lemma_occ_none(entries.drop_last(), key);
    }
}

/// A key that matches exactly one entry occurs at most once.
proof fn lemma_occ_at_most_one<K>(entries: Seq<(K, RowidLocation)>, key: K)
    requires
        forall|i: int, j: int|
            0 <= i < j < entries.len() ==> (#[trigger] entries[i]).0 != (
            #[trigger] entries[j]).0,
    ensures
        occ_locs(entries, key).len() <= 1,
    decreases entries.len(),
{
    if entries.len() > 0 {
        let front = entries.drop_last();
        if entries.last().0 == key {
            assert(forall|i: int|
                0 <= i < front.len() ==> (#[trigger] front[i]).0 != key);
            lemma_occ_none(front, key);
        } else {
            lemma_occ_at_most_one(front, key);
        }
    }
}

/// An entry's key occurs at least once.
proof fn lemma_occ_at_index<K>(entries: Seq<(K, RowidLocation)>, i: int)
    requires
        0 <= i < entries.len(),
    ensures
        occ_locs(entries, entries[i].0).len() >= 1,
    decreases entries.len(),
{
    if i == entries.len() - 1 {
        lemma_occ_nonneg(entries.drop_last(), entries[i].0);
    } else {
        lemma_occ_at_index(entries.drop_last(), i);
    }
}

/// Occurrence lists never have negative length (a shape fact used above).
proof fn lemma_occ_nonneg<K>(entries: Seq<(K, RowidLocation)>, key: K)
    ensures
        occ_locs(entries, key).len() >= 0,
{
}

/// A key shared by two entries occurs at least twice.
proof fn lemma_occ_at_least_two<K>(entries: Seq<(K, RowidLocation)>, i: int, j: int)
    requires
        0 <= i < j < entries.len(),
        entries[i].0 == entries[j].0,
    ensures
        occ_locs(entries, entries[i].0).len() >= 2,
    decreases entries.len(),
{
    if j == entries.len() - 1 {
        lemma_occ_at_index(entries.drop_last(), i);
    } else {
        lemma_occ_at_least_two(entries.drop_last(), i, j);
    }
}

/// Each recursion step can only shrink the duplicate-group list.
proof fn lemma_dups_monotone<K>(entries: Seq<(K, RowidLocation)>, i: int)
    requires
        0 <= i,
    ensures
        spec_duplicates(entries, i).len() >= spec_duplicates(entries, i + 1).len(),
{
}

/// The duplicate list from position `i` is non-empty when some key's first
/// occurrence sits at or after `i` and that key occurs at least twice.
proof fn lemma_dups_complete_from<K>(entries: Seq<(K, RowidLocation)>, f: int, i: int)
    requires
        0 <= i <= f < entries.len(),
        occ_locs(entries.take(f), entries[f].0).len() == 0,
        occ_locs(entries, entries[f].0).len() >= 2,
    ensures
        spec_duplicates(entries, i).len() > 0,
    decreases f - i,
{
    if i == f {
        assert(spec_duplicates(entries, i) == seq![
            (entries[f].0, occ_locs(entries, entries[f].0)),
        ] + spec_duplicates(entries, i + 1));
    } else {
        lemma_dups_complete_from(entries, f, i + 1);
        lemma_dups_monotone(entries, i);
    }
}

/// The first position at which `key` occurs in `entries`.
spec fn first_occurrence<K>(entries: Seq<(K, RowidLocation)>, key: K, i: int) -> int
    decreases entries.len() - i,
{
    if i < 0 || i >= entries.len() {
        entries.len() as int
    } else if entries[i].0 == key {
        i
    } else {
        first_occurrence(entries, key, i + 1)
    }
}

/// `first_occurrence` finds the first match at or after `i`, when one
/// exists at position `at`.
proof fn lemma_first_occurrence<K>(entries: Seq<(K, RowidLocation)>, key: K, i: int, at: int)
    requires
        0 <= i <= at < entries.len(),
        entries[at].0 == key,
    ensures
        ({
            let f = first_occurrence(entries, key, i);
            &&& i <= f <= at
            &&& entries[f].0 == key
            &&& forall|m: int| i <= m < f ==> (#[trigger] entries[m]).0 != key
        }),
    decreases at - i,
{
    if entries[i].0 != key {
        lemma_first_occurrence(entries, key, i + 1, at);
    }
}

/// There is a duplicate group exactly when two entries share a key: the
/// grouping misses nothing and invents nothing.
pub proof fn lemma_duplicates_iff_repeat<K>(entries: Seq<(K, RowidLocation)>)
    ensures
        spec_duplicates(entries, 0).len() > 0 <==> exists|i: int, j: int|
            0 <= i < j < entries.len() && (#[trigger] entries[i]).0 == (
            #[trigger] entries[j]).0,
{
    if exists|i: int, j: int|
        0 <= i < j < entries.len() && (#[trigger] entries[i]).0 == (
        #[trigger] entries[j]).0 {
        let (i, j) = choose|i: int, j: int|
            0 <= i < j < entries.len() && (#[trigger] entries[i]).0 == (
            #[trigger] entries[j]).0;
        lemma_occ_at_least_two(entries, i, j);
        lemma_first_occurrence(entries, entries[i].0, 0, i);
        let f = first_occurrence(entries, entries[i].0, 0);
        assert(occ_locs(entries.take(f), entries[f].0).len() == 0) by {
            assert(forall|m: int|
                0 <= m < f ==> (#[trigger] entries.take(f)[m]).0 != entries[f].0);
            lemma_occ_none(entries.take(f), entries[f].0);
        };
        lemma_dups_complete_from(entries, f, 0);
    }
    if spec_duplicates(entries, 0).len() > 0 {
        assert_by_contradiction!(exists|i: int, j: int|
            0 <= i < j < entries.len() && (#[trigger] entries[i]).0 == (
            #[trigger] entries[j]).0, {
            lemma_dups_empty_when_distinct(entries, 0);
        });
    }
}

/// With pairwise-distinct keys the duplicate list is empty from any
/// starting position.
proof fn lemma_dups_empty_when_distinct<K>(entries: Seq<(K, RowidLocation)>, i: int)
    requires
        0 <= i,
        forall|m: int, n: int|
            0 <= m < n < entries.len() ==> (#[trigger] entries[m]).0 != (
            #[trigger] entries[n]).0,
    ensures
        spec_duplicates(entries, i).len() == 0,
    decreases entries.len() - i,
{
    if i < entries.len() {
        lemma_occ_at_most_one(entries, entries[i].0);
        lemma_dups_empty_when_distinct(entries, i + 1);
    }
}

/// Entries with pairwise-distinct keys produce no duplicate groups: on a
/// clean state neither the rowid nor the unique-key validator reports.
pub proof fn lemma_distinct_keys_no_duplicates<K>(entries: Seq<(K, RowidLocation)>)
    requires
        forall|m: int, n: int|
            0 <= m < n < entries.len() ==> (#[trigger] entries[m]).0 != (
            #[trigger] entries[n]).0,
    ensures
        spec_duplicates(entries, 0).len() == 0,
{
    lemma_dups_empty_when_distinct(entries, 0);
}

/// Every two entries carry different keys.
pub open spec fn entries_distinct<K>(entries: Seq<(K, RowidLocation)>) -> bool {
    forall|m: int, n: int|
        0 <= m < n < entries.len() ==> (#[trigger] entries[m]).0 != (
        #[trigger] entries[n]).0
}

/// Report of duplicates found in a single state (base database or after a
/// commit).
#[derive(Debug)]
pub struct DuplicateReport {
    /// Commit index (`None` for the base database state).
    pub commit_index: Option<u64>,
    /// Root page of the B-tree.
    pub btree_root: u32,
    /// Name of the table or index, as raw catalog bytes (if known).
    pub name: Option<Vec<u8>>,
    /// Type of duplicate.
    pub duplicate_type: DuplicateType,
    /// Duplicate rowids (for tables).
    pub rowid_duplicates: Vec<DuplicateEntry<i64>>,
    /// Duplicate keys (for indexes).
    pub key_duplicates: Vec<DuplicateEntry<IndexKey>>,
}

impl DuplicateReport {
    /// Returns true if this report contains any duplicates.
    pub fn has_duplicates(&self) -> (r: bool)
        ensures
            r == (self.rowid_duplicates@.len() > 0 || self.key_duplicates@.len() > 0),
    {
        self.rowid_duplicates.len() > 0 || self.key_duplicates.len() > 0
    }

    /// Total number of duplicate entries.
    pub fn duplicate_count(&self) -> (r: usize)
        requires
            self.rowid_duplicates@.len() + self.key_duplicates@.len() <= usize::MAX,
        ensures
            r == self.rowid_duplicates@.len() + self.key_duplicates@.len(),
    {
        self.rowid_duplicates.len() + self.key_duplicates.len()
    }
}

/// Group index-key entries by key and keep the keys that occur more than
/// once, each with every location it occupies.
pub fn find_duplicates(entries: &Vec<(IndexKey, RowidLocation)>) -> (r: Vec<
    DuplicateEntry<IndexKey>,
>)
    ensures
        r@.map_values(|d: DuplicateEntry<IndexKey>| (d.key.raw@, d.locations@))
            == spec_duplicates(
            entries@.map_values(|e: (IndexKey, RowidLocation)| (e.0.raw@, e.1)),
            0,
        ),
{
    let ghost ev = entries@.map_values(|e: (IndexKey, RowidLocation)| (e.0.raw@, e.1));
    let mut out: Vec<DuplicateEntry<IndexKey>> = Vec::new();
    let n = entries.len();
    proof {
        assert(out@.map_values(|d: DuplicateEntry<IndexKey>| (d.key.raw@, d.locations@))
            =~= Seq::<(Seq<u8>, Seq<RowidLocation>)>::empty());
        assert(Seq::<(Seq<u8>, Seq<RowidLocation>)>::empty() + spec_duplicates(ev, 0)
            =~= spec_duplicates(ev, 0));
    }
    let mut idx: usize = 0;
    while idx < n
        invariant
            n == entries@.len(),
            ev == entries@.map_values(|e: (IndexKey, RowidLocation)| (e.0.raw@, e.1)),
            idx <= n,
            spec_duplicates(ev, 0) == out@.map_values(
                |d: DuplicateEntry<IndexKey>| (d.key.raw@, d.locations@),
            ) + spec_duplicates(ev, idx as int),
        decreases n - idx,
    {
        let ghost outv = out@.map_values(
            |d: DuplicateEntry<IndexKey>| (d.key.raw@, d.locations@),
        );
        let key = &entries[idx].0;
        let ghost kv = key.raw@;
        proof {
            assert(ev[idx as int].0 == kv);
        }

        // Count earlier occurrences of this key: only a first occurrence
        // opens a group.
        let mut cnt: usize = 0;
        let mut m: usize = 0;
        proof {
            assert(ev.take(0) =~= Seq::<(Seq<u8>, RowidLocation)>::empty());
        }
        while m < idx
            invariant
                n == entries@.len(),
                ev == entries@.map_values(
                    |e: (IndexKey, RowidLocation)| (e.0.raw@, e.1),
                ),
                idx < n,
                m <= idx,
                cnt <= m,
                kv == ev[idx as int].0,
                key.raw@ == kv,
                cnt == occ_locs(ev.take(m as int), kv).len(),
            decreases idx - m,
        {
            proof {
                assert(ev.take(m + 1).drop_last() =~= ev.take(m as int));
                assert(ev.take(m + 1).last() == ev[m as int]);
            }
            if entries[m].0.eq(key) {
                proof {
                    assert(ev[m as int].0 == kv);
                }
                cnt = cnt + 1;
            } else {
                proof {
                    assert(ev[m as int].0 != kv);
                }
            }
            m = m + 1;
        }

        if cnt == 0 {
            // First occurrence: gather every location of this key.
            let mut locs: Vec<RowidLocation> = Vec::new();
            let mut j: usize = 0;
            proof {
                assert(locs@ =~= occ_locs(ev.take(0), kv));
            }
            while j < n
                invariant
                    n == entries@.len(),
                    ev == entries@.map_values(
                        |e: (IndexKey, RowidLocation)| (e.0.raw@, e.1),
                    ),
                    j <= n,
                    kv == ev[idx as int].0,
                    key.raw@ == kv,
                    idx < n,
                    locs@ == occ_locs(ev.take(j as int), kv),
                decreases n - j,
            {
                proof {
                    assert(ev.take(j + 1).drop_last() =~= ev.take(j as int));
                    assert(ev.take(j + 1).last() == ev[j as int]);
                }
                if entries[j].0.eq(key) {
                    proof {
                        assert(ev[j as int].0 == kv);
                    }
                    locs.push(entries[j].1);
                    proof {
                        assert(locs@ =~= occ_locs(ev.take(j + 1), kv));
                    }
                } else {
                    proof {
                        assert(ev[j as int].0 != kv);
                    }
                }
                j = j + 1;
            }
            proof {
                assert(ev.take(n as int) =~= ev);
                assert(locs@ == occ_locs(ev, kv));
            }

            if locs.len() >= 2 {
                let entry = DuplicateEntry {
                    key: IndexKey { raw: slice_to_vec(key.raw.as_slice()) },
                    locations: locs,
                };
                let ghost entv = (entry.key.raw@, entry.locations@);
                out.push(entry);
                proof {
                    let outv2 = out@.map_values(
                        |d: DuplicateEntry<IndexKey>| (d.key.raw@, d.locations@),
                    );
                    assert(outv2 =~= outv.push(entv));
                    assert(spec_duplicates(ev, idx as int) == seq![
                        (kv, occ_locs(ev, kv)),
                    ] + spec_duplicates(ev, idx + 1));
                    assert((outv + seq![(kv, occ_locs(ev, kv))]) + spec_duplicates(
                        ev,
                        idx + 1,
                    ) =~= outv + (seq![(kv, occ_locs(ev, kv))] + spec_duplicates(
                        ev,
                        idx + 1,
                    )));
                    assert(outv.push(entv) =~= outv + seq![(kv, occ_locs(ev, kv))]);
                }
            } else {
                proof {
                    assert(spec_duplicates(ev, idx as int) == spec_duplicates(
                        ev,
                        idx + 1,
                    ));
                }
            }
        } else {
            proof {
                assert(occ_locs(ev.take(idx as int), kv).len() > 0);
                assert(spec_duplicates(ev, idx as int) == spec_duplicates(ev, idx + 1));
            }
        }
        idx = idx + 1;
    }
    proof {
        assert(spec_duplicates(ev, n as int) =~= Seq::<
            (Seq<u8>, Seq<RowidLocation>),
        >::empty());
        let outv = out@.map_values(
            |d: DuplicateEntry<IndexKey>| (d.key.raw@, d.locations@),
        );
        assert(outv + Seq::<(Seq<u8>, Seq<RowidLocation>)>::empty() =~= outv);
    }
    out
}

} // verus!
